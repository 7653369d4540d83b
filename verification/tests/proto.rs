use std::time::Duration;

use eevideo::assembler::{AssembleError, FrameAssembler, FrameDropReason, FrameEvent};
use eevideo::compat_profile::{compat_stream_profile, StreamProfileId, COMPAT_PROFILE_NAME};
use eevideo::compat_stream::{CompatPacket, CompatPacketError, CompatPacketizer, PayloadType, VideoFrame};
use eevideo::pixel_format::PixelFormat;
use eevideo::stats::StreamStats;

fn nanos(d: Duration) -> u64 {
    d.as_nanos() as u64
}

#[test]
fn round_trips_pfnc_values() {
    for format in [
        PixelFormat::Mono8,
        PixelFormat::Mono16,
        PixelFormat::BayerGr8,
        PixelFormat::BayerRg8,
        PixelFormat::BayerGb8,
        PixelFormat::BayerBg8,
        PixelFormat::Rgb8,
        PixelFormat::Uyvy,
    ] {
        assert_eq!(PixelFormat::from_pfnc(format.pfnc()).unwrap(), format);
    }
}

#[test]
fn maps_caps_to_formats() {
    assert_eq!(
        PixelFormat::from_caps("video/x-raw", "GRAY16_LE").unwrap(),
        PixelFormat::Mono16
    );
    assert_eq!(
        PixelFormat::from_caps("video/x-bayer", "bggr").unwrap(),
        PixelFormat::BayerBg8
    );
}

#[test]
fn compatibility_profile_identity_is_stable() {
    let profile = compat_stream_profile();
    assert_eq!(profile.name, COMPAT_PROFILE_NAME);
    assert_eq!(profile.id.as_str(), StreamProfileId::CompatibilityV1.as_str());
    assert_eq!(profile.minimum_mtu(), profile.leader_size);
}

#[test]
fn serializes_and_parses_leader() {
    let packet = CompatPacket::Leader {
        frame_id: 9,
        packet_id: 0,
        timestamp: 1234,
        payload_type: PayloadType::Image,
        pixel_format: PixelFormat::Mono16,
        width: 640,
        height: 480,
    };

    let bytes = packet.to_bytes();
    assert_eq!(CompatPacket::parse(&bytes).unwrap(), packet);
}

#[test]
fn packetizer_emits_leader_payloads_and_trailer() {
    let frame = VideoFrame {
        frame_id: 12,
        timestamp: 99,
        width: 12,
        height: 4,
        pixel_format: PixelFormat::Mono8,
        payload_type: PayloadType::Image,
        data: vec![1; 48],
    };

    let packets = CompatPacketizer::new(44).unwrap().packetize(&frame).unwrap();
    assert_eq!(packets.len(), 4);
    assert!(matches!(CompatPacket::parse(&packets[0]).unwrap(), CompatPacket::Leader { .. }));
    assert!(matches!(CompatPacket::parse(&packets[3]).unwrap(), CompatPacket::Trailer { .. }));
}

fn leader(frame_id: u32, timestamp: u64, width: u32, height: u32) -> CompatPacket {
    CompatPacket::Leader {
        frame_id,
        packet_id: 0,
        timestamp,
        payload_type: PayloadType::Image,
        pixel_format: PixelFormat::Mono8,
        width,
        height,
    }
}

fn payload(frame_id: u32, packet_id: u32, data: Vec<u8>) -> CompatPacket {
    CompatPacket::Payload { frame_id, packet_id, data }
}

fn trailer(frame_id: u32, packet_id: u32) -> CompatPacket {
    CompatPacket::Trailer { frame_id, packet_id }
}

#[test]
fn assembles_a_complete_frame() {
    let mut stats = StreamStats::default();
    let mut assembler = FrameAssembler::new(nanos(Duration::from_secs(1)));
    let now = 0u64;

    assert!(assembler.ingest(leader(7, 10, 2, 2), now, &mut stats).unwrap().is_none());
    assert!(assembler
        .ingest(payload(7, 1, vec![1, 2, 3, 4]), now, &mut stats)
        .unwrap()
        .is_none());
    let event = assembler.ingest(trailer(7, 2), now, &mut stats).unwrap().unwrap();

    match event {
        FrameEvent::Complete(frame) => assert_eq!(frame.data, vec![1, 2, 3, 4]),
        other => panic!("unexpected event {other:?}"),
    }
}

#[test]
fn assembles_frame_with_reordered_payloads_and_early_trailer() {
    let mut stats = StreamStats::default();
    let mut assembler = FrameAssembler::new(nanos(Duration::from_secs(1)));
    let now = 0u64;

    assembler.ingest(leader(9, 99, 6, 1), now, &mut stats).unwrap();
    assert!(assembler.ingest(payload(9, 2, vec![3, 4]), now, &mut stats).unwrap().is_none());
    assert!(assembler.ingest(trailer(9, 4), now, &mut stats).unwrap().is_none());
    assert!(assembler.ingest(payload(9, 1, vec![1, 2]), now, &mut stats).unwrap().is_none());
    let event = assembler.ingest(payload(9, 3, vec![5, 6]), now, &mut stats).unwrap().unwrap();

    match event {
        FrameEvent::Complete(frame) => assert_eq!(frame.data, vec![1, 2, 3, 4, 5, 6]),
        other => panic!("unexpected event {other:?}"),
    }
}

#[test]
fn keeps_missing_payload_gap_open_until_timeout() {
    let mut stats = StreamStats::default();
    let mut assembler = FrameAssembler::new(nanos(Duration::from_millis(10)));
    let now = 0u64;

    assembler.ingest(leader(11, 0, 4, 1), now, &mut stats).unwrap();
    assert!(assembler.ingest(payload(11, 2, vec![3, 4]), now, &mut stats).unwrap().is_none());
    assert!(assembler.ingest(trailer(11, 3), now, &mut stats).unwrap().is_none());

    let drops = assembler.reap_timeouts(now + nanos(Duration::from_millis(20)), &mut stats);
    assert_eq!(
        drops,
        vec![FrameEvent::Dropped {
            frame_id: 11,
            reason: FrameDropReason::Timeout,
        }]
    );
}

#[test]
fn drops_frame_when_buffered_reordered_payloads_exceed_remaining_capacity() {
    let mut stats = StreamStats::default();
    let mut assembler = FrameAssembler::new(nanos(Duration::from_secs(1)));
    let now = 0u64;

    assembler.ingest(leader(12, 0, 4, 1), now, &mut stats).unwrap();
    assert!(assembler
        .ingest(payload(12, 2, vec![1, 2, 3]), now, &mut stats)
        .unwrap()
        .is_none());
    let event = assembler.ingest(payload(12, 3, vec![4, 5]), now, &mut stats).unwrap().unwrap();

    assert_eq!(
        event,
        FrameEvent::Dropped {
            frame_id: 12,
            reason: FrameDropReason::PayloadOverflow,
        }
    );
}

#[test]
fn ignores_zero_length_payload_without_advancing_frame() {
    let mut stats = StreamStats::default();
    let mut assembler = FrameAssembler::new(nanos(Duration::from_secs(1)));
    let now = 0u64;

    assembler.ingest(leader(14, 0, 2, 1), now, &mut stats).unwrap();
    assert!(assembler.ingest(payload(14, 1, vec![]), now, &mut stats).unwrap().is_none());
    assert!(assembler.ingest(trailer(14, 2), now, &mut stats).unwrap().is_none());
    let event = assembler.ingest(payload(14, 1, vec![9, 8]), now, &mut stats).unwrap().unwrap();

    match event {
        FrameEvent::Complete(frame) => assert_eq!(frame.data, vec![9, 8]),
        other => panic!("unexpected event {other:?}"),
    }
}

#[test]
fn drops_short_frame_when_trailer_closes_packet_range() {
    let mut stats = StreamStats::default();
    let mut assembler = FrameAssembler::new(nanos(Duration::from_secs(1)));
    let now = 0u64;

    assembler.ingest(leader(13, 0, 4, 1), now, &mut stats).unwrap();
    assert!(assembler.ingest(payload(13, 1, vec![1, 2]), now, &mut stats).unwrap().is_none());
    let event = assembler.ingest(trailer(13, 2), now, &mut stats).unwrap().unwrap();

    assert_eq!(
        event,
        FrameEvent::Dropped {
            frame_id: 13,
            reason: FrameDropReason::ShortFrame,
        }
    );
}

#[test]
fn duplicate_leader_restarts_frame_assembly() {
    let mut stats = StreamStats::default();
    let mut assembler = FrameAssembler::new(nanos(Duration::from_secs(1)));
    let now = 0u64;

    assembler.ingest(leader(17, 1, 4, 1), now, &mut stats).unwrap();
    assembler.ingest(payload(17, 1, vec![1, 2]), now, &mut stats).unwrap();
    let event = assembler.ingest(leader(17, 2, 4, 1), now, &mut stats).unwrap().unwrap();

    assert_eq!(
        event,
        FrameEvent::Dropped {
            frame_id: 17,
            reason: FrameDropReason::DuplicateLeader,
        }
    );

    assert!(assembler
        .ingest(payload(17, 1, vec![9, 8, 7, 6]), now, &mut stats)
        .unwrap()
        .is_none());
    let event = assembler.ingest(trailer(17, 2), now, &mut stats).unwrap().unwrap();

    match event {
        FrameEvent::Complete(frame) => assert_eq!(frame.data, vec![9, 8, 7, 6]),
        other => panic!("unexpected event {other:?}"),
    }
}

#[test]
fn packetized_frame_reassembles_through_parse_and_ingest() {
    let data: Vec<u8> = (0..120u32).map(|i| (i * 7 % 251) as u8).collect();
    let frame = VideoFrame {
        frame_id: 31,
        timestamp: 4242,
        width: 10,
        height: 4,
        pixel_format: PixelFormat::Rgb8,
        payload_type: PayloadType::Image,
        data: data.clone(),
    };
    let packets = CompatPacketizer::new(64).unwrap().packetize(&frame).unwrap();
    // 120 bytes in chunks of 44: a leader, three payloads, a trailer.
    assert_eq!(packets.len(), 5);

    let mut stats = StreamStats::default();
    let mut assembler = FrameAssembler::new(nanos(Duration::from_secs(1)));
    let mut events = Vec::new();
    for bytes in &packets {
        let packet = CompatPacket::parse(bytes).unwrap();
        events.push(assembler.ingest(packet, 5, &mut stats).unwrap());
    }
    assert!(events[..4].iter().all(|event| event.is_none()));
    match events[4].take() {
        Some(FrameEvent::Complete(done)) => {
            assert_eq!(done.frame_id, 31);
            assert_eq!(done.timestamp, 4242);
            assert_eq!((done.width, done.height), (10, 4));
            assert_eq!(done.pixel_format, PixelFormat::Rgb8);
            assert_eq!(done.data, data);
        }
        other => panic!("unexpected event {other:?}"),
    }
}

#[test]
fn frame_with_early_trailer_completes_at_last_payload() {
    let data: Vec<u8> = (0..90u32).map(|i| (i * 13 % 256) as u8).collect();
    let frame = VideoFrame {
        frame_id: 5,
        timestamp: 77,
        width: 9,
        height: 10,
        pixel_format: PixelFormat::Mono8,
        payload_type: PayloadType::Image,
        data: data.clone(),
    };
    let packets = CompatPacketizer::new(50).unwrap().packetize(&frame).unwrap();
    // 90 bytes in chunks of 30: a leader, three payloads, a trailer.
    assert_eq!(packets.len(), 5);
    let order = [0usize, 1, 4, 2, 3];

    let mut stats = StreamStats::default();
    let mut assembler = FrameAssembler::new(nanos(Duration::from_secs(1)));
    let mut events = Vec::new();
    for index in order {
        let packet = CompatPacket::parse(&packets[index]).unwrap();
        events.push(assembler.ingest(packet, 1, &mut stats).unwrap());
    }
    assert!(events[..4].iter().all(|event| event.is_none()));
    match events[4].take() {
        Some(FrameEvent::Complete(done)) => {
            assert_eq!(done.frame_id, 5);
            assert_eq!(done.data, data);
        }
        other => panic!("unexpected event {other:?}"),
    }
}

#[test]
fn packetized_frame_with_shuffled_payloads_reassembles() {
    let data: Vec<u8> = (0..100u32).map(|i| (255 - i) as u8).collect();
    let frame = VideoFrame {
        frame_id: 8,
        timestamp: 3,
        width: 10,
        height: 5,
        pixel_format: PixelFormat::Mono16,
        payload_type: PayloadType::Image,
        data: data.clone(),
    };
    let packets = CompatPacketizer::new(45).unwrap().packetize(&frame).unwrap();
    // 100 bytes in chunks of 25: a leader, four payloads, a trailer.
    assert_eq!(packets.len(), 6);
    let order = [0usize, 4, 2, 5, 1, 3];

    let mut stats = StreamStats::default();
    let mut assembler = FrameAssembler::new(nanos(Duration::from_secs(1)));
    let mut events = Vec::new();
    for index in order {
        let packet = CompatPacket::parse(&packets[index]).unwrap();
        events.push(assembler.ingest(packet, 2, &mut stats).unwrap());
    }
    assert!(events[..5].iter().all(|event| event.is_none()));
    match events[5].take() {
        Some(FrameEvent::Complete(done)) => assert_eq!(done.data, data),
        other => panic!("unexpected event {other:?}"),
    }
}

#[test]
fn packet_and_assembly_errors_read_as_text() {
    assert_eq!(
        CompatPacket::parse(&[0u8; 4]).unwrap_err().message(),
        "packet too small: got 4 bytes, expected at least 20"
    );
    assert_eq!(
        CompatPacketizer::new(12).unwrap_err().message(),
        "invalid MTU 12, needs to be >= 44"
    );
    assert_eq!(CompatPacketError::UnknownPacketType(9).message(), "unknown compatibility packet type 9");
    assert_eq!(
        CompatPacketError::UnsupportedPayloadType(7).message(),
        "unsupported compatibility payload type 7"
    );
    assert_eq!(
        AssembleError::UnsupportedPayload(PayloadType::Image).message(),
        "unsupported payload type Image"
    );
}
