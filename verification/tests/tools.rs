use std::collections::BTreeMap;

use eevideo::backend::{
    applied_configuration, check_packet_delay, device_capabilities, device_yaml_file_name,
    discovered_devices, parse_device_authority, sanitize_filename, stream_configuration_writes,
    stream_format_from_fields, stream_start_write, stream_stop_write, CoapConnectionState,
    CoapRegisterBackend, CoapRegisterBackendConfig, DiscoveryReply, StartStep, StopStep,
    StreamRegisterWrite,
};
use eevideo::cli::{
    build_stream_request, format_applied_stream, format_description, format_discovered_devices,
    format_register_value, format_running_stream, normalize_help_flag_punctuation, parse_u32_arg,
    register_selector, StreamArgs,
};
use eevideo::assembler::{AssembleError, FrameEvent};
use eevideo::compat_profile::StreamProfileId;
use eevideo::stats::StreamStats;
use eevideo::compat_stream::{PayloadType, VideoFrame};
use eevideo::control::{
    ControlErrorKind, ControlTarget, ControlTransportKind, RequestedStreamConfiguration,
    RunningStream, StreamFormatDescriptor,
};
use eevideo::controller::{choose_discovered_target, device_description, explicit_target, DeviceSummary};
use eevideo::introspect::{decode_capabilities_word, IntrospectionWalk, RegisterRead};
use eevideo::pixel_format::{parse_pixel_format_arg, PixelFormat};
use eevideo::plugin::{
    buffer_pts, build_sink_stream_configuration, build_source_stream_configuration,
    frame_matches_expected_format, negotiate_format, parse_caps, parse_ipv4,
    parse_multicast_group, parse_multicast_iface, receiver_frame_verdict, render_frame, CapsDecision,
    CapsFields, FrameFormat, FrameVerdict, SinkSettings, SourceSettings, managed_expected_format,
    receiver_step, ReceiverAction, ReceiverInput, ReceiverState,
};
use eevideo::register_map::{RegisterSelector, RegisterValue};
use eevideo::string_map::StringMap;
use eevideo::viewer::{
    finalize_run_result, format_mode_overlay_text, format_source_stats, record_extension,
    empty_to_none, select_encoder, select_managed_transport_settings, suggested_record_path,
    AdvertisedStreamMode,
    EncoderAvailability,
    EncoderKind, ManagedTransportSettings, OperatorConsoleState, RecordingEncoder, RecordingForm,
    SourceStats,
};
use eevideo::yaml::{
    DeviceCapabilities, DeviceConfig, DeviceLocation, DeviceMemoryMap, DeviceRegisterValue,
    FeatureDefinition, FeatureFieldDefinition, FeaturePointerDefinition, FeatureRegisterDefinition,
};

#[test]
fn parses_decimal_and_hex_numbers() {
    assert_eq!(parse_u32_arg("123").unwrap(), 123);
    assert_eq!(parse_u32_arg("0x10").unwrap(), 16);
}

#[test]
fn number_parse_errors_name_the_problem() {
    assert_eq!(parse_u32_arg("").unwrap_err(), "cannot parse integer from empty string");
    assert_eq!(parse_u32_arg("12a").unwrap_err(), "invalid digit found in string");
    assert_eq!(parse_u32_arg("4294967296").unwrap_err(), "number too large to fit in target type");
    assert_eq!(parse_u32_arg("0XfF").unwrap(), 255);
}

#[test]
fn parses_pixel_formats() {
    assert_eq!(parse_pixel_format_arg("gray8").unwrap(), PixelFormat::Mono8);
    assert_eq!(parse_pixel_format_arg("UYVY").unwrap(), PixelFormat::Uyvy);
}

#[test]
fn normalizes_help_flags_with_trailing_commas() {
    let args = normalize_help_flag_punctuation(vec![
        "eevid".to_string(),
        "--help,".to_string(),
        "-h,".to_string(),
        "--other,".to_string(),
    ]);
    assert_eq!(args[1], "--help");
    assert_eq!(args[2], "-h");
    assert_eq!(args[3], "--other,");
}

#[test]
fn lib_normalizes_help_flags_with_trailing_commas() {
    let args = normalize_help_flag_punctuation(vec![
        "eefakedev".to_string(),
        "--help,".to_string(),
        "-h,".to_string(),
        "--other,".to_string(),
    ]);
    assert_eq!(args[1], "--help");
    assert_eq!(args[2], "-h");
    assert_eq!(args[3], "--other,");
}

fn applied(format: Option<StreamFormatDescriptor>) -> eevideo::control::AppliedStreamConfiguration {
    let request = request(format);
    applied_configuration("coap://127.0.0.1:5683", "stream0", &request, format)
}

fn request(format: Option<StreamFormatDescriptor>) -> RequestedStreamConfiguration {
    RequestedStreamConfiguration {
        stream_name: "stream0".to_string(),
        profile: StreamProfileId::CompatibilityV1,
        destination_host: "239.1.2.3".to_string(),
        port: 5000,
        bind_address: "0.0.0.0".to_string(),
        packet_delay_ns: 321,
        max_packet_size: 1400,
        format,
    }
}

fn mono8(width: u32, height: u32) -> StreamFormatDescriptor {
    StreamFormatDescriptor { payload_type: PayloadType::Image, pixel_format: PixelFormat::Mono8, width, height }
}

#[test]
fn formats_command_output() {
    assert_eq!(format_register_value(&RegisterValue::U32(16)), "0x00000010 (16)");
    assert_eq!(format_register_value(&RegisterValue::String("cam".to_string())), "cam");
    let running = RunningStream { stream_id: "x#stream0".to_string(), profile: StreamProfileId::CompatibilityV1, running: true };
    assert_eq!(format_running_stream(&running), "running stream-id=x#stream0 profile=compatibility-v1 active=true");
    let text = format_applied_stream(&applied(Some(mono8(320, 240))));
    assert_eq!(
        text,
        "stream-id: coap://127.0.0.1:5683#stream0\nstream-name: stream0\nprofile: compatibility-v1\ndestination: 239.1.2.3:5000\nbind-address: 0.0.0.0\npacket-delay-ns: 321\nmax-packet-size: 1400\nformat: GRAY8 320x240"
    );
    assert!(!format_applied_stream(&applied(None)).contains("format:"));
}

fn summary(uri: &str, address: &str) -> DeviceSummary {
    DeviceSummary {
        target: explicit_target(uri),
        interface_name: "eth0".to_string(),
        interface_address: "192.168.1.20".to_string(),
        device_address: address.to_string(),
    }
}

#[test]
fn discovery_output_and_target_choice() {
    assert_eq!(format_discovered_devices(&[]), "no devices found");
    let one = summary("coap://192.168.1.50:5683", "192.168.1.50");
    assert_eq!(
        format_discovered_devices(&[one.clone()]),
        "coap://192.168.1.50:5683 eth0 192.168.1.20 192.168.1.50"
    );
    assert_eq!(choose_discovered_target(&[one.clone()]).unwrap().device_uri, "coap://192.168.1.50:5683");
    assert_eq!(
        choose_discovered_target(&[]).unwrap_err(),
        "no devices found; pass --device-uri explicitly"
    );
    let two = summary("coap://192.168.1.51:5683", "192.168.1.51");
    assert_eq!(
        choose_discovered_target(&[one, two]).unwrap_err(),
        "multiple devices found; pass --device-uri explicitly: coap://192.168.1.50:5683 (192.168.1.50), coap://192.168.1.51:5683 (192.168.1.51)"
    );
}

fn stream_args(width: Option<u32>, height: Option<u32>, pixel_format: Option<PixelFormat>) -> StreamArgs {
    StreamArgs {
        stream_name: "stream0".to_string(),
        destination_host: "192.168.1.20".to_string(),
        port: 5000,
        bind_address: "0.0.0.0".to_string(),
        packet_delay_ns: 0,
        max_packet_size: 1200,
        width,
        height,
        pixel_format,
    }
}

#[test]
fn stream_request_needs_whole_format() {
    let request = build_stream_request(stream_args(Some(320), Some(240), Some(PixelFormat::Mono8))).unwrap();
    assert_eq!(request.format, Some(mono8(320, 240)));
    assert_eq!(build_stream_request(stream_args(None, None, None)).unwrap().format, None);
    assert_eq!(
        build_stream_request(stream_args(Some(320), None, None)).unwrap_err(),
        "width, height, and pixel-format must be provided together"
    );
    assert_eq!(register_selector(None, Some(0x18)).unwrap(), RegisterSelector::Address(0x18));
    assert_eq!(
        register_selector(Some("a".to_string()), Some(1)).unwrap_err(),
        "exactly one of --name or --address is required"
    );
}

fn register(addr: u32, access: &str, int_value: Option<u64>) -> DeviceRegisterValue {
    DeviceRegisterValue { addr, access: access.to_string(), int_value, str_value: None, fields: StringMap::new() }
}

fn device() -> DeviceConfig {
    let mut registers = StringMap::new();
    registers.insert("stream0_PixelFormat".to_string(), register(0x40024, "rw", Some(0x0210_001f)));
    registers.insert("stream1_PixelFormat".to_string(), register(0x40124, "rw", Some(1)));
    registers.insert("stream2_PixelFormat".to_string(), register(0x40224, "rw", Some(0x0108_0001)));
    registers.insert("stream0_Delay".to_string(), register(0x40004, "rw", Some(0)));
    DeviceConfig {
        location: DeviceLocation {
            interface_name: "eth0".to_string(),
            interface_address: "0.0.0.0".to_string(),
            device_address: "192.168.1.50".to_string(),
        },
        capabilities: DeviceCapabilities { mult_addr: true, ..DeviceCapabilities::default() },
        memory_map: DeviceMemoryMap::default(),
        registers,
    }
}

#[test]
fn capabilities_list_advertised_formats_once_in_order() {
    let capabilities = device_capabilities(&device());
    assert_eq!(capabilities.supported_profiles, vec![StreamProfileId::CompatibilityV1]);
    assert_eq!(capabilities.supported_pixel_formats, vec![PixelFormat::Mono8, PixelFormat::Uyvy]);
    assert!(capabilities.multicast_supported);
    assert!(capabilities.packet_pacing_supported);
    assert!(!capabilities.native_framing_supported);
}

#[test]
fn describe_output_lists_registers() {
    let capabilities = device_capabilities(&device());
    let description = device_description(explicit_target("coap://192.168.1.50:5683"), device(), capabilities);
    assert_eq!(
        description.streams,
        vec!["stream0".to_string(), "stream1".to_string(), "stream2".to_string()]
    );
    let text = format_description(&description);
    assert!(text.starts_with("device-uri: coap://192.168.1.50:5683\ndevice-address: 192.168.1.50\n"));
    assert!(text.contains("\nstreams: stream0, stream1, stream2\nprofiles: compatibility-v1\npixel-formats: GRAY8, UYVY\n"));
    assert!(text.ends_with("register stream2_PixelFormat addr=0x00040224 access=rw"));
}

#[test]
fn parses_device_uri_without_scheme() {
    assert_eq!(parse_device_authority("127.0.0.1").unwrap(), "127.0.0.1:5683");
    assert_eq!(parse_device_authority(" coap://10.0.0.2:6000/x ").unwrap(), "10.0.0.2:6000");
    assert_eq!(parse_device_authority("coap://[::1]").unwrap(), "[::1]");
    let error = parse_device_authority("  ").unwrap_err();
    assert_eq!(error.kind(), ControlErrorKind::Connection);
    assert_eq!(error.message(), "control target does not specify a device URI");
}

#[test]
fn device_file_names_are_sanitized() {
    assert_eq!(sanitize_filename("a.b:c-d_e"), "a_b_c-d_e");
    assert_eq!(device_yaml_file_name("192.168.1.50", 5683), "192_168_1_50_5683.yaml");
    let backend = CoapRegisterBackend::new(CoapRegisterBackendConfig::default());
    assert_eq!(backend.config().request_timeout_ms, 1000);
}

#[test]
fn stream_register_writes_follow_request() {
    assert_eq!(check_packet_delay(321).unwrap(), 321);
    let too_long = check_packet_delay(0x0100_0000).unwrap_err();
    assert_eq!(too_long.message(), "packet delay 16777216 exceeds the 24-bit stream delay field");
    let too_wide = check_packet_delay(1 << 32).unwrap_err();
    assert_eq!(too_wide.message(), "packet delay 4294967296ns exceeds the 32-bit EEVideo register range");
    let writes = stream_configuration_writes("stream0", &request(Some(mono8(320, 240))), 0xEF01_0203, 321);
    assert_eq!(writes.len(), 7);
    match &writes[1] {
        StreamRegisterWrite::Word { register, value } => {
            assert_eq!(register, "stream0_DestPort");
            assert_eq!(*value, 5000);
        }
        other => panic!("unexpected write {other:?}"),
    }
    match &writes[6] {
        StreamRegisterWrite::Fields { register, updates } => {
            assert_eq!(register, "stream0_PixelFormat");
            assert_eq!(updates[0].name, "bpp");
            assert_eq!(updates[0].value, 1);
        }
        other => panic!("unexpected write {other:?}"),
    }
    match stream_start_write("stream0", 1400) {
        StreamRegisterWrite::Fields { updates, .. } => {
            assert_eq!(updates[1].name, "enable");
            assert_eq!(updates[1].value, 1);
            assert_eq!(updates[2].value, 1400);
        }
        other => panic!("unexpected write {other:?}"),
    }
    match stream_stop_write("stream0") {
        StreamRegisterWrite::Fields { updates, .. } => assert_eq!(updates.len(), 1),
        other => panic!("unexpected write {other:?}"),
    }
}

#[test]
fn stream_format_reads_back_from_fields() {
    assert_eq!(stream_format_from_fields(0, 240, 1).unwrap(), None);
    assert_eq!(stream_format_from_fields(320, 240, 1).unwrap(), Some(mono8(320, 240)));
    let error = stream_format_from_fields(320, 240, 0x77).unwrap_err();
    assert_eq!(error.message(), "device reported unsupported pixel format value 0x00000077");
}

#[test]
fn start_requires_prior_configuration() {
    let state = CoapConnectionState::new();
    let error = state.start_step("coap://127.0.0.1#stream0").err().unwrap();
    assert_eq!(error.kind(), ControlErrorKind::InvalidConfiguration);
}

#[test]
fn connection_state_tracks_configure_start_stop() {
    let mut state = CoapConnectionState::new();
    let applied = applied(None);
    state.record_configured(applied, "stream0".to_string());
    let id = "coap://127.0.0.1:5683#stream0";
    let other = state.start_step("other").err().unwrap();
    assert_eq!(other.kind(), ControlErrorKind::AppliedValueMismatch);
    assert_eq!(
        other.message(),
        "start requested for stream other, but configured stream is coap://127.0.0.1:5683#stream0"
    );
    match state.start_step(id).unwrap() {
        StartStep::Enable { register_prefix, max_packet_size, .. } => {
            assert_eq!(register_prefix, "stream0");
            assert_eq!(max_packet_size, 1400);
        }
        other => panic!("unexpected step {other:?}"),
    }
    state.record_started(id);
    assert!(matches!(state.start_step(id).unwrap(), StartStep::AlreadyRunning(_)));
    assert!(matches!(state.stop_step(id).unwrap(), StopStep::Disable { .. }));
    state.record_stopped();
    assert!(matches!(state.stop_step(id).unwrap(), StopStep::Nothing));
    state.disconnect().unwrap();
    assert_eq!(state.ensure_connected().unwrap_err().kind(), ControlErrorKind::Disconnected);
}

#[test]
fn discovery_replies_become_devices() {
    let replies = vec![
        DiscoveryReply {
            interface_name: "eth0".to_string(),
            interface_address: "192.168.1.20".to_string(),
            device_address: "192.168.1.50".to_string(),
        },
        DiscoveryReply {
            interface_name: "eth0".to_string(),
            interface_address: "192.168.1.20".to_string(),
            device_address: "192.168.1.51".to_string(),
        },
    ];
    let all = discovered_devices(None, &replies);
    assert_eq!(all.len(), 2);
    assert_eq!(all[0].device_uri, "coap://192.168.1.50:5683");
    assert_eq!(all[0].transport_kind, ControlTransportKind::CoapRegister);
    let filtered = discovered_devices(Some("192.168.1.51"), &replies);
    assert_eq!(filtered.len(), 1);
    assert_eq!(filtered[0].device_address, "192.168.1.51");
}

fn stream_catalog() -> BTreeMap<u32, FeatureDefinition> {
    let mut fields = StringMap::new();
    fields.insert("maxPkt".to_string(), FeatureFieldDefinition { msb: 15, len: 16 });
    let mut catalog = BTreeMap::new();
    catalog.insert(
        0x10_3001,
        FeatureDefinition {
            name: "stream".to_string(),
            short_name: "stream".to_string(),
            pointers: vec![
                FeaturePointerDefinition {
                    index: 1,
                    name: "control".to_string(),
                    registers: vec![FeatureRegisterDefinition {
                        offset: 0,
                        name: "MaxPacketSize".to_string(),
                        access: Some("rw".to_string()),
                        fields,
                    }],
                },
                FeaturePointerDefinition {
                    index: 0,
                    name: "description".to_string(),
                    registers: vec![FeatureRegisterDefinition {
                        offset: 0,
                        name: "Description".to_string(),
                        access: Some("string".to_string()),
                        fields: StringMap::new(),
                    }],
                },
            ],
        },
    );
    catalog
}

#[test]
fn introspection_walks_the_feature_table() {
    let mut words = BTreeMap::new();
    words.insert(16u32, 0x1030_0102u32);
    words.insert(20, 0x0000_0100);
    words.insert(24, 0x0004_0000);
    words.insert(28, 0xFFF0_0103);
    words.insert(32, 0x0000_03FF);
    words.insert(36, 0x0004_0000);
    words.insert(40, 0x0004_FFFF);
    words.insert(0x0004_0000, 1200);
    let catalog = stream_catalog();
    let mut walk = IntrospectionWalk::start(DeviceLocation::default(), 0xE71D_8FFF).unwrap();
    while let Some(read) = walk.next_read() {
        match read {
            RegisterRead::Word(addr) => walk.accept_word(words[&addr], &catalog).unwrap(),
            RegisterRead::Text(addr) => {
                assert_eq!(addr, 0x100);
                walk.accept_text("EEVideo Stream 0".to_string());
            }
        }
    }
    let device = walk.finish();
    assert!(device.capabilities.mult_addr);
    assert_eq!(device.memory_map.last_static, 0x3FF);
    assert_eq!(device.memory_map.last_mutable, 0x4_FFFF);
    let max_packet = device.registers.get("stream0_MaxPacketSize").unwrap();
    assert_eq!(max_packet.int_value, Some(1200));
    assert_eq!(max_packet.addr, 0x4_0000);
    let description = device.registers.get("stream0_Description").unwrap();
    assert_eq!(description.str_value.as_deref(), Some("EEVideo Stream 0"));
}

#[test]
fn introspection_rejects_unknown_signature_and_feature() {
    let error = decode_capabilities_word(0x1234_0000).unwrap_err();
    assert_eq!(
        error.message(),
        "device capabilities register does not contain the EEVideo signature: 0x12340000"
    );
    let mut walk = IntrospectionWalk::start(DeviceLocation::default(), 0xE71D_0000).unwrap();
    let error = walk.accept_word(0x0000_4200, &stream_catalog()).unwrap_err();
    assert_eq!(error.message(), "device referenced unknown feature id 0x000042");
}

#[test]
fn parses_supported_caps() {
    let caps = CapsFields {
        media_type: "video/x-raw".to_string(),
        format: Some("GRAY8".to_string()),
        width: Some(320),
        height: Some(240),
        framerate: Some((0, 1)),
    };

    let format = parse_caps(Some(&caps)).unwrap();
    assert_eq!(format.width, 320);
    assert_eq!(format.height, 240);
}

#[test]
fn caps_round_trip_through_frame_format() {
    let format = FrameFormat { width: 64, height: 32, pixel_format: PixelFormat::BayerRg8 };
    assert_eq!(parse_caps(Some(&format.to_caps())).unwrap(), format);
    assert_eq!(format.payload_len().unwrap(), 64 * 32);
    assert_eq!(parse_caps(None).unwrap_err(), "caps did not contain a structure");
}

#[test]
fn accepts_empty_multicast_group() {
    assert_eq!(parse_multicast_group("").unwrap(), None);
}

#[test]
fn accepts_ipv4_multicast_group() {
    assert_eq!(parse_multicast_group("239.255.10.10").unwrap(), Some(u32::from_be_bytes([239, 255, 10, 10])));
}

#[test]
fn rejects_non_multicast_group() {
    assert!(parse_multicast_group("127.0.0.1").is_err());
}

#[test]
fn accepts_empty_multicast_iface() {
    assert_eq!(parse_multicast_iface("").unwrap(), None);
}

#[test]
fn accepts_ipv4_multicast_iface() {
    assert_eq!(parse_multicast_iface("192.168.1.20").unwrap(), Some(u32::from_be_bytes([192, 168, 1, 20])));
}

#[test]
fn ipv4_parser_follows_dotted_quad_rules() {
    assert_eq!(parse_ipv4("0.0.0.0"), Some(0));
    assert_eq!(parse_ipv4("255.255.255.255"), Some(u32::MAX));
    assert_eq!(parse_ipv4("1.2.3"), None);
    assert_eq!(parse_ipv4("01.2.3.4"), None);
    assert_eq!(parse_ipv4("256.1.1.1"), None);
    assert_eq!(parse_ipv4("+1.2.3.4"), None);
    assert_eq!(
        parse_multicast_group("not-an-ip").unwrap_err(),
        "invalid multicast group not-an-ip: invalid IPv4 address syntax"
    );
    assert_eq!(
        parse_multicast_group("10.0.0.1").unwrap_err(),
        "multicast-group must be an IPv4 multicast address, got 10.0.0.1"
    );
}

#[test]
fn builds_managed_control_request_from_bound_address() {
    let settings = SourceSettings { address: "127.0.0.1".to_string(), ..SourceSettings::default() };

    let request = build_source_stream_configuration(&settings, Some("127.0.0.1"), 5000, "stream0").unwrap();

    assert_eq!(request.stream_name, "stream0");
    assert_eq!(request.profile, StreamProfileId::CompatibilityV1);
    assert_eq!(request.destination_host, "127.0.0.1");
    assert_eq!(request.port, 5000);
}

#[test]
fn managed_source_needs_a_concrete_address() {
    let error = build_source_stream_configuration(&SourceSettings::default(), None, 5000, "stream0").unwrap_err();
    assert_eq!(error, "managed control cannot advertise an unspecified destination address");
    let blank = SourceSettings { address: " ".to_string(), ..SourceSettings::default() };
    assert_eq!(
        build_source_stream_configuration(&blank, None, 5000, "stream0").unwrap_err(),
        "managed control requires a concrete local receive address"
    );
}

fn frame(width: u32, height: u32, pixel_format: PixelFormat) -> VideoFrame {
    VideoFrame {
        frame_id: 1,
        timestamp: 0,
        width,
        height,
        pixel_format,
        payload_type: PayloadType::Image,
        data: vec![0; (width * height) as usize],
    }
}

#[test]
fn detects_managed_control_format_mismatches() {
    let frame = frame(64, 32, PixelFormat::Mono8);
    let expected = StreamFormatDescriptor {
        payload_type: PayloadType::Image,
        pixel_format: PixelFormat::Mono16,
        width: 64,
        height: 32,
    };

    assert!(!frame_matches_expected_format(&frame, &expected));
}

#[test]
fn receiver_keeps_first_format() {
    let first = frame(64, 32, PixelFormat::Mono8);
    let format = FrameFormat::from_frame(&first);
    assert_eq!(receiver_frame_verdict(None, None, &first), FrameVerdict::Deliver { format });
    assert_eq!(
        receiver_frame_verdict(None, Some(format), &frame(32, 32, PixelFormat::Mono8)),
        FrameVerdict::RejectFormatChange
    );
    assert_eq!(
        receiver_frame_verdict(Some(mono8(32, 32)), None, &first),
        FrameVerdict::RejectManagedMismatch
    );
    assert_eq!(negotiate_format(None, format), CapsDecision::Adopt);
    assert_eq!(negotiate_format(Some(format), format), CapsDecision::Keep);
    assert_eq!(buffer_pts(10, 2), 2_000_010);
    assert_eq!(buffer_pts(u64::MAX, 1), u64::MAX);
}

#[test]
fn sink_request_names_destination() {
    let request = build_sink_stream_configuration(&SinkSettings::default(), None);
    assert_eq!(request.stream_name, "eevideo-compat://127.0.0.1:5000");
    assert_eq!(request.max_packet_size, 1200);
}

fn stats(timeout_drops: u64, parse_failures: u64, expected_format_mismatches: u64) -> SourceStats {
    SourceStats {
        frames_received: 12,
        frames_dropped: 3,
        packet_anomalies: 7,
        timeout_drops,
        payload_overflow_drops: 0,
        short_frame_drops: 0,
        duplicate_leader_drops: 0,
        payload_before_leader_drops: 0,
        trailer_before_leader_drops: 0,
        packet_after_trailer_drops: 0,
        parse_failures,
        expected_format_mismatches,
        midstream_format_changes: 0,
    }
}

#[test]
fn formats_source_stats_as_a_single_line() {
    assert_eq!(format_source_stats(stats(0, 0, 0)), "frames-received=12 frames-dropped=3 packet-anomalies=7");
}

#[test]
fn formats_packet_anomaly_breakdown_when_present() {
    assert_eq!(
        format_source_stats(stats(2, 4, 1)),
        "frames-received=12 frames-dropped=3 packet-anomalies=7 anomaly-breakdown=[timeout-drops=2,parse-failures=4,expected-format-mismatches=1]"
    );
}

#[test]
fn finalize_run_result_keeps_primary_error_and_stop_error() {
    let stats = SourceStats { frames_received: 4, frames_dropped: 2, packet_anomalies: 1, ..SourceStats::default() };
    let err = finalize_run_result(
        Err("pipeline error".to_string()),
        Err("failed to stop pipeline".to_string()),
        stats,
    )
    .unwrap_err();

    assert!(err.contains("pipeline error"));
    assert!(err.contains("additionally failed to stop pipeline"));
    assert!(err.contains("frames-received=4"));
    assert!(finalize_run_result(Ok(()), Ok(()), stats).is_ok());
}

#[test]
fn selects_stable_managed_transport_defaults() {
    assert_eq!(
        select_managed_transport_settings(None, None),
        ManagedTransportSettings { max_packet_size: 1400, packet_delay_ns: 0 }
    );
}

#[test]
fn suggested_record_extensions_match_encoder_kind() {
    assert_eq!(
        std::path::Path::new(&suggested_record_path(EncoderKind::Av1, "out"))
            .extension()
            .and_then(|extension| extension.to_str()),
        Some("mkv")
    );
    assert_eq!(
        std::path::Path::new(&suggested_record_path(EncoderKind::Vp9, "out"))
            .extension()
            .and_then(|extension| extension.to_str()),
        Some("webm")
    );
}

#[test]
fn record_extension_names_each_container() {
    assert_eq!(record_extension(EncoderKind::Av1), "mkv");
    assert_eq!(record_extension(EncoderKind::Vp9), "webm");
    assert_eq!(record_extension(EncoderKind::Theora), "ogv");
    assert_eq!(suggested_record_path(EncoderKind::Theora, "captures/run.raw"), "captures/run.ogv");
}

#[test]
fn encoder_selection_falls_back_in_order() {
    let none = EncoderAvailability { encoder: false, mux: false };
    let both = EncoderAvailability { encoder: true, mux: true };
    assert_eq!(select_encoder(None, &[none, both, both]).unwrap().kind, EncoderKind::Vp9);
    assert_eq!(
        select_encoder(None, &[none, none, none]).unwrap_err(),
        "no supported open encoder/mux pair is available; tried rav1enc, vp9enc, theoraenc"
    );
    assert_eq!(
        select_encoder(Some(EncoderKind::Theora), &[both, both, EncoderAvailability { encoder: true, mux: false }])
            .unwrap_err(),
        "required GStreamer element oggmux is not available"
    );
}

#[test]
fn overlay_text_shows_mode() {
    let mode = AdvertisedStreamMode { pixel_format: PixelFormat::Uyvy, width: 1280, height: 720, fps: 30 };
    assert_eq!(format_mode_overlay_text(&mode), "Mode: UYVY 1280x720 @ 30 fps");
}

#[test]
fn operator_console_defaults_require_connection_before_start() {
    let state = OperatorConsoleState::default();

    assert_eq!(state.bind_address, "127.0.0.1");
    assert_eq!(state.stream_name, "stream0");
    assert_eq!(state.port, 5000);
    assert!(!state.can_start());
}

#[test]
fn operator_console_starts_with_manual_uri() {
    let mut state = OperatorConsoleState::default();
    state.manual_device_uri = "  coap://10.0.0.5:5683 ".to_string();
    assert!(state.can_start());
    let target: ControlTarget = state.target().unwrap();
    assert_eq!(target.device_uri, "coap://10.0.0.5:5683");
    let config = state.session_config().unwrap();
    assert_eq!(config.managed_transport.max_packet_size, 1400);
    state.locked = true;
    assert!(!state.can_start());
}

#[test]
fn recording_form_requires_path_when_enabled() {
    let mut form = RecordingForm::default();
    form.enabled = true;

    assert!(form.to_recording_config().is_err());

    form.path = "capture.webm".to_string();
    form.encoder = Some(RecordingEncoder::Vp9);
    assert_eq!(form.to_recording_config().unwrap().path, "capture.webm");
    assert_eq!(form.to_recording_config().unwrap().encoder, Some(RecordingEncoder::Vp9));
}

#[test]
fn console_backend_config_uses_trimmed_interface_and_timeout() {
    assert_eq!(empty_to_none("  "), None);
    assert_eq!(empty_to_none(" eth0 "), Some("eth0".to_string()));

    let mut state = OperatorConsoleState::default();
    state.iface = "  ".to_string();
    state.timeout_ms = 750;
    let config = state.backend_config();
    assert_eq!(config.interface_name, None);
    assert_eq!(config.discovery_timeout_ms, 750);
    assert_eq!(config.request_timeout_ms, 750);
    assert_eq!(config.yaml_root, None);
    assert_eq!(config.local_port, 0);

    state.iface = " wlan0".to_string();
    assert_eq!(state.backend_config().interface_name, Some("wlan0".to_string()));
}

#[test]
fn sink_renders_only_whole_frames_of_the_negotiated_format() {
    let format = FrameFormat { width: 4, height: 2, pixel_format: PixelFormat::Mono16 };
    let data: Vec<u8> = (0..16u8).collect();

    let frame = render_frame(format, &data, 7, Some(1_000)).unwrap();
    assert_eq!(frame.frame_id, 7);
    assert_eq!(frame.timestamp, 1_000);
    assert_eq!((frame.width, frame.height), (4, 2));
    assert_eq!(frame.pixel_format, PixelFormat::Mono16);
    assert_eq!(frame.payload_type, PayloadType::Image);
    assert_eq!(frame.data, data);

    assert_eq!(render_frame(format, &data, 8, None).unwrap().timestamp, 0);
    assert!(render_frame(format, &data[..15], 9, None).is_none());
    let empty = FrameFormat { width: 0, height: 2, pixel_format: PixelFormat::Mono8 };
    assert!(render_frame(empty, &[], 10, None).is_none());
}

fn complete(frame: VideoFrame) -> ReceiverInput {
    ReceiverInput::Assembled(Ok(Some(FrameEvent::Complete(frame))))
}

#[test]
fn receiver_stops_on_mid_stream_format_change() {
    let mut state = ReceiverState { expected: None, current: None, drop_incomplete: true };
    let mut stats = StreamStats::new();
    let first = frame(32, 32, PixelFormat::Mono8);
    assert_eq!(receiver_step(&mut state, &mut stats, complete(first.clone())), ReceiverAction::Deliver(first));
    assert_eq!(state.current, Some(FrameFormat { width: 32, height: 32, pixel_format: PixelFormat::Mono8 }));
    let second = frame(32, 32, PixelFormat::Mono8);
    assert_eq!(receiver_step(&mut state, &mut stats, complete(second.clone())), ReceiverAction::Deliver(second));
    assert_eq!((stats.dropped_frames(), stats.packet_anomalies()), (0, 0));
    let changed = frame(64, 32, PixelFormat::Mono8);
    assert_eq!(
        receiver_step(&mut state, &mut stats, complete(changed)),
        ReceiverAction::Fail("mid-stream format change rejected".to_string())
    );
    assert_eq!((stats.dropped_frames(), stats.packet_anomalies()), (1, 1));
    assert_eq!(state.current, Some(FrameFormat { width: 32, height: 32, pixel_format: PixelFormat::Mono8 }));
}

#[test]
fn receiver_stops_on_managed_format_mismatch() {
    let mut state = ReceiverState { expected: Some(mono8(64, 32)), current: None, drop_incomplete: false };
    let mut stats = StreamStats::new();
    assert_eq!(
        receiver_step(&mut state, &mut stats, complete(frame(32, 32, PixelFormat::Mono8))),
        ReceiverAction::Fail("managed-control format mismatch rejected".to_string())
    );
    assert_eq!((stats.dropped_frames(), stats.packet_anomalies()), (1, 1));
    assert_eq!(state.current, None);
    let matching = frame(64, 32, PixelFormat::Mono8);
    assert_eq!(receiver_step(&mut state, &mut stats, complete(matching.clone())), ReceiverAction::Deliver(matching));
}

#[test]
fn receiver_counts_bad_packets_and_reports_receive_failures() {
    let mut state = ReceiverState { expected: None, current: None, drop_incomplete: false };
    let mut stats = StreamStats::new();
    assert_eq!(receiver_step(&mut state, &mut stats, ReceiverInput::Unparsable), ReceiverAction::Skip);
    assert_eq!((stats.dropped_frames(), stats.packet_anomalies()), (0, 1));
    assert_eq!(
        receiver_step(&mut state, &mut stats, ReceiverInput::Assembled(Err(AssembleError::UnsupportedPayload(PayloadType::Image)))),
        ReceiverAction::Reap
    );
    assert_eq!((stats.dropped_frames(), stats.packet_anomalies()), (1, 2));
    assert_eq!(receiver_step(&mut state, &mut stats, ReceiverInput::Assembled(Ok(None))), ReceiverAction::Reap);
    assert_eq!(receiver_step(&mut state, &mut stats, ReceiverInput::TimedOut), ReceiverAction::Skip);
    state.drop_incomplete = true;
    assert_eq!(receiver_step(&mut state, &mut stats, ReceiverInput::TimedOut), ReceiverAction::Reap);
    assert_eq!(
        receiver_step(&mut state, &mut stats, ReceiverInput::ReceiveFailed("boom".to_string())),
        ReceiverAction::Fail("udp receive failed: boom".to_string())
    );
    assert_eq!((stats.dropped_frames(), stats.packet_anomalies()), (1, 2));
}

#[test]
fn managed_receiver_expects_the_applied_format() {
    assert_eq!(managed_expected_format(&applied(Some(mono8(320, 240)))), Ok(Some(mono8(320, 240))));
    assert_eq!(managed_expected_format(&applied(None)), Ok(None));
}

#[test]
fn suggested_record_path_replaces_the_stem_extension_of_plain_names() {
    assert_eq!(suggested_record_path(EncoderKind::Av1, "out"), "out.mkv");
    assert_eq!(suggested_record_path(EncoderKind::Vp9, "clip.raw"), "clip.webm");
    assert_eq!(suggested_record_path(EncoderKind::Av1, "a.b.c"), "a.b.mkv");
    assert_eq!(suggested_record_path(EncoderKind::Theora, ".hidden"), ".hidden.ogv");
    assert_eq!(suggested_record_path(EncoderKind::Vp9, "trailing."), "trailing.webm");
}
