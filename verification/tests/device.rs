use std::collections::BTreeMap;

use eevideo::capture::{plan_sender_step, SyntheticCaptureBackend, SyntheticCaptureConfig};
use eevideo::coap::{CoapMessage, CoapMessageType, CoapOption};
use eevideo::compat_stream::PayloadType;
use eevideo::daemon::{
    build_argus_pipeline_description, build_v4l2_pipeline_description, capture_format_from_caps,
    provider_from_options, reject_unexpected_option, require_cli_option, validate_config,
    validate_expected_format, validate_packed_buffer_len, validate_provider_capture_config,
    DeviceDaemonConfig, GstreamerProviderConfig, InputKind, ProviderConfig,
};
use eevideo::device::{
    apply_register_request, build_discovery_response, build_registers, build_strings,
    is_discovery_request,
    generate_pattern_data, normalize_write_value, stream_settings, validate_settings,
    CaptureConfiguration, DeviceSettings, RegisterEffect, StreamSettings, MAX_PACKET_ENABLE_BIT,
    STREAM_DEST_PORT_ADDR,
    STREAM_HEIGHT_ADDR, STREAM_MAX_PACKET_ADDR, STREAM_PIXEL_FORMAT_ADDR, STREAM_WIDTH_ADDR,
};
use eevideo::discovery::{build_discovery_request, parse_discovery_advertisement};
use eevideo::fakedev::{parse_pixel_format, FakeDeviceConfig};
use eevideo::pixel_format::PixelFormat;
use eevideo::plugin::CapsFields;
use eevideo::register::{
    build_register_request, check_register_response, decode_string_payload, decode_u32_payload,
    RegisterAccess, RegisterError,
    RegisterReadKind, RegisterWriteKind,
};

fn settings() -> DeviceSettings {
    DeviceSettings {
        stream_name: "stream0".to_string(),
        width: 1280,
        height: 720,
        pixel_format: PixelFormat::Uyvy,
        fps: 30,
        mtu: 1200,
        enforce_fixed_format: false,
    }
}

fn capture(width: u32, height: u32, pixel_format: PixelFormat, fps: u32) -> CaptureConfiguration {
    CaptureConfiguration { width, height, pixel_format, fps }
}

#[test]
fn register_map_uses_expected_defaults() {
    let registers = build_registers(&settings());
    assert_eq!(registers.get(&STREAM_MAX_PACKET_ADDR).copied(), Some(1200));
}

#[test]
fn discovery_payload_round_trips_with_current_parser() {
    let request = CoapMessage::new(
        CoapMessageType::NonConfirmable,
        1,
        0x2000,
        vec![0x01],
        vec![
            CoapOption::new(11, b".well-known".to_vec()),
            CoapOption::new(11, b"core".to_vec()),
            CoapOption::new(15, b"rt=eev.cam".to_vec()),
        ],
        Vec::<u8>::new(),
    );
    let response = build_discovery_response(&request, "stream0", "eth0");

    let advertisement = parse_discovery_advertisement(&response.payload).unwrap();
    assert_eq!(advertisement.links.len(), 1);
    assert_eq!(advertisement.links[0].target, "/stream0");
    assert_eq!(advertisement.links[0].attributes.get("rt").unwrap(), "eev.cam");
    assert_eq!(advertisement.links[0].attributes.get("if").unwrap(), "eth0");
}

#[test]
fn discovery_answer_echoes_request_identity() {
    let request = CoapMessage::new(
        CoapMessageType::NonConfirmable,
        1,
        0x1234,
        vec![0xAB, 0xCD],
        Vec::new(),
        Vec::<u8>::new(),
    );
    let response = build_discovery_response(&request, "cam", "lo");
    assert_eq!(response.message_id, 0x1234);
    assert_eq!(response.token, vec![0xAB, 0xCD]);
    assert_eq!(response.code, 69);
    assert_eq!(response.payload, br#"</cam>;rt="eev.cam";if="lo""#.to_vec());
}

#[test]
fn synthetic_capture_emits_expected_uyvy_payload_length() {
    let mut capture_backend = SyntheticCaptureBackend::new(SyntheticCaptureConfig::default());
    capture_backend.start_capture(capture(1280, 720, PixelFormat::Uyvy, 30), 0).unwrap();

    let frame = capture_backend.next_frame(0).unwrap();
    assert_eq!(frame.payload_type, PayloadType::Image);
    assert_eq!(frame.data.len(), 1280 * 720 * 2);
}

#[test]
fn synthetic_capture_numbers_frames_and_paces_them() {
    let mut source = SyntheticCaptureBackend::new(SyntheticCaptureConfig::default());
    assert_eq!(source.next_frame(5).unwrap_err(), "synthetic capture is not running");
    source.start_capture(capture(4, 2, PixelFormat::Mono8, 10), 1_000).unwrap();
    assert_eq!(source.frame_delay_nanos(1_000), 0);
    let first = source.next_frame(1_500).unwrap();
    assert_eq!(first.frame_id, 1);
    assert_eq!(first.timestamp, 500);
    assert_eq!(first.data.len(), 8);
    assert_eq!(source.frame_delay_nanos(1_500), 100_000_000);
    assert_eq!(source.frame_delay_nanos(1_500 + 40_000_000), 60_000_000);
    assert_eq!(source.frame_delay_nanos(1_500 + 200_000_000), 0);
    let second = source.next_frame(2_000).unwrap();
    assert_eq!(second.frame_id, 2);
    assert_eq!(
        source.current_format(),
        Some(capture(4, 2, PixelFormat::Mono8, 10))
    );
    source.stop_capture().unwrap();
    assert_eq!(source.current_format(), None);
}

#[test]
fn synthetic_capture_refuses_odd_uyvy_width_and_zero_size() {
    let mut source = SyntheticCaptureBackend::new(SyntheticCaptureConfig::default());
    assert_eq!(
        source.start_capture(capture(31, 16, PixelFormat::Uyvy, 30), 0).unwrap_err(),
        "UYVY synthetic capture width must be even"
    );
    assert_eq!(
        source.start_capture(capture(0, 16, PixelFormat::Mono8, 30), 0).unwrap_err(),
        "invalid synthetic capture dimensions"
    );
    let mut overridden = SyntheticCaptureBackend::new(SyntheticCaptureConfig {
        transmit_pixel_format: Some(PixelFormat::Mono16),
    });
    overridden.start_capture(capture(31, 16, PixelFormat::Uyvy, 30), 0).unwrap();
    assert_eq!(overridden.current_format().unwrap().pixel_format, PixelFormat::Mono16);
}

#[test]
fn pattern_data_matches_formula() {
    let data = generate_pattern_data(1, 2, 1, PixelFormat::Mono8).unwrap();
    assert_eq!(data, vec![20, 33]);
    let mono16 = generate_pattern_data(0, 1, 1, PixelFormat::Mono16).unwrap();
    assert_eq!(mono16, vec![0, 0]);
    assert_eq!(
        generate_pattern_data(0, 0, 1, PixelFormat::Mono8).unwrap_err(),
        "invalid test-pattern dimensions"
    );
}

#[test]
fn sender_restarts_capture_only_on_format_change() {
    let settings = StreamSettings {
        destination_ip: 0x7f00_0001,
        destination_port: 5000,
        mtu: 1200,
        packet_delay_ns: 0,
        capture: capture(32, 16, PixelFormat::Mono8, 30),
    };
    let first = plan_sender_step(None, None, &settings);
    assert!(!first.stop_capture);
    assert_eq!(first.start_capture, Some(settings.capture));
    assert_eq!(first.new_mtu, Some(1200));
    assert!(first.send_frame);
    let steady = plan_sender_step(Some(settings.capture), Some(1200), &settings);
    assert!(!steady.stop_capture);
    assert_eq!(steady.start_capture, None);
    assert_eq!(steady.new_mtu, None);
    let idle = plan_sender_step(
        Some(settings.capture),
        Some(1200),
        &StreamSettings { destination_port: 0, ..settings },
    );
    assert!(idle.stop_capture);
    assert!(!idle.send_frame);
}

fn write_request(address: u32, value: u32, message_id: u16) -> CoapMessage {
    let payload = value.to_be_bytes();
    let (bytes, _token) = build_register_request(
        address,
        Some(&payload),
        RegisterAccess::write(RegisterWriteKind::Write, 0),
        message_id,
        2,
    )
    .unwrap();
    CoapMessage::decode(&bytes).unwrap()
}

fn read_request(address: u32, message_id: u16) -> CoapMessage {
    let (bytes, _token) = build_register_request(
        address,
        None,
        RegisterAccess::read(RegisterReadKind::Register, 0),
        message_id,
        2,
    )
    .unwrap();
    CoapMessage::decode(&bytes).unwrap()
}

#[test]
fn register_read_returns_last_write() {
    let device_settings = settings();
    let mut registers = build_registers(&device_settings);
    let strings = build_strings("stream0");
    let (ack, effect) = apply_register_request(
        &device_settings,
        &mut registers,
        &strings,
        &write_request(STREAM_WIDTH_ADDR, 640, 7),
    )
    .unwrap();
    assert_eq!(ack.code, 68);
    assert_eq!(ack.message_id, 7);
    assert_eq!(effect, RegisterEffect::SettingsChanged);
    let (answer, effect) = apply_register_request(
        &device_settings,
        &mut registers,
        &strings,
        &read_request(STREAM_WIDTH_ADDR, 8),
    )
    .unwrap();
    assert_eq!(answer.code, 69);
    assert_eq!(effect, RegisterEffect::Nothing);
    assert_eq!(decode_u32_payload(&answer.payload).unwrap(), 640);
}

#[test]
fn fixed_format_runtime_rejects_mismatched_format_writes() {
    let device_settings = DeviceSettings {
        width: 320,
        height: 240,
        pixel_format: PixelFormat::Mono8,
        enforce_fixed_format: true,
        ..settings()
    };
    let mut registers = build_registers(&device_settings);
    let strings = build_strings("stream0");
    apply_register_request(&device_settings, &mut registers, &strings, &write_request(STREAM_WIDTH_ADDR, 640, 1)).unwrap();
    apply_register_request(&device_settings, &mut registers, &strings, &write_request(STREAM_HEIGHT_ADDR, 480, 2)).unwrap();
    apply_register_request(
        &device_settings,
        &mut registers,
        &strings,
        &write_request(STREAM_PIXEL_FORMAT_ADDR, PixelFormat::Rgb8.pfnc() & 0xffff, 3),
    )
    .unwrap();

    assert_eq!(registers.get(&STREAM_WIDTH_ADDR).copied(), Some(320));
    assert_eq!(registers.get(&STREAM_HEIGHT_ADDR).copied(), Some(240));
    assert_eq!(
        registers.get(&STREAM_PIXEL_FORMAT_ADDR).copied(),
        Some(PixelFormat::Mono8.pfnc() & 0xffff)
    );
}

#[test]
fn enable_bit_write_starts_and_stops_stream() {
    let device_settings = settings();
    let mut registers = build_registers(&device_settings);
    let strings = build_strings("stream0");
    let (_, started) = apply_register_request(
        &device_settings,
        &mut registers,
        &strings,
        &write_request(STREAM_MAX_PACKET_ADDR, MAX_PACKET_ENABLE_BIT | 1200, 1),
    )
    .unwrap();
    assert_eq!(started, RegisterEffect::StreamStarted);
    let active = stream_settings(&registers, &device_settings).unwrap();
    assert_eq!(active.mtu, 1200);
    assert_eq!(active.capture, capture(1280, 720, PixelFormat::Uyvy, 30));
    let (_, stopped) = apply_register_request(
        &device_settings,
        &mut registers,
        &strings,
        &write_request(STREAM_MAX_PACKET_ADDR, 1200, 2),
    )
    .unwrap();
    assert_eq!(stopped, RegisterEffect::StreamStopped);
    assert!(stream_settings(&registers, &device_settings).is_none());
}

#[test]
fn normalize_write_keeps_fixed_format() {
    let fixed = DeviceSettings { enforce_fixed_format: true, ..settings() };
    assert_eq!(normalize_write_value(&fixed, STREAM_WIDTH_ADDR, 1280, 640), 1280);
    assert_eq!(normalize_write_value(&fixed, STREAM_WIDTH_ADDR, 1280, 1280), 1280);
    assert_eq!(normalize_write_value(&settings(), STREAM_WIDTH_ADDR, 1280, 640), 640);
}

#[test]
fn device_settings_validation_reports_first_problem() {
    assert!(validate_settings(&settings()).is_ok());
    let blank = DeviceSettings { stream_name: "  ".to_string(), ..settings() };
    assert_eq!(validate_settings(&blank).unwrap_err(), "stream name must not be empty");
    let zero = DeviceSettings { fps: 0, ..settings() };
    assert_eq!(validate_settings(&zero).unwrap_err(), "fps must be greater than zero");
}

fn daemon(width: u32, height: u32, pixel_format: PixelFormat, provider: ProviderConfig) -> DeviceDaemonConfig {
    DeviceDaemonConfig { width, height, pixel_format, provider, ..DeviceDaemonConfig::default() }
}

#[test]
fn argus_pipeline_description_uses_expected_elements() {
    let description = build_argus_pipeline_description(
        2,
        &daemon(1280, 720, PixelFormat::Uyvy, ProviderConfig::Argus { sensor_id: 2 })
            .capture_configuration(),
    );

    assert!(description.contains("nvarguscamerasrc sensor-id=2"));
    assert!(description.contains("video/x-raw(memory:NVMM),width=1280,height=720,framerate=30/1"));
    assert!(description.contains("nvvidconv"));
    assert!(description.contains("video/x-raw,format=UYVY,width=1280,height=720"));
    assert!(description.contains("appsink name=framesink"));
}

#[test]
fn v4l2_pipeline_description_requests_configured_caps() {
    let mut config = daemon(
        640,
        480,
        PixelFormat::Mono16,
        ProviderConfig::V4l2 { device: "/dev/video0".to_string() },
    );
    config.fps = 60;
    let description = build_v4l2_pipeline_description("/dev/video0", &config.capture_configuration());

    assert!(description.contains("v4l2src device=/dev/video0"));
    assert!(description.contains("video/x-raw,format=GRAY16_LE,width=640,height=480,framerate=60/1"));
    assert!(description.contains("appsink name=framesink"));
}

#[test]
fn supports_non_uyvy_odd_width_formats() {
    assert!(validate_config(&daemon(31, 16, PixelFormat::Mono8, ProviderConfig::Synthetic)).is_ok());
}

#[test]
fn rejects_uyvy_odd_width() {
    let error = validate_config(&daemon(31, 16, PixelFormat::Uyvy, ProviderConfig::Synthetic)).unwrap_err();
    assert!(error.contains("UYVY device width must be even"));
}

#[test]
fn argus_rejects_non_uyvy_formats() {
    let error = validate_config(&daemon(32, 16, PixelFormat::Mono8, ProviderConfig::Argus { sensor_id: 0 }))
        .unwrap_err();
    assert!(error.contains("argus provider only supports UYVY output"));
}

#[test]
fn daemon_validation_reports_each_problem() {
    assert_eq!(
        validate_config(&daemon(0, 16, PixelFormat::Mono8, ProviderConfig::Synthetic)).unwrap_err(),
        "frame size must be non-zero"
    );
    let mut no_rate = daemon(32, 16, PixelFormat::Mono8, ProviderConfig::Synthetic);
    no_rate.fps = 0;
    assert_eq!(validate_config(&no_rate).unwrap_err(), "fps must be greater than zero");
    assert_eq!(
        validate_config(&daemon(32, 16, PixelFormat::Mono8, ProviderConfig::V4l2 { device: " ".to_string() }))
            .unwrap_err(),
        "v4l2 provider device path must not be empty"
    );
    assert_eq!(
        validate_config(&daemon(32, 16, PixelFormat::Mono8, ProviderConfig::Pipeline { description: "".to_string() }))
            .unwrap_err(),
        "pipeline provider description must not be empty"
    );
    let runtime = DeviceDaemonConfig::default().runtime_config();
    assert!(runtime.enforce_fixed_format);
}

#[test]
fn cli_maps_provider_specific_options() {
    let provider = provider_from_options(InputKind::V4l2, None, Some("/dev/video0".to_string()), None).unwrap();
    assert_eq!(provider, ProviderConfig::V4l2 { device: "/dev/video0".to_string() });
}

#[test]
fn legacy_input_enum_still_parses_synthetic_and_argus() {
    assert_eq!(provider_from_options(InputKind::Synthetic, None, None, None).unwrap(), ProviderConfig::Synthetic);
    assert_eq!(
        provider_from_options(InputKind::Argus, None, None, None).unwrap(),
        ProviderConfig::Argus { sensor_id: 0 }
    );
}

#[test]
fn provider_options_reject_foreign_and_missing_values() {
    assert_eq!(
        provider_from_options(InputKind::Synthetic, Some(1), None, None).unwrap_err(),
        "--sensor-id is only valid for its matching provider"
    );
    assert_eq!(
        provider_from_options(InputKind::Pipeline, None, None, None).unwrap_err(),
        "--pipeline is required for the selected provider"
    );
    assert_eq!(
        provider_from_options(InputKind::V4l2, None, Some("  ".to_string()), None).unwrap_err(),
        "--device must not be empty"
    );
    assert!(reject_unexpected_option("device", Some("   ")).is_ok());
    assert_eq!(require_cli_option("pipeline", Some("a ! b".to_string())).unwrap(), "a ! b");
}

fn caps(media_type: &str, format: &str) -> CapsFields {
    CapsFields {
        media_type: media_type.to_string(),
        format: Some(format.to_string()),
        width: Some(32),
        height: Some(16),
        framerate: None,
    }
}

#[test]
fn caps_mapping_supports_requested_formats() {
    assert_eq!(capture_format_from_caps(Some(&caps("video/x-raw", "UYVY")), 30).unwrap().pixel_format, PixelFormat::Uyvy);
    assert_eq!(capture_format_from_caps(Some(&caps("video/x-raw", "GRAY8")), 30).unwrap().pixel_format, PixelFormat::Mono8);
    assert_eq!(
        capture_format_from_caps(Some(&caps("video/x-raw", "GRAY16_LE")), 30).unwrap().pixel_format,
        PixelFormat::Mono16
    );
    assert_eq!(
        capture_format_from_caps(Some(&caps("video/x-bayer", "bggr")), 30).unwrap().pixel_format,
        PixelFormat::BayerBg8
    );
}

#[test]
fn caps_without_fields_are_refused() {
    assert_eq!(capture_format_from_caps(None, 30).unwrap_err(), "caps did not include a structure");
    let mut negative = caps("video/x-raw", "GRAY8");
    negative.width = Some(-4);
    assert_eq!(
        capture_format_from_caps(Some(&negative), 30).unwrap_err(),
        "caps exposed invalid dimensions -4x16"
    );
    assert_eq!(
        capture_format_from_caps(Some(&caps("video/x-raw", "NV12")), 30).unwrap_err(),
        "unsupported caps video/x-raw with format NV12"
    );
}

#[test]
fn packed_buffer_validation_rejects_mismatches() {
    let error = validate_packed_buffer_len(&capture(32, 16, PixelFormat::Mono16, 30), 32 * 16).unwrap_err();

    assert!(error.contains("payload length mismatch"));
    assert_eq!(error, "payload length mismatch: expected 1024, got 512");
}

#[test]
fn gstreamer_sources_check_formats() {
    let argus = GstreamerProviderConfig::Argus { sensor_id: 0 };
    assert_eq!(
        validate_provider_capture_config(&argus, &capture(32, 16, PixelFormat::Mono8, 30)).unwrap_err(),
        "argus provider only supports UYVY output"
    );
    assert_eq!(
        validate_expected_format("v4l2", &capture(32, 16, PixelFormat::Mono8, 30), &capture(64, 16, PixelFormat::Uyvy, 30))
            .unwrap_err(),
        "v4l2 provider negotiated 64x16 Uyvy, expected 32x16 Mono8"
    );
}

#[test]
fn parses_supported_pixel_formats() {
    assert_eq!(parse_pixel_format("uyvy").unwrap(), PixelFormat::Uyvy);
    assert_eq!(parse_pixel_format("gray8").unwrap(), PixelFormat::Mono8);
}

#[test]
fn fake_device_config_checks_and_maps() {
    let config = FakeDeviceConfig::default();
    assert!(config.validate().is_ok());
    assert!(!config.runtime_config().enforce_fixed_format);
    let odd = FakeDeviceConfig { width: 31, ..FakeDeviceConfig::default() };
    assert_eq!(odd.validate().unwrap_err(), "UYVY test-pattern width must be even");
    let overridden = FakeDeviceConfig { width: 31, transmit_pixel_format: Some(PixelFormat::Mono8), ..FakeDeviceConfig::default() };
    assert!(overridden.validate().is_ok());
    assert_eq!(overridden.capture_config().transmit_pixel_format, Some(PixelFormat::Mono8));
    assert_eq!(parse_pixel_format("NV12").unwrap_err(), "unsupported pixel format NV12");
}

#[test]
fn build_registers_map_is_stable() {
    let registers: BTreeMap<u32, u32> = build_registers(&settings());
    assert_eq!(registers.get(&STREAM_WIDTH_ADDR).copied(), Some(1280));
}

#[test]
fn client_reads_back_its_write_over_the_wire() {
    let device_settings = settings();
    let mut registers = build_registers(&device_settings);
    let strings = build_strings("stream0");

    let (write_bytes, write_token) = build_register_request(
        STREAM_HEIGHT_ADDR,
        Some(&480u32.to_be_bytes()),
        RegisterAccess::write(RegisterWriteKind::Write, 1),
        0x2000,
        4,
    )
    .unwrap();
    let (ack, _) = apply_register_request(
        &device_settings,
        &mut registers,
        &strings,
        &CoapMessage::decode(&write_bytes).unwrap(),
    )
    .unwrap();
    let ack = CoapMessage::decode(&ack.encode().unwrap()).unwrap();
    assert_eq!(check_register_response(ack, 0x2000, &write_token).unwrap(), Vec::<u8>::new());

    let (read_bytes, read_token) = build_register_request(
        STREAM_HEIGHT_ADDR,
        None,
        RegisterAccess::read(RegisterReadKind::Register, 1),
        0x2001,
        4,
    )
    .unwrap();
    let (answer, _) = apply_register_request(
        &device_settings,
        &mut registers,
        &strings,
        &CoapMessage::decode(&read_bytes).unwrap(),
    )
    .unwrap();
    let answer = CoapMessage::decode(&answer.encode().unwrap()).unwrap();
    let payload = check_register_response(answer, 0x2001, &read_token).unwrap();
    assert_eq!(decode_u32_payload(&payload).unwrap(), 480);
}

#[test]
fn device_recognizes_the_host_discovery_request() {
    let bytes = build_discovery_request(&[0x01], 0x2000).unwrap();
    let request = CoapMessage::decode(&bytes).unwrap();
    assert!(is_discovery_request(&request));

    let answer = build_discovery_response(&request, "stream0", "eth0");
    let answer = CoapMessage::decode(&answer.encode().unwrap()).unwrap();
    let advertisement = parse_discovery_advertisement(&answer.payload).unwrap();
    assert_eq!(advertisement.links.len(), 1);
    assert_eq!(advertisement.links[0].target, "/stream0");
    assert_eq!(advertisement.links[0].attributes.get("rt").map(String::as_str), Some("eev.cam"));
    assert_eq!(advertisement.links[0].attributes.get("if").map(String::as_str), Some("eth0"));

    let mut not_discovery = request.clone();
    not_discovery.code = 3;
    assert!(!is_discovery_request(&not_discovery));
}

#[test]
fn string_payload_stops_at_the_first_zero_byte() {
    assert_eq!(decode_string_payload(b"stream0\0\0junk").unwrap(), "stream0");
    assert_eq!(decode_string_payload(b"caf\xc3\xa9").unwrap(), "caf\u{e9}");
    assert_eq!(decode_string_payload(b"").unwrap(), "");
    assert!(matches!(decode_string_payload(b"\xff\xfe\0"), Err(RegisterError::InvalidString(_))));
    assert_eq!(decode_u32_payload(&[0, 0, 1, 2, 9]).unwrap(), 258);
}

#[test]
fn device_settings_default_to_a_uyvy_720p_stream() {
    let settings = DeviceSettings::default();
    assert_eq!(settings.stream_name, "stream0");
    assert_eq!((settings.width, settings.height), (1280, 720));
    assert_eq!(settings.pixel_format, PixelFormat::Uyvy);
    assert_eq!((settings.fps, settings.mtu), (30, 1200));
    assert!(!settings.enforce_fixed_format);
    let registers = build_registers(&settings);
    assert_eq!(registers.get(&STREAM_DEST_PORT_ADDR), Some(&0));
}
