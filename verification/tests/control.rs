use std::sync::{Arc, Mutex};

use eevideo::coap::{
    CoapMessage, CoapMessageType, CoapOption, OPTION_EEV_BINARY_ADDRESS, OPTION_EEV_REG_ACCESS,
};
use eevideo::compat_profile::StreamProfileId;
use eevideo::compat_stream::PayloadType;
use eevideo::control::{
    AppliedStreamConfiguration, ControlCapabilities, ControlError, ControlErrorKind,
    ControlTarget, ControlTransportKind, DiscoveredDevice, RequestedStreamConfiguration,
    RunningStream, StreamFormatDescriptor,
};
use eevideo::discovery::{build_discovery_request, parse_discovery_advertisement};
use eevideo::pixel_format::PixelFormat;
use eevideo::register::{RegisterAccess, RegisterReadKind};
use eevideo::register_map::{
    extract_field, field_mask, resolve_stream_prefix, stream_prefixes, RegisterSelector,
};
use eevideo::session::{
    default_control_backend, ControlBackend, ControlConnection, ControlSession, NoopControlBackend,
};
use eevideo::string_map::StringMap;
use eevideo::yaml::{
    DeviceCapabilities, DeviceConfig, DeviceLocation, DeviceMemoryMap, DeviceRegisterValue,
    FeatureFieldDefinition,
};

#[test]
fn coap_round_trip_preserves_extended_options() {
    let message = CoapMessage::new(
        CoapMessageType::Confirmable,
        3,
        0x2000,
        vec![0x12, 0x34],
        vec![
            CoapOption::new(OPTION_EEV_REG_ACCESS, vec![0x22]),
            CoapOption::new(OPTION_EEV_BINARY_ADDRESS, vec![0, 0, 0x10, 0]),
        ],
        vec![0xDE, 0xAD, 0xBE, 0xEF],
    );

    let encoded = message.encode().unwrap();
    let decoded = CoapMessage::decode(&encoded).unwrap();

    assert_eq!(decoded, message);
}

#[test]
fn encode_rejects_descending_options() {
    let message = CoapMessage::new(
        CoapMessageType::Confirmable,
        1,
        1,
        Vec::<u8>::new(),
        vec![CoapOption::new(12, vec![]), CoapOption::new(11, vec![])],
        Vec::<u8>::new(),
    );

    assert!(message.encode().is_err());
}

#[test]
fn discovery_request_matches_upstream_bytes() {
    let bytes = build_discovery_request(&[0x01], 0x2000).unwrap();
    let mut expected = vec![0x51, 0x01, 0x20, 0x00, 0x01, 0xBB];
    expected.extend_from_slice(b".well-known");
    expected.push(0x04);
    expected.extend_from_slice(b"core");
    expected.push(0x4A);
    expected.extend_from_slice(b"rt=eev.cam");

    assert_eq!(bytes, expected);
}

#[test]
fn parses_link_format_payload() {
    let advertisement =
        parse_discovery_advertisement(br#"</stream>;rt="eev.cam";if="eth0""#).unwrap();
    assert_eq!(advertisement.links.len(), 1);
    assert_eq!(advertisement.links[0].target, "/stream");
    assert_eq!(advertisement.links[0].attributes.get("rt").unwrap(), "eev.cam");
    assert_eq!(advertisement.links[0].attributes.get("if").unwrap(), "eth0");
}

#[test]
fn register_access_option_matches_upstream_packing() {
    let access = RegisterAccess::read(RegisterReadKind::String, 1);
    assert_eq!(access.option_value().unwrap(), Some(0b1010_0001));
}

fn register(addr: u32, int_value: u64) -> DeviceRegisterValue {
    DeviceRegisterValue {
        addr,
        access: "rw".to_string(),
        int_value: Some(int_value),
        str_value: None,
        fields: StringMap::new(),
    }
}

fn device() -> DeviceConfig {
    let mut registers = StringMap::new();
    registers.insert("stream0_DestPort".to_string(), register(0x40014, 0));
    registers.insert("stream0_MaxPacketSize".to_string(), register(0x40000, 1200));
    DeviceConfig {
        location: DeviceLocation::default(),
        capabilities: DeviceCapabilities::default(),
        memory_map: DeviceMemoryMap::default(),
        registers,
    }
}

#[test]
fn stream_prefixes_collect_unique_names() {
    assert_eq!(stream_prefixes(&device()), vec!["stream0".to_string()]);
}

#[test]
fn resolve_stream_prefix_accepts_single_stream_devices() {
    assert_eq!(resolve_stream_prefix(&device(), "other").unwrap(), "stream0");
}

#[test]
fn field_mask_rejects_invalid_lengths() {
    let error = field_mask(&FeatureFieldDefinition { msb: 0, len: 2 }).unwrap_err();
    assert_eq!(error.kind(), ControlErrorKind::InvalidConfiguration);
}

#[test]
fn extract_field_uses_msb_and_len() {
    let value = extract_field(0b1011_0000, &FeatureFieldDefinition { msb: 7, len: 4 }).unwrap();
    assert_eq!(value, 0b1011);
}

#[test]
fn selector_address_helper_is_stable() {
    assert_eq!(RegisterSelector::address(0x10), RegisterSelector::Address(0x10));
}

#[derive(Default)]
struct RecordingBackend {
    events: Arc<Mutex<Vec<String>>>,
}

impl RecordingBackend {
    fn shared() -> (Arc<RecordingBackend>, Arc<Mutex<Vec<String>>>) {
        let backend = Self::default();
        let events = Arc::clone(&backend.events);
        (Arc::new(backend), events)
    }
}

struct RecordingConnection {
    events: Arc<Mutex<Vec<String>>>,
    applied: Option<AppliedStreamConfiguration>,
}

impl ControlConnection for RecordingConnection {
    fn describe(&self) -> Result<ControlCapabilities, ControlError> {
        self.events
            .lock()
            .expect("events lock poisoned")
            .push("describe".to_string());
        Ok(ControlCapabilities::default())
    }

    fn configure(
        &mut self,
        request: RequestedStreamConfiguration,
    ) -> Result<AppliedStreamConfiguration, ControlError> {
        self.events
            .lock()
            .expect("events lock poisoned")
            .push(format!("configure:{}", request.stream_name));
        let applied = AppliedStreamConfiguration {
            stream_id: request.stream_name.clone(),
            stream_name: request.stream_name,
            profile: request.profile,
            destination_host: request.destination_host,
            port: request.port,
            bind_address: request.bind_address,
            packet_delay_ns: request.packet_delay_ns,
            max_packet_size: request.max_packet_size,
            format: request.format,
            normalized: false,
        };
        self.applied = Some(applied.clone());
        Ok(applied)
    }

    fn start(&mut self, stream_id: &str) -> Result<RunningStream, ControlError> {
        self.events
            .lock()
            .expect("events lock poisoned")
            .push(format!("start:{stream_id}"));
        Ok(RunningStream {
            stream_id: stream_id.to_string(),
            profile: StreamProfileId::CompatibilityV1,
            running: true,
        })
    }

    fn stop(&mut self, stream_id: &str) -> Result<(), ControlError> {
        self.events
            .lock()
            .expect("events lock poisoned")
            .push(format!("stop:{stream_id}"));
        Ok(())
    }

    fn disconnect(&mut self) -> Result<(), ControlError> {
        self.events
            .lock()
            .expect("events lock poisoned")
            .push("disconnect".to_string());
        Ok(())
    }
}

impl ControlBackend for RecordingBackend {
    type Connection = RecordingConnection;

    fn discover(&self, target: &ControlTarget) -> Result<Vec<DiscoveredDevice>, ControlError> {
        self.events
            .lock()
            .expect("events lock poisoned")
            .push(format!("discover:{}", target.device_uri));
        Ok(Vec::new())
    }

    fn connect(&self, target: &ControlTarget) -> Result<RecordingConnection, ControlError> {
        self.events
            .lock()
            .expect("events lock poisoned")
            .push(format!("connect:{}", target.device_uri));
        Ok(RecordingConnection {
            events: Arc::clone(&self.events),
            applied: None,
        })
    }
}

fn target() -> ControlTarget {
    ControlTarget {
        device_uri: "eevideo://device/1".to_string(),
        transport_kind: ControlTransportKind::Noop,
        auth_scope: None,
    }
}

fn request() -> RequestedStreamConfiguration {
    RequestedStreamConfiguration {
        stream_name: "test-stream".to_string(),
        profile: StreamProfileId::CompatibilityV1,
        destination_host: "127.0.0.1".to_string(),
        port: 5000,
        bind_address: "0.0.0.0".to_string(),
        packet_delay_ns: 0,
        max_packet_size: 1200,
        format: Some(StreamFormatDescriptor {
            payload_type: PayloadType::Image,
            pixel_format: PixelFormat::Mono8,
            width: 320,
            height: 240,
        }),
    }
}

#[test]
fn noop_session_configures_starts_and_stops() {
    let mut session = ControlSession::new(default_control_backend(), target(), request());

    assert_eq!(session.describe().unwrap().supported_profiles.len(), 1);
    let applied = session.configure(request()).unwrap();
    assert_eq!(applied.stream_name, "test-stream");
    let running = session.start().unwrap();
    assert!(running.running);
    session.stop().unwrap();
    session.disconnect().unwrap();
}

#[test]
fn session_uses_connection_once_and_preserves_idempotency() {
    let (backend, events) = RecordingBackend::shared();
    let mut session = ControlSession::new(backend, target(), request());

    session.configure(request()).unwrap();
    session.start().unwrap();
    session.start().unwrap();
    session.stop().unwrap();
    session.stop().unwrap();
    session.disconnect().unwrap();

    assert_eq!(
        *events.lock().expect("events lock poisoned"),
        vec![
            "connect:eevideo://device/1".to_string(),
            "configure:test-stream".to_string(),
            "start:test-stream".to_string(),
            "stop:test-stream".to_string(),
            "disconnect".to_string(),
        ]
    );
}

#[test]
fn discover_delegates_to_backend_without_connecting() {
    let (backend, events) = RecordingBackend::shared();
    let session = ControlSession::new(backend, target(), request());

    session.discover().unwrap();

    assert_eq!(
        *events.lock().expect("events lock poisoned"),
        vec!["discover:eevideo://device/1".to_string()]
    );
}

#[test]
fn noop_connection_describes_defaults_and_refuses_calls_after_disconnect() {
    let backend = NoopControlBackend;
    let mut connection = backend.connect(&target()).unwrap();
    assert_eq!(connection.describe().unwrap(), ControlCapabilities::default());
    let err = connection.start("eevideo://device/1#test-stream").unwrap_err();
    assert_eq!(err.kind(), ControlErrorKind::InvalidConfiguration);
    let applied = connection.configure(request()).unwrap();
    assert_eq!(applied.stream_id, "eevideo://device/1#test-stream");
    assert!(!applied.normalized);
    connection.disconnect().unwrap();
    for err in [
        connection.describe().unwrap_err(),
        connection.configure(request()).unwrap_err(),
        connection.start("eevideo://device/1#test-stream").unwrap_err(),
        connection.stop("eevideo://device/1#test-stream").unwrap_err(),
    ] {
        assert_eq!(err.kind(), ControlErrorKind::Disconnected);
        assert_eq!(err.message(), "control connection is disconnected");
    }
}

#[test]
fn noop_session_describes_defaults_from_cache() {
    let mut session = ControlSession::new(default_control_backend(), target(), request());
    let first = session.describe().unwrap().clone();
    assert_eq!(first, ControlCapabilities::default());
    assert_eq!(first.supported_profiles, vec![StreamProfileId::CompatibilityV1]);
    assert_eq!(session.describe().unwrap(), &first);
    assert!(session.applied().is_none());
    assert!(session.running().is_none());
}

#[test]
fn session_start_without_configuration_applies_the_request_first() {
    let (backend, events) = RecordingBackend::shared();
    let mut session = ControlSession::new(backend, target(), request());
    let running = session.start().unwrap();
    assert_eq!(running.stream_id, "test-stream");
    assert_eq!(session.applied().unwrap().stream_name, "test-stream");
    session.disconnect().unwrap();
    assert!(session.running().is_none());
    assert!(session.applied().is_some());
    assert_eq!(
        *events.lock().unwrap(),
        vec![
            "connect:eevideo://device/1".to_string(),
            "configure:test-stream".to_string(),
            "start:test-stream".to_string(),
            "disconnect".to_string(),
        ]
    );
}
