use vstd::prelude::*;

use crate::compat_profile::StreamProfileId;
use crate::compat_stream::PayloadType;
use crate::pixel_format::PixelFormat;
use crate::text::owned;

verus! {

/// The format a stream carries.
#[derive(Clone, Copy, Debug, PartialEq, Eq, Structural)]
pub struct StreamFormatDescriptor {
    pub payload_type: PayloadType,
    pub pixel_format: PixelFormat,
    pub width: u32,
    pub height: u32,
}

/// How a host talks to a device.
#[derive(Clone, Copy, Debug, PartialEq, Eq, Structural)]
pub enum ControlTransportKind {
    Noop,
    CoapRegister,
}

/// A device to control.
#[derive(Clone, Debug, PartialEq, Eq)]
pub struct ControlTarget {
    pub device_uri: String,
    pub transport_kind: ControlTransportKind,
    pub auth_scope: Option<String>,
}

/// A control target with its texts as sequences.
pub struct TargetView {
    pub device_uri: Seq<char>,
    pub transport_kind: ControlTransportKind,
    pub auth_scope: Option<Seq<char>>,
}

impl View for ControlTarget {
    type V = TargetView;

    open spec fn view(&self) -> TargetView {
        TargetView {
            device_uri: self.device_uri@,
            transport_kind: self.transport_kind,
            auth_scope: match self.auth_scope {
                Some(s) => Some(s@),
                None => None,
            },
        }
    }
}

/// A copy of a control target.
pub fn copy_control_target(t: &ControlTarget) -> (r: ControlTarget)
    ensures
        r@ == t@,
{
    let auth_scope = match &t.auth_scope {
        Some(s) => Some(owned(s.as_str())),
        None => None,
    };
    ControlTarget {
        device_uri: owned(t.device_uri.as_str()),
        transport_kind: t.transport_kind,
        auth_scope,
    }
}

/// A device found by discovery.
#[derive(Clone, Debug, PartialEq, Eq)]
pub struct DiscoveredDevice {
    pub device_uri: String,
    pub transport_kind: ControlTransportKind,
    pub interface_name: String,
    pub interface_address: String,
    pub device_address: String,
    pub auth_scope: Option<String>,
}

/// What a device supports.
#[derive(Clone, Debug, PartialEq, Eq)]
pub struct ControlCapabilities {
    pub supported_profiles: Vec<StreamProfileId>,
    pub supported_pixel_formats: Vec<PixelFormat>,
    pub multicast_supported: bool,
    pub packet_pacing_supported: bool,
    pub native_framing_supported: bool,
}

impl Default for ControlCapabilities {
    /// The compatibility profile, no pixel format listed, multicast and pacing supported, no
    /// native framing.
    fn default() -> (r: ControlCapabilities)
        ensures
            r.supported_profiles@ == seq![StreamProfileId::CompatibilityV1],
            r.supported_pixel_formats@ == Seq::<PixelFormat>::empty(),
            r.multicast_supported,
            r.packet_pacing_supported,
            !r.native_framing_supported,
    {
        let mut supported_profiles: Vec<StreamProfileId> = Vec::new();
        supported_profiles.push(StreamProfileId::CompatibilityV1);
        assert(supported_profiles@ =~= seq![StreamProfileId::CompatibilityV1]);
        ControlCapabilities {
            supported_profiles,
            supported_pixel_formats: Vec::new(),
            multicast_supported: true,
            packet_pacing_supported: true,
            native_framing_supported: false,
        }
    }
}

/// The stream configuration a host asks for.
#[derive(Clone, Debug, PartialEq, Eq)]
pub struct RequestedStreamConfiguration {
    pub stream_name: String,
    pub profile: StreamProfileId,
    pub destination_host: String,
    pub port: u16,
    pub bind_address: String,
    pub packet_delay_ns: u64,
    pub max_packet_size: u16,
    pub format: Option<StreamFormatDescriptor>,
}

/// A requested configuration with its strings as characters.
pub struct RequestView {
    pub stream_name: Seq<char>,
    pub profile: StreamProfileId,
    pub destination_host: Seq<char>,
    pub port: u16,
    pub bind_address: Seq<char>,
    pub packet_delay_ns: u64,
    pub max_packet_size: u16,
    pub format: Option<StreamFormatDescriptor>,
}

impl View for RequestedStreamConfiguration {
    type V = RequestView;

    open spec fn view(&self) -> RequestView {
        RequestView {
            stream_name: self.stream_name@,
            profile: self.profile,
            destination_host: self.destination_host@,
            port: self.port,
            bind_address: self.bind_address@,
            packet_delay_ns: self.packet_delay_ns,
            max_packet_size: self.max_packet_size,
            format: self.format,
        }
    }
}

/// The stream configuration a device applied.
#[derive(Clone, Debug, PartialEq, Eq)]
pub struct AppliedStreamConfiguration {
    pub stream_id: String,
    pub stream_name: String,
    pub profile: StreamProfileId,
    pub destination_host: String,
    pub port: u16,
    pub bind_address: String,
    pub packet_delay_ns: u64,
    pub max_packet_size: u16,
    pub format: Option<StreamFormatDescriptor>,
    pub normalized: bool,
}

/// An applied configuration with its strings as characters.
pub struct AppliedView {
    pub stream_id: Seq<char>,
    pub stream_name: Seq<char>,
    pub profile: StreamProfileId,
    pub destination_host: Seq<char>,
    pub port: u16,
    pub bind_address: Seq<char>,
    pub packet_delay_ns: u64,
    pub max_packet_size: u16,
    pub format: Option<StreamFormatDescriptor>,
    pub normalized: bool,
}

impl View for AppliedStreamConfiguration {
    type V = AppliedView;

    open spec fn view(&self) -> AppliedView {
        AppliedView {
            stream_id: self.stream_id@,
            stream_name: self.stream_name@,
            profile: self.profile,
            destination_host: self.destination_host@,
            port: self.port,
            bind_address: self.bind_address@,
            packet_delay_ns: self.packet_delay_ns,
            max_packet_size: self.max_packet_size,
            format: self.format,
            normalized: self.normalized,
        }
    }
}

/// A stream a device is sending.
#[derive(Clone, Debug, PartialEq, Eq)]
pub struct RunningStream {
    pub stream_id: String,
    pub profile: StreamProfileId,
    pub running: bool,
}

/// The kinds of control failure.
#[derive(Clone, Copy, Debug, PartialEq, Eq, Structural)]
pub enum ControlErrorKind {
    Connection,
    Discovery,
    Authentication,
    UnsupportedProfile,
    InvalidConfiguration,
    ConflictingState,
    Timeout,
    AppliedValueMismatch,
    Disconnected,
    Other,
}

/// A control failure: its kind and its message.
#[derive(Clone, Debug, PartialEq, Eq)]
pub struct ControlError {
    kind: ControlErrorKind,
    message: String,
}

impl ControlError {
    /// The kind of this error.
    pub closed spec fn spec_kind(&self) -> ControlErrorKind {
        self.kind
    }

    /// The message of this error.
    pub closed spec fn spec_message(&self) -> Seq<char> {
        self.message@
    }

    pub fn new(kind: ControlErrorKind, message: String) -> (r: ControlError)
        ensures
            r.spec_kind() == kind,
            r.spec_message() == message@,
    {
        ControlError { kind, message }
    }

    pub fn kind(&self) -> (r: ControlErrorKind)
        ensures
            r == self.spec_kind(),
    {
        self.kind
    }

    /// The message of this error (its human-readable text).
    pub fn message(&self) -> (r: &str)
        ensures
            r@ == self.spec_message(),
    {
        self.message.as_str()
    }
}

/// An error of the given kind whose message is a literal.
pub fn control_error(kind: ControlErrorKind, message: &str) -> (r: ControlError)
    ensures
        r.spec_kind() == kind,
        r.spec_message() == message@,
{
    ControlError::new(kind, owned(message))
}

} // verus!
