use vstd::prelude::*;

use crate::compat_profile::StreamProfileId;
use crate::assembler::{AssembleError, FrameEvent};
use crate::compat_stream::{PayloadType, VideoFrame};
use crate::stats::{bump, StatsView, StreamStats};
use crate::control::{
    AppliedStreamConfiguration, ControlTarget, ControlTransportKind, RequestView, RequestedStreamConfiguration,
    StreamFormatDescriptor,
};
use crate::pixel_format::{
    spec_from_caps, spec_gst_format, spec_media_type, spec_payload_len,
    spec_pixel_format_error_message, PixelFormat, PixelFormatError,
};
use crate::text::{
    is_blank, owned, parse_u32_radix, push_decimal, push_signed_decimal, push_str, spec_all_digits,
    spec_decimal, spec_digits_value, spec_signed_decimal, spec_split, spec_trim, split_char, str_eq,
    trim,
};

verus! {

/// The first structure of caps: its media type and the fields the elements read or write.
#[derive(Clone, Debug, PartialEq, Eq)]
pub struct CapsFields {
    pub media_type: String,
    pub format: Option<String>,
    pub width: Option<i32>,
    pub height: Option<i32>,
    pub framerate: Option<(i32, i32)>,
}

/// The size and pixel format of the frames an element carries.
#[derive(Clone, Copy, Debug, PartialEq, Eq, Structural)]
pub struct FrameFormat {
    pub width: u32,
    pub height: u32,
    pub pixel_format: PixelFormat,
}

impl FrameFormat {
    /// The packed payload size of a frame of this format; zero dimensions are refused.
    pub fn payload_len(self) -> (r: Result<usize, PixelFormatError>)
        requires
            self.width * self.height * crate::pixel_format::spec_bytes_per_pixel(self.pixel_format)
                <= usize::MAX,
        ensures
            match spec_payload_len(self.pixel_format, self.width, self.height) {
                Some(n) => r == Ok::<usize, PixelFormatError>(n as usize),
                None => r matches Err(PixelFormatError::InvalidDimensions { width: w, height: h })
                    && w == self.width && h == self.height,
            },
    {
        self.pixel_format.payload_len(self.width, self.height)
    }

    /// The format of a frame.
    pub fn from_frame(frame: &VideoFrame) -> (r: Self)
        ensures
            r == (FrameFormat {
                width: frame.width,
                height: frame.height,
                pixel_format: frame.pixel_format,
            }),
    {
        FrameFormat { width: frame.width, height: frame.height, pixel_format: frame.pixel_format }
    }

    /// The caps of this format: its media type, format name, size (as caps integers) and a
    /// variable frame rate.
    pub fn to_caps(self) -> (r: CapsFields)
        ensures
            r.media_type@ == spec_media_type(self.pixel_format),
            r.format matches Some(f) && f@ == spec_gst_format(self.pixel_format),
            r.width == Some(self.width as i32),
            r.height == Some(self.height as i32),
            r.framerate == Some((0i32, 1i32)),
    {
        CapsFields {
            media_type: owned(self.pixel_format.media_type()),
            format: Some(owned(self.pixel_format.gst_format())),
            width: Some(self.width as i32),
            height: Some(self.height as i32),
            framerate: Some((0, 1)),
        }
    }
}

/// The frame format that caps describe, or why they do not describe one.
pub open spec fn spec_parse_caps(caps: Option<CapsFields>) -> Result<FrameFormat, Seq<char>> {
    match caps {
        None => Err("caps did not contain a structure"@),
        Some(c) => match c.format {
            None => Err("caps missing string format field"@),
            Some(format) => match c.width {
                None => Err("caps missing integer width field"@),
                Some(width) => match c.height {
                    None => Err("caps missing integer height field"@),
                    Some(height) => if width <= 0 || height <= 0 {
                        Err(
                            "invalid negotiated dimensions "@ + spec_signed_decimal(width as int)
                                + "x"@ + spec_signed_decimal(height as int),
                        )
                    } else {
                        match spec_from_caps(c.media_type@, format@) {
                            Some(f) => Ok(
                                FrameFormat {
                                    width: width as u32,
                                    height: height as u32,
                                    pixel_format: f,
                                },
                            ),
                            None => Err(
                                spec_pixel_format_error_message(
                                    PixelFormatError::UnsupportedCaps {
                                        media_type: c.media_type,
                                        format,
                                    },
                                ),
                            ),
                        }
                    },
                },
            },
        },
    }
}

/// Reads the frame format from negotiated caps.
pub fn parse_caps(caps: Option<&CapsFields>) -> (r: Result<FrameFormat, String>)
    ensures
        match spec_parse_caps(
            match caps {
                Some(c) => Some(*c),
                None => None,
            },
        ) {
            Ok(f) => r == Ok::<FrameFormat, String>(f),
            Err(m) => r matches Err(e) && e@ == m,
        },
{
    let c = match caps {
        Some(c) => c,
        None => return Err(owned("caps did not contain a structure")),
    };
    let format = match &c.format {
        Some(f) => f,
        None => return Err(owned("caps missing string format field")),
    };
    let width = match c.width {
        Some(w) => w,
        None => return Err(owned("caps missing integer width field")),
    };
    let height = match c.height {
        Some(h) => h,
        None => return Err(owned("caps missing integer height field")),
    };
    if width <= 0 || height <= 0 {
        let mut m = owned("invalid negotiated dimensions ");
        push_signed_decimal(&mut m, width);
        push_str(&mut m, "x");
        push_signed_decimal(&mut m, height);
        return Err(m);
    }
    match PixelFormat::from_caps(c.media_type.as_str(), format.as_str()) {
        Ok(f) => Ok(FrameFormat { width: width as u32, height: height as u32, pixel_format: f }),
        Err(e) => Err(e.message()),
    }
}

/// The value of a dotted-quad part: one to three decimal digits, no leading zero, at most
/// 255.
pub open spec fn spec_octet(s: Seq<char>) -> Option<u32> {
    if 1 <= s.len() <= 3 && spec_all_digits(s, 10) && !(s.len() > 1 && s[0] == '0')
        && spec_digits_value(s, 10) <= 255 {
        Some(spec_digits_value(s, 10) as u32)
    } else {
        None
    }
}

/// An IPv4 address in dotted-quad form, as a number with the first part in the high byte.
pub open spec fn spec_parse_ipv4(s: Seq<char>) -> Option<u32> {
    let parts = spec_split(s, '.');
    if parts.len() == 4 {
        match (spec_octet(parts[0]), spec_octet(parts[1]), spec_octet(parts[2]), spec_octet(
            parts[3],
        )) {
            (Some(a), Some(b), Some(c), Some(d)) => Some(
                (a * 0x0100_0000 + b * 0x1_0000 + c * 0x100 + d) as u32,
            ),
            _ => None,
        }
    } else {
        None
    }
}

fn parse_octet(s: &str) -> (r: Option<u32>)
    ensures
        r == spec_octet(s@),
{
    let n = s.unicode_len();
    if n < 1 || n > 3 {
        return None;
    }
    let first = s.get_char(0);
    if !('0' <= first && first <= '9') {
        return None;
    }
    if n > 1 && first == '0' {
        return None;
    }
    match parse_u32_radix(s, 10) {
        Some(v) => {
            if v <= 255 {
                Some(v)
            } else {
                None
            }
        },
        None => None,
    }
}

/// Parses a dotted-quad IPv4 address.
pub fn parse_ipv4(s: &str) -> (r: Option<u32>)
    ensures
        r == spec_parse_ipv4(s@),
{
    let parts = split_char(s, '.');
    if parts.len() != 4 {
        return None;
    }
    let a = parse_octet(parts[0]);
    let b = parse_octet(parts[1]);
    let c = parse_octet(parts[2]);
    let d = parse_octet(parts[3]);
    match (a, b, c, d) {
        (Some(a), Some(b), Some(c), Some(d)) => Some(a * 0x0100_0000 + b * 0x1_0000 + c * 0x100 + d),
        _ => None,
    }
}

/// The text of a failed IPv4 parse.
pub open spec fn ipv4_syntax_message() -> Seq<char> {
    "invalid IPv4 address syntax"@
}

/// Whether an IPv4 address is a multicast address (224.0.0.0/4).
pub open spec fn spec_is_multicast(ip: u32) -> bool {
    ip / 0x1000_0000 == 0xe
}

/// The multicast group to join: none for a blank setting; an error for text that is no IPv4
/// address, or no multicast one.
pub open spec fn spec_multicast_group(value: Seq<char>) -> Result<Option<u32>, Seq<char>> {
    let v = spec_trim(value);
    if v.len() == 0 {
        Ok(None)
    } else {
        match spec_parse_ipv4(v) {
            None => Err("invalid multicast group "@ + v + ": "@ + ipv4_syntax_message()),
            Some(ip) => if spec_is_multicast(ip) {
                Ok(Some(ip))
            } else {
                Err("multicast-group must be an IPv4 multicast address, got "@ + v)
            },
        }
    }
}

/// Parses the multicast group setting of the source element.
pub fn parse_multicast_group(value: &str) -> (r: Result<Option<u32>, String>)
    ensures
        match spec_multicast_group(value@) {
            Ok(g) => r == Ok::<Option<u32>, String>(g),
            Err(m) => r matches Err(e) && e@ == m,
        },
{
    let v = trim(value);
    if v.unicode_len() == 0 {
        return Ok(None);
    }
    match parse_ipv4(v) {
        None => {
            let mut m = owned("invalid multicast group ");
            push_str(&mut m, v);
            push_str(&mut m, ": invalid IPv4 address syntax");
            assert(m@ =~= "invalid multicast group "@ + v@ + ": "@ + ipv4_syntax_message()) by {
                reveal_strlit(": invalid IPv4 address syntax");
                reveal_strlit(": ");
                reveal_strlit("invalid IPv4 address syntax");
            }
            Err(m)
        },
        Some(ip) => {
            if ip / 0x1000_0000 == 0xe {
                Ok(Some(ip))
            } else {
                let mut m = owned("multicast-group must be an IPv4 multicast address, got ");
                push_str(&mut m, v);
                Err(m)
            }
        },
    }
}

/// The multicast interface address: none for a blank setting; an error for text that is no
/// IPv4 address.
pub open spec fn spec_multicast_iface(value: Seq<char>) -> Result<Option<u32>, Seq<char>> {
    let v = spec_trim(value);
    if v.len() == 0 {
        Ok(None)
    } else {
        match spec_parse_ipv4(v) {
            None => Err("invalid multicast interface "@ + v + ": "@ + ipv4_syntax_message()),
            Some(ip) => Ok(Some(ip)),
        }
    }
}

/// Parses a multicast interface setting.
pub fn parse_multicast_iface(value: &str) -> (r: Result<Option<u32>, String>)
    ensures
        match spec_multicast_iface(value@) {
            Ok(g) => r == Ok::<Option<u32>, String>(g),
            Err(m) => r matches Err(e) && e@ == m,
        },
{
    let v = trim(value);
    if v.unicode_len() == 0 {
        return Ok(None);
    }
    match parse_ipv4(v) {
        None => {
            let mut m = owned("invalid multicast interface ");
            push_str(&mut m, v);
            push_str(&mut m, ": invalid IPv4 address syntax");
            assert(m@ =~= "invalid multicast interface "@ + v@ + ": "@ + ipv4_syntax_message()) by {
                reveal_strlit(": invalid IPv4 address syntax");
                reveal_strlit(": ");
                reveal_strlit("invalid IPv4 address syntax");
            }
            Err(m)
        },
        Some(ip) => Ok(Some(ip)),
    }
}

/// The settings of the receiving source element.
#[derive(Clone, Debug, PartialEq, Eq)]
pub struct SourceSettings {
    pub address: String,
    pub port: u32,
    pub multicast_group: String,
    pub multicast_iface: String,
    pub timeout_ms: u64,
    pub latency_ms: u64,
    pub drop_incomplete: bool,
}

impl Default for SourceSettings {
    /// Listens on every address at port 5000, two seconds before an incomplete frame is
    /// dropped, no added latency.
    fn default() -> (r: Self)
        ensures
            r.address@ == "0.0.0.0"@,
            r.port == 5000,
            r.multicast_group@ == Seq::<char>::empty(),
            r.multicast_iface@ == Seq::<char>::empty(),
            r.timeout_ms == 2000,
            r.latency_ms == 0,
            r.drop_incomplete,
    {
        SourceSettings {
            address: owned("0.0.0.0"),
            port: 5000,
            multicast_group: String::new(),
            multicast_iface: String::new(),
            timeout_ms: 2000,
            latency_ms: 0,
            drop_incomplete: true,
        }
    }
}

/// The destination a managed source asks the device to send to: the socket's own address
/// where it is a concrete one, else the multicast interface, else the bind address; an
/// unspecified address cannot be asked for.
pub open spec fn spec_source_destination(local_ip: Option<Seq<char>>, s: SourceSettings) -> Result<
    Seq<char>,
    Seq<char>,
> {
    let host = match local_ip {
        Some(ip) => Some(ip),
        None => if spec_trim(s.multicast_iface@).len() > 0 {
            Some(s.multicast_iface@)
        } else if spec_trim(s.address@).len() > 0 {
            Some(s.address@)
        } else {
            None
        },
    };
    match host {
        None => Err("managed control requires a concrete local receive address"@),
        Some(h) => if h == "0.0.0.0"@ || h == "::"@ {
            Err("managed control cannot advertise an unspecified destination address"@)
        } else {
            Ok(h)
        },
    }
}

/// The stream request a managed source sends: its stream, the destination above, the port
/// the socket is bound to, and the compatibility profile with default packets.
pub fn build_source_stream_configuration(
    settings: &SourceSettings,
    local_ip: Option<&str>,
    local_port: u16,
    stream_name: &str,
) -> (r: Result<RequestedStreamConfiguration, String>)
    ensures
        match spec_source_destination(
            match local_ip {
                Some(ip) => Some(ip@),
                None => None,
            },
            *settings,
        ) {
            Err(m) => r matches Err(e) && e@ == m,
            Ok(h) => r matches Ok(c) && c@ == (RequestView {
                stream_name: stream_name@,
                profile: StreamProfileId::CompatibilityV1,
                destination_host: h,
                port: local_port,
                bind_address: settings.address@,
                packet_delay_ns: 0,
                max_packet_size: 1200,
                format: None,
            }),
        },
{
    let destination_host = match local_ip {
        Some(ip) => owned(ip),
        None => {
            if !is_blank(settings.multicast_iface.as_str()) {
                settings.multicast_iface.clone()
            } else if !is_blank(settings.address.as_str()) {
                settings.address.clone()
            } else {
                return Err(owned("managed control requires a concrete local receive address"));
            }
        },
    };
    if str_eq(destination_host.as_str(), "0.0.0.0") || str_eq(destination_host.as_str(), "::") {
        return Err(owned("managed control cannot advertise an unspecified destination address"));
    }
    Ok(
        RequestedStreamConfiguration {
            stream_name: owned(stream_name),
            profile: StreamProfileId::CompatibilityV1,
            destination_host,
            port: local_port,
            bind_address: settings.address.clone(),
            packet_delay_ns: 0,
            max_packet_size: 1200,
            format: None,
        },
    )
}

/// Whether a frame carries the image format that managed control applied.
pub open spec fn spec_frame_matches(frame: VideoFrame, expected: StreamFormatDescriptor) -> bool {
    &&& frame.payload_type == PayloadType::Image
    &&& frame.payload_type == expected.payload_type
    &&& frame.pixel_format == expected.pixel_format
    &&& frame.width == expected.width
    &&& frame.height == expected.height
}

/// Whether a received frame carries the format that managed control applied.
pub fn frame_matches_expected_format(frame: &VideoFrame, expected: &StreamFormatDescriptor) -> (r:
    bool)
    ensures
        r == spec_frame_matches(*frame, *expected),
{
    frame.payload_type == PayloadType::Image && frame.payload_type == expected.payload_type
        && frame.pixel_format == expected.pixel_format && frame.width == expected.width
        && frame.height == expected.height
}

/// What the receiver does with a complete frame.
#[derive(Clone, Copy, Debug, PartialEq, Eq, Structural)]
pub enum FrameVerdict {
    /// Hand the frame on; the stream's format is now `format`.
    Deliver { format: FrameFormat },
    /// Stop: the frame does not carry the format managed control applied.
    RejectManagedMismatch,
    /// Stop: the frame's format differs from the stream's earlier frames.
    RejectFormatChange,
}

/// The receiver's verdict on a frame: the managed format is checked first, then the format
/// of the stream's first frame.
pub open spec fn spec_frame_verdict(
    expected: Option<StreamFormatDescriptor>,
    current: Option<FrameFormat>,
    frame: VideoFrame,
) -> FrameVerdict {
    let format = FrameFormat {
        width: frame.width,
        height: frame.height,
        pixel_format: frame.pixel_format,
    };
    if expected matches Some(e) && !spec_frame_matches(frame, e) {
        FrameVerdict::RejectManagedMismatch
    } else if current matches Some(c) && c != format {
        FrameVerdict::RejectFormatChange
    } else {
        FrameVerdict::Deliver { format }
    }
}

/// A stream's format is fixed by its first delivered frame: once the receiver has a format,
/// every frame it delivers carries that format, and where managed control applied a format,
/// every delivered frame carries the applied one.
pub proof fn lemma_delivered_format_fixed(
    expected: Option<StreamFormatDescriptor>,
    current: Option<FrameFormat>,
    frame: VideoFrame,
)
    ensures
        spec_frame_verdict(expected, current, frame) matches FrameVerdict::Deliver { format } ==> {
            &&& format.width == frame.width && format.height == frame.height
            &&& format.pixel_format == frame.pixel_format
            &&& current matches Some(c) ==> format == c
            &&& expected matches Some(e) ==> spec_frame_matches(frame, e)
        },
{
}

/// The frame the sink sends for a buffer of `data` in the negotiated format: numbered
/// `frame_id`, stamped with the buffer's presentation time (zero where it has none), and
/// carrying the buffer's bytes; none where the buffer is not exactly one packed frame of that
/// format (or the format has no frame size), which the sink drops.
pub fn render_frame(format: FrameFormat, data: &[u8], frame_id: u32, pts: Option<u64>) -> (r: Option<
    VideoFrame,
>)
    requires
        format.width * format.height * crate::pixel_format::spec_bytes_per_pixel(
            format.pixel_format,
        ) <= usize::MAX,
    ensures
        r is Some <==> spec_payload_len(format.pixel_format, format.width, format.height) == Some(
            data@.len(),
        ),
        r matches Some(frame) ==> {
            &&& frame.frame_id == frame_id
            &&& frame.timestamp == match pts {
                Some(t) => t,
                None => 0,
            }
            &&& frame.width == format.width
            &&& frame.height == format.height
            &&& frame.pixel_format == format.pixel_format
            &&& frame.payload_type == PayloadType::Image
            &&& frame.data@ == data@
        },
{
    let expected_len = match format.payload_len() {
        Ok(n) => n,
        Err(_) => return None,
    };
    assert(spec_payload_len(format.pixel_format, format.width, format.height) == Some(
        expected_len as nat,
    ));
    if data.len() != expected_len {
        return None;
    }
    let mut bytes: Vec<u8> = Vec::new();
    crate::compat_stream::extend_from_range(&mut bytes, data, 0, data.len());
    assert(data@.subrange(0, data@.len() as int) =~= data@);
    let timestamp = match pts {
        Some(t) => t,
        None => 0,
    };
    Some(
        VideoFrame {
            frame_id,
            timestamp,
            width: format.width,
            height: format.height,
            pixel_format: format.pixel_format,
            payload_type: PayloadType::Image,
            data: bytes,
        },
    )
}

/// Judges a complete frame against the managed format and the stream's format so far.
pub fn receiver_frame_verdict(
    expected: Option<StreamFormatDescriptor>,
    current: Option<FrameFormat>,
    frame: &VideoFrame,
) -> (r: FrameVerdict)
    ensures
        r == spec_frame_verdict(expected, current, *frame),
{
    let format = FrameFormat::from_frame(frame);
    match expected {
        Some(e) => {
            if !frame_matches_expected_format(frame, &e) {
                return FrameVerdict::RejectManagedMismatch;
            }
        },
        None => {},
    }
    match current {
        Some(c) => {
            if c != format {
                return FrameVerdict::RejectFormatChange;
            }
        },
        None => {},
    }
    FrameVerdict::Deliver { format }
}

/// The format a managed receiver expects of its frames: the one control applied, once the
/// applied profile is checked to be one the receiver reads. The compatibility profile, the
/// only profile there is, always passes.
pub fn managed_expected_format(applied: &AppliedStreamConfiguration) -> (r: Result<
    Option<StreamFormatDescriptor>,
    String,
>)
    ensures
        r matches Ok(f) && f == applied.format,
{
    match applied.profile {
        StreamProfileId::CompatibilityV1 => Ok(applied.format),
    }
}

/// What one turn of the receive loop brought.
pub enum ReceiverInput {
    /// A datagram that is no compatibility packet.
    Unparsable,
    /// What the assembler made of a packet.
    Assembled(Result<Option<FrameEvent>, AssembleError>),
    /// Nothing arrived before the socket's read timeout.
    TimedOut,
    /// Receiving failed; the failure's text.
    ReceiveFailed(String),
}

/// What the receive loop does next.
#[derive(Debug, PartialEq, Eq)]
pub enum ReceiverAction {
    /// Go on receiving at once.
    Skip,
    /// Give up timed-out frames, then go on receiving.
    Reap,
    /// Send the frame to the element (a full channel counts one dropped frame), give up
    /// timed-out frames, then go on receiving.
    Deliver(VideoFrame),
    /// Send the error to the element and stop receiving.
    Fail(String),
}

/// What a receiver keeps between turns: the format managed control applied, if any, the
/// format of the stream's first delivered frame, and whether timeouts give up frames.
pub struct ReceiverState {
    pub expected: Option<StreamFormatDescriptor>,
    pub current: Option<FrameFormat>,
    pub drop_incomplete: bool,
}

/// The counters with one dropped frame and one packet anomaly more.
pub open spec fn stats_drop_and_anomaly(s: StatsView) -> StatsView {
    StatsView {
        dropped_frames: bump(s.dropped_frames),
        packet_anomalies: bump(s.packet_anomalies),
        ..s
    }
}

/// The receive loop's decision for one turn: a complete frame is judged against the managed
/// format and the stream's format so far and delivered, or refused with one dropped frame and
/// one packet anomaly counted and the receiver stopped; an unparsable datagram counts an
/// anomaly, a refused packet a drop and an anomaly; a failed receive stops the receiver.
pub fn receiver_step(state: &mut ReceiverState, stats: &mut StreamStats, input: ReceiverInput) -> (r:
    ReceiverAction)
    ensures
        final(state).expected == old(state).expected,
        final(state).drop_incomplete == old(state).drop_incomplete,
        match input {
            ReceiverInput::Unparsable => r == ReceiverAction::Skip && final(state).current == old(state).current && final(stats)@ == (StatsView {
                packet_anomalies: bump(old(stats)@.packet_anomalies),
                ..old(stats)@
            }),
            ReceiverInput::Assembled(Err(_)) => r == ReceiverAction::Reap && final(state).current
                == old(state).current && final(stats)@ == stats_drop_and_anomaly(old(stats)@),
            ReceiverInput::Assembled(Ok(Some(FrameEvent::Complete(frame)))) => match spec_frame_verdict(
                old(state).expected,
                old(state).current,
                frame,
            ) {
                FrameVerdict::Deliver { format } => r == ReceiverAction::Deliver(frame) && final(state).current == Some(format) && final(stats)@ == old(stats)@,
                FrameVerdict::RejectManagedMismatch => (r matches ReceiverAction::Fail(m) && m@
                    == "managed-control format mismatch rejected"@) && final(state).current == old(state).current && final(stats)@ == stats_drop_and_anomaly(old(stats)@),
                FrameVerdict::RejectFormatChange => (r matches ReceiverAction::Fail(m) && m@
                    == "mid-stream format change rejected"@) && final(state).current == old(state).current && final(stats)@ == stats_drop_and_anomaly(old(stats)@),
            },
            ReceiverInput::Assembled(Ok(_)) => r == ReceiverAction::Reap && final(state).current
                == old(state).current && final(stats)@ == old(stats)@,
            ReceiverInput::TimedOut => r == (if old(state).drop_incomplete {
                ReceiverAction::Reap
            } else {
                ReceiverAction::Skip
            }) && final(state).current == old(state).current && final(stats)@ == old(stats)@,
            ReceiverInput::ReceiveFailed(e) => (r matches ReceiverAction::Fail(m) && m@
                == "udp receive failed: "@ + e@) && final(state).current == old(state).current
                && final(stats)@ == old(stats)@,
        },
{
    match input {
        ReceiverInput::Unparsable => {
            stats.record_packet_anomaly();
            ReceiverAction::Skip
        },
        ReceiverInput::Assembled(Err(_)) => {
            stats.record_drop();
            stats.record_packet_anomaly();
            ReceiverAction::Reap
        },
        ReceiverInput::Assembled(Ok(Some(FrameEvent::Complete(frame)))) => {
            match receiver_frame_verdict(state.expected, state.current, &frame) {
                FrameVerdict::Deliver { format } => {
                    state.current = Some(format);
                    ReceiverAction::Deliver(frame)
                },
                FrameVerdict::RejectManagedMismatch => {
                    stats.record_drop();
                    stats.record_packet_anomaly();
                    ReceiverAction::Fail(owned("managed-control format mismatch rejected"))
                },
                FrameVerdict::RejectFormatChange => {
                    stats.record_drop();
                    stats.record_packet_anomaly();
                    ReceiverAction::Fail(owned("mid-stream format change rejected"))
                },
            }
        },
        ReceiverInput::Assembled(Ok(_)) => ReceiverAction::Reap,
        ReceiverInput::TimedOut => {
            if state.drop_incomplete {
                ReceiverAction::Reap
            } else {
                ReceiverAction::Skip
            }
        },
        ReceiverInput::ReceiveFailed(e) => {
            let mut m = owned("udp receive failed: ");
            push_str(&mut m, e.as_str());
            ReceiverAction::Fail(m)
        },
    }
}

/// The frames a receiver delivers from a run of complete frames, and whether it stopped on
/// one of them: each frame is judged as `receiver_step` judges it, and a delivered frame fixes
/// the stream's format.
pub open spec fn spec_deliveries(
    expected: Option<StreamFormatDescriptor>,
    current: Option<FrameFormat>,
    frames: Seq<VideoFrame>,
) -> (Seq<VideoFrame>, bool)
    decreases frames.len(),
{
    if frames.len() == 0 {
        (Seq::empty(), false)
    } else {
        match spec_frame_verdict(expected, current, frames[0]) {
            FrameVerdict::Deliver { format } => {
                let rest = spec_deliveries(expected, Some(format), frames.drop_first());
                (seq![frames[0]] + rest.0, rest.1)
            },
            _ => (Seq::empty(), true),
        }
    }
}

/// The format a frame carries.
pub open spec fn spec_format_of(frame: VideoFrame) -> FrameFormat {
    FrameFormat { width: frame.width, height: frame.height, pixel_format: frame.pixel_format }
}

proof fn lemma_deliveries_with_format(format: FrameFormat, frames: Seq<VideoFrame>, k: int)
    requires
        0 <= k <= frames.len(),
        forall|i: int| 0 <= i < k ==> spec_format_of(#[trigger] frames[i]) == format,
        k < frames.len() ==> spec_format_of(frames[k]) != format,
    ensures
        spec_deliveries(None, Some(format), frames) == (frames.take(k), k < frames.len()),
    decreases frames.len(),
{
    if frames.len() == 0 {
        assert(frames.take(k) =~= Seq::<VideoFrame>::empty());
    } else if k == 0 {
        assert(frames.take(k) =~= Seq::<VideoFrame>::empty());
    } else {
        let rest = frames.drop_first();
        assert forall|i: int| 0 <= i < k - 1 implies spec_format_of(#[trigger] rest[i]) == format by {
            assert(rest[i] == frames[i + 1]);
        }
        if k < frames.len() {
            assert(rest[k - 1] == frames[k]);
        }
        lemma_deliveries_with_format(format, rest, k - 1);
        assert(spec_format_of(frames[0]) == format);
        assert(seq![frames[0]] + rest.take(k - 1) =~= frames.take(k));
    }
}

/// With no managed format, a receiver delivers every frame of a run up to the first whose
/// format differs from the first frame's, and stops on that one; where none differs, it
/// delivers them all.
pub proof fn lemma_stream_stops_at_first_format_change(frames: Seq<VideoFrame>, k: int)
    requires
        0 < k <= frames.len(),
        forall|i: int| 0 <= i < k ==> spec_format_of(#[trigger] frames[i]) == spec_format_of(
            frames[0],
        ),
        k < frames.len() ==> spec_format_of(frames[k]) != spec_format_of(frames[0]),
    ensures
        spec_deliveries(None, None, frames) == (frames.take(k), k < frames.len()),
{
    let format = spec_format_of(frames[0]);
    let rest = frames.drop_first();
    assert forall|i: int| 0 <= i < k - 1 implies spec_format_of(#[trigger] rest[i]) == format by {
        assert(rest[i] == frames[i + 1]);
    }
    if k < frames.len() {
        assert(rest[k - 1] == frames[k]);
    }
    lemma_deliveries_with_format(format, rest, k - 1);
    assert(seq![frames[0]] + rest.take(k - 1) =~= frames.take(k));
}

/// The presentation time of a frame: its timestamp plus the configured latency, saturating.
pub open spec fn spec_buffer_pts(timestamp: u64, latency_ms: u64) -> u64 {
    let latency: int = if latency_ms * 1_000_000 > u64::MAX {
        u64::MAX as int
    } else {
        latency_ms * 1_000_000
    };
    if timestamp + latency > u64::MAX {
        u64::MAX
    } else {
        (timestamp + latency) as u64
    }
}

/// The presentation time of a frame with the configured latency added.
pub fn buffer_pts(timestamp: u64, latency_ms: u64) -> (r: u64)
    ensures
        r == spec_buffer_pts(timestamp, latency_ms),
{
    let latency: u64 = if latency_ms > u64::MAX / 1_000_000 {
        u64::MAX
    } else {
        latency_ms * 1_000_000
    };
    timestamp.saturating_add(latency)
}

/// The control target of an element that no device was configured for.
pub fn default_control_target(stream_name: &str) -> (r: ControlTarget)
    ensures
        r.device_uri@ == stream_name@,
        r.transport_kind == ControlTransportKind::Noop,
        r.auth_scope is None,
{
    ControlTarget {
        device_uri: owned(stream_name),
        transport_kind: ControlTransportKind::Noop,
        auth_scope: None,
    }
}

/// The settings of the sending sink element.
#[derive(Clone, Debug, PartialEq, Eq)]
pub struct SinkSettings {
    pub host: String,
    pub port: u32,
    pub bind_address: String,
    pub multicast_iface: String,
    pub mtu: u32,
    pub packet_delay_ns: u64,
    pub multicast_loop: bool,
    pub multicast_ttl: u32,
}

impl Default for SinkSettings {
    /// Sends to 127.0.0.1:5000 from any address, 1200-byte packets, no delay, multicast
    /// looped back with a TTL of one.
    fn default() -> (r: Self)
        ensures
            r.host@ == "127.0.0.1"@,
            r.port == 5000,
            r.bind_address@ == "0.0.0.0"@,
            r.multicast_iface@ == Seq::<char>::empty(),
            r.mtu == 1200,
            r.packet_delay_ns == 0,
            r.multicast_loop,
            r.multicast_ttl == 1,
    {
        SinkSettings {
            host: owned("127.0.0.1"),
            port: 5000,
            bind_address: owned("0.0.0.0"),
            multicast_iface: String::new(),
            mtu: 1200,
            packet_delay_ns: 0,
            multicast_loop: true,
            multicast_ttl: 1,
        }
    }
}

/// The stream request a sink sends to its control session: a stream named after its
/// destination, sent from its bind address with its delay and packet size.
pub fn build_sink_stream_configuration(
    settings: &SinkSettings,
    format: Option<StreamFormatDescriptor>,
) -> (r: RequestedStreamConfiguration)
    requires
        settings.port <= u16::MAX,
        settings.mtu <= u16::MAX,
    ensures
        r@ == (RequestView {
            stream_name: "eevideo-compat://"@ + settings.host@ + ":"@ + spec_decimal(
                settings.port as nat,
            ),
            profile: StreamProfileId::CompatibilityV1,
            destination_host: settings.host@,
            port: settings.port as u16,
            bind_address: settings.bind_address@,
            packet_delay_ns: settings.packet_delay_ns,
            max_packet_size: settings.mtu as u16,
            format,
        }),
{
    let mut stream_name = owned("eevideo-compat://");
    push_str(&mut stream_name, settings.host.as_str());
    push_str(&mut stream_name, ":");
    push_decimal(&mut stream_name, settings.port as u64);
    RequestedStreamConfiguration {
        stream_name,
        profile: StreamProfileId::CompatibilityV1,
        destination_host: settings.host.clone(),
        port: settings.port as u16,
        bind_address: settings.bind_address.clone(),
        packet_delay_ns: settings.packet_delay_ns,
        max_packet_size: settings.mtu as u16,
        format,
    }
}

/// The stream format of a negotiated frame format.
pub fn to_stream_format_descriptor(format: FrameFormat) -> (r: StreamFormatDescriptor)
    ensures
        r == (StreamFormatDescriptor {
            payload_type: PayloadType::Image,
            pixel_format: format.pixel_format,
            width: format.width,
            height: format.height,
        }),
{
    StreamFormatDescriptor {
        payload_type: PayloadType::Image,
        pixel_format: format.pixel_format,
        width: format.width,
        height: format.height,
    }
}

/// What an element does with newly negotiated caps.
#[derive(Clone, Copy, Debug, PartialEq, Eq, Structural)]
pub enum CapsDecision {
    /// The first format: adopt it (and configure and start the stream for it).
    Adopt,
    /// The format already in use: nothing to do.
    Keep,
    /// Another format in the middle of a stream: refuse it.
    RejectChange,
}

/// An element keeps the first format it negotiates and refuses any other.
pub fn negotiate_format(current: Option<FrameFormat>, offered: FrameFormat) -> (r: CapsDecision)
    ensures
        current is None ==> r == CapsDecision::Adopt,
        current matches Some(c) ==> (if c == offered {
            r == CapsDecision::Keep
        } else {
            r == CapsDecision::RejectChange
        }),
{
    match current {
        None => CapsDecision::Adopt,
        Some(c) => if c == offered {
            CapsDecision::Keep
        } else {
            CapsDecision::RejectChange
        },
    }
}

} // verus!
