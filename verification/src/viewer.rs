use vstd::prelude::*;

use crate::backend::CoapRegisterBackendConfig;
use crate::control::{copy_control_target, ControlTarget, ControlTransportKind, TargetView};
use crate::controller::{spec_join, DeviceSummary};
use crate::pixel_format::{spec_gst_format, PixelFormat};
use crate::text::{is_blank, owned, push_decimal, push_str, spec_decimal, spec_trim, trim};

verus! {

/// The encoders a recording can use.
#[derive(Clone, Copy, Debug, PartialEq, Eq, Structural)]
pub enum EncoderKind {
    Av1,
    Vp9,
    Theora,
}

/// The file extension of a recording made with an encoder.
pub open spec fn spec_record_extension(kind: EncoderKind) -> Seq<char> {
    match kind {
        EncoderKind::Av1 => "mkv"@,
        EncoderKind::Vp9 => "webm"@,
        EncoderKind::Theora => "ogv"@,
    }
}

/// The file extension of a recording made with an encoder: Matroska for AV1, WebM for VP9,
/// Ogg for Theora.
pub fn record_extension(kind: EncoderKind) -> (r: &'static str)
    ensures
        r@ == spec_record_extension(kind),
{
    match kind {
        EncoderKind::Av1 => "mkv",
        EncoderKind::Vp9 => "webm",
        EncoderKind::Theora => "ogv",
    }
}

/// Whether a path given as text is one plain file name under the path rules of every
/// platform std supports: not empty, not `.` or `..`, and free of the characters that
/// separate components (`/`, and `\` on Windows) or end a drive prefix (`:`).
pub open spec fn spec_plain_file_name(path: Seq<char>) -> bool {
    &&& path.len() > 0
    &&& !(path.len() == 1 && path[0] == '.')
    &&& !(path.len() == 2 && path[0] == '.' && path[1] == '.')
    &&& !path.contains('/')
    &&& !path.contains('\\')
    &&& !path.contains(':')
}

/// The position of the last `.` in a text, if any.
pub open spec fn spec_last_dot(s: Seq<char>) -> Option<int>
    decreases s.len(),
{
    if s.len() == 0 {
        None
    } else if s.last() == '.' {
        Some(s.len() - 1)
    } else {
        spec_last_dot(s.drop_last())
    }
}

/// The stem of a file name as std documents it: the whole name where it holds no `.` or
/// only a leading one, else the part before the last `.`.
pub open spec fn spec_file_stem(name: Seq<char>) -> Seq<char> {
    match spec_last_dot(name) {
        Some(i) => if i == 0 {
            name
        } else {
            name.take(i)
        },
        None => name,
    }
}

/// `Path::with_extension` on a path given as text, read back as text. std's documentation
/// (for `with_extension`, `set_extension` and `file_stem`) gives the result for a plain file
/// name, the same on every platform: its stem, then `.` and the extension where the
/// extension is not empty. For other paths (directories, drive prefixes, a trailing `..`)
/// the result follows each platform's own separator and prefix rules, which differ between
/// Unix and Windows, and nothing is stated. std panics on an extension that holds a path
/// separator, so such extensions are left out.
#[verifier::external_body]
fn path_with_extension(base: &str, extension: &str) -> (r: String)
    requires
        !extension@.contains('/'),
        !extension@.contains('\\'),
    ensures
        spec_plain_file_name(base@) ==> r@ == spec_file_stem(base@) + if extension@.len() == 0 {
            Seq::<char>::empty()
        } else {
            seq!['.'] + extension@
        },
{
    std::path::Path::new(base).with_extension(extension).to_string_lossy().into_owned()
}

/// Where a recording made with `kind` goes: `base` with the encoder's file extension. For a
/// plain file name that is its stem, a `.` and the extension; for other paths it is whatever
/// the platform's `Path::with_extension` gives.
pub fn suggested_record_path(kind: EncoderKind, base: &str) -> (r: String)
    ensures
        spec_plain_file_name(base@) ==> r@ == spec_file_stem(base@) + seq!['.']
            + spec_record_extension(kind),
{
    proof {
        reveal_strlit("mkv");
        reveal_strlit("webm");
        reveal_strlit("ogv");
    }
    path_with_extension(base, record_extension(kind))
}

/// An encoder and the muxer that holds its output.
#[derive(Clone, Copy, Debug, PartialEq, Eq)]
pub struct EncoderSpec {
    pub kind: EncoderKind,
    pub encoder_factory: &'static str,
    pub mux_factory: &'static str,
    pub mux_pad_template: &'static str,
}

/// The element names of an encoder and its muxer.
pub open spec fn spec_encoder_factories(kind: EncoderKind) -> (Seq<char>, Seq<char>) {
    match kind {
        EncoderKind::Av1 => ("rav1enc"@, "matroskamux"@),
        EncoderKind::Vp9 => ("vp9enc"@, "webmmux"@),
        EncoderKind::Theora => ("theoraenc"@, "oggmux"@),
    }
}

/// The encoder and muxer elements of an encoder kind.
pub fn encoder_spec(kind: EncoderKind) -> (r: EncoderSpec)
    ensures
        r.kind == kind,
        (r.encoder_factory@, r.mux_factory@) == spec_encoder_factories(kind),
        r.mux_pad_template@ == "video_%u"@,
{
    match kind {
        EncoderKind::Av1 => EncoderSpec {
            kind,
            encoder_factory: "rav1enc",
            mux_factory: "matroskamux",
            mux_pad_template: "video_%u",
        },
        EncoderKind::Vp9 => EncoderSpec {
            kind,
            encoder_factory: "vp9enc",
            mux_factory: "webmmux",
            mux_pad_template: "video_%u",
        },
        EncoderKind::Theora => EncoderSpec {
            kind,
            encoder_factory: "theoraenc",
            mux_factory: "oggmux",
            mux_pad_template: "video_%u",
        },
    }
}

/// The order in which encoders are tried when none is asked for.
pub open spec fn spec_encoder_order() -> Seq<EncoderKind> {
    seq![EncoderKind::Av1, EncoderKind::Vp9, EncoderKind::Theora]
}

/// Which elements of an encoder are installed: the encoder, and its muxer.
#[derive(Clone, Copy, Debug, PartialEq, Eq, Structural)]
pub struct EncoderAvailability {
    pub encoder: bool,
    pub mux: bool,
}

/// The message for an element that is not installed.
pub open spec fn spec_missing_element_message(factory: Seq<char>) -> Seq<char> {
    "required GStreamer element "@ + factory + " is not available"@
}

/// The encoder a recording uses, given which elements are installed (by encoder kind, in
/// the order AV1, VP9, Theora): the one asked for, which must be installed; otherwise the
/// first whose encoder and muxer are both installed.
pub open spec fn spec_select_encoder(
    requested: Option<EncoderKind>,
    available: Seq<EncoderAvailability>,
) -> Result<EncoderKind, Seq<char>> {
    let index = |k: EncoderKind|
        match k {
            EncoderKind::Av1 => 0int,
            EncoderKind::Vp9 => 1int,
            EncoderKind::Theora => 2int,
        };
    match requested {
        Some(k) => {
            let a = available[index(k)];
            if !a.encoder {
                Err(spec_missing_element_message(spec_encoder_factories(k).0))
            } else if !a.mux {
                Err(spec_missing_element_message(spec_encoder_factories(k).1))
            } else {
                Ok(k)
            }
        },
        None => if available[0].encoder && available[0].mux {
            Ok(EncoderKind::Av1)
        } else if available[1].encoder && available[1].mux {
            Ok(EncoderKind::Vp9)
        } else if available[2].encoder && available[2].mux {
            Ok(EncoderKind::Theora)
        } else {
            Err(
                "no supported open encoder/mux pair is available; tried rav1enc, vp9enc, theoraenc"@,
            )
        },
    }
}

fn availability_of(kind: EncoderKind, available: &[EncoderAvailability]) -> (r: EncoderAvailability)
    requires
        available@.len() == 3,
    ensures
        r == available@[match kind {
            EncoderKind::Av1 => 0int,
            EncoderKind::Vp9 => 1int,
            EncoderKind::Theora => 2int,
        }],
{
    match kind {
        EncoderKind::Av1 => available[0],
        EncoderKind::Vp9 => available[1],
        EncoderKind::Theora => available[2],
    }
}

/// Chooses the recording encoder from what is installed.
pub fn select_encoder(requested: Option<EncoderKind>, available: &[EncoderAvailability]) -> (r:
    Result<EncoderSpec, String>)
    requires
        available@.len() == 3,
    ensures
        match spec_select_encoder(requested, available@) {
            Ok(k) => r matches Ok(s) && s.kind == k && (s.encoder_factory@, s.mux_factory@)
                == spec_encoder_factories(k),
            Err(m) => r matches Err(e) && e@ == m,
        },
{
    match requested {
        Some(k) => {
            let a = availability_of(k, available);
            let spec = encoder_spec(k);
            if !a.encoder {
                let mut m = owned("required GStreamer element ");
                push_str(&mut m, spec.encoder_factory);
                push_str(&mut m, " is not available");
                return Err(m);
            }
            if !a.mux {
                let mut m = owned("required GStreamer element ");
                push_str(&mut m, spec.mux_factory);
                push_str(&mut m, " is not available");
                return Err(m);
            }
            Ok(spec)
        },
        None => {
            if available[0].encoder && available[0].mux {
                Ok(encoder_spec(EncoderKind::Av1))
            } else if available[1].encoder && available[1].mux {
                Ok(encoder_spec(EncoderKind::Vp9))
            } else if available[2].encoder && available[2].mux {
                Ok(encoder_spec(EncoderKind::Theora))
            } else {
                Err(
                    owned(
                        "no supported open encoder/mux pair is available; tried rav1enc, vp9enc, theoraenc",
                    ),
                )
            }
        },
    }
}

/// The counters of a receiving source that the viewer reports.
#[derive(Clone, Copy, Debug, Default, PartialEq, Eq, Structural)]
pub struct SourceStats {
    pub frames_received: u64,
    pub frames_dropped: u64,
    pub packet_anomalies: u64,
    pub timeout_drops: u64,
    pub payload_overflow_drops: u64,
    pub short_frame_drops: u64,
    pub duplicate_leader_drops: u64,
    pub payload_before_leader_drops: u64,
    pub trailer_before_leader_drops: u64,
    pub packet_after_trailer_drops: u64,
    pub parse_failures: u64,
    pub expected_format_mismatches: u64,
    pub midstream_format_changes: u64,
}

/// The anomaly counters with their labels, in report order.
pub open spec fn spec_anomaly_entries(s: SourceStats) -> Seq<(Seq<char>, u64)> {
    seq![
        ("timeout-drops"@, s.timeout_drops),
        ("payload-overflow-drops"@, s.payload_overflow_drops),
        ("short-frame-drops"@, s.short_frame_drops),
        ("duplicate-leader-drops"@, s.duplicate_leader_drops),
        ("payload-before-leader-drops"@, s.payload_before_leader_drops),
        ("trailer-before-leader-drops"@, s.trailer_before_leader_drops),
        ("packet-after-trailer-drops"@, s.packet_after_trailer_drops),
        ("parse-failures"@, s.parse_failures),
        ("expected-format-mismatches"@, s.expected_format_mismatches),
        ("midstream-format-changes"@, s.midstream_format_changes),
    ]
}

/// The `label=value` items of the counters that are not zero, in order.
pub open spec fn spec_rendered_entries(entries: Seq<(Seq<char>, u64)>) -> Seq<Seq<char>>
    decreases entries.len(),
{
    if entries.len() == 0 {
        Seq::empty()
    } else {
        let rest = spec_rendered_entries(entries.drop_last());
        let (label, value) = entries.last();
        if value > 0 {
            rest.push(label + "="@ + spec_decimal(value as nat))
        } else {
            rest
        }
    }
}

/// The anomaly breakdown: the non-zero anomaly counters, comma-separated; none where all are
/// zero.
pub open spec fn spec_anomaly_breakdown(s: SourceStats) -> Option<Seq<char>> {
    let items = spec_rendered_entries(spec_anomaly_entries(s));
    if items.len() == 0 {
        None
    } else {
        Some(spec_join(items, ","@))
    }
}

/// Renders the anomaly breakdown of the counters.
pub fn format_source_anomaly_breakdown(stats: SourceStats) -> (r: Option<String>)
    ensures
        match spec_anomaly_breakdown(stats) {
            Some(b) => r matches Some(s) && s@ == b,
            None => r is None,
        },
{
    let mut entries: Vec<(&'static str, u64)> = Vec::new();
    entries.push(("timeout-drops", stats.timeout_drops));
    entries.push(("payload-overflow-drops", stats.payload_overflow_drops));
    entries.push(("short-frame-drops", stats.short_frame_drops));
    entries.push(("duplicate-leader-drops", stats.duplicate_leader_drops));
    entries.push(("payload-before-leader-drops", stats.payload_before_leader_drops));
    entries.push(("trailer-before-leader-drops", stats.trailer_before_leader_drops));
    entries.push(("packet-after-trailer-drops", stats.packet_after_trailer_drops));
    entries.push(("parse-failures", stats.parse_failures));
    entries.push(("expected-format-mismatches", stats.expected_format_mismatches));
    entries.push(("midstream-format-changes", stats.midstream_format_changes));
    let ghost ev = entries@.map_values(|e: (&'static str, u64)| (e.0@, e.1));
    assert(ev =~= spec_anomaly_entries(stats));
    let mut out = String::new();
    let mut count: usize = 0;
    let mut i: usize = 0;
    while i < entries.len()
        invariant
            ev == entries@.map_values(|e: (&'static str, u64)| (e.0@, e.1)),
            i <= entries@.len(),
            count == spec_rendered_entries(ev.subrange(0, i as int)).len(),
            count <= i,
            out@ == spec_join(spec_rendered_entries(ev.subrange(0, i as int)), ","@),
        decreases entries@.len() - i,
    {
        let (label, value) = entries[i];
        let ghost sub = ev.subrange(0, i + 1);
        proof {
            assert(sub.drop_last() =~= ev.subrange(0, i as int));
            assert(sub.last() == (label@, value));
        }
        if value > 0 {
            if count > 0 {
                push_str(&mut out, ",");
            }
            push_str(&mut out, label);
            push_str(&mut out, "=");
            push_decimal(&mut out, value);
            count = count + 1;
            proof {
                let items = spec_rendered_entries(sub);
                let prev = spec_rendered_entries(ev.subrange(0, i as int));
                assert(items == prev.push(label@ + "="@ + spec_decimal(value as nat)));
                assert(items.drop_last() =~= prev);
                assert(out@ =~= spec_join(items, ","@));
            }
        }
        i = i + 1;
    }
    assert(ev.subrange(0, entries@.len() as int) =~= ev);
    if count == 0 {
        None
    } else {
        Some(out)
    }
}

/// The one-line report of the counters: frames received and dropped, packet anomalies, and
/// the breakdown of the anomalies where there is one.
pub open spec fn spec_source_stats_text(s: SourceStats) -> Seq<char> {
    "frames-received="@ + spec_decimal(s.frames_received as nat) + " frames-dropped="@
        + spec_decimal(s.frames_dropped as nat) + " packet-anomalies="@ + spec_decimal(
        s.packet_anomalies as nat,
    ) + match spec_anomaly_breakdown(s) {
        Some(b) => " anomaly-breakdown=["@ + b + "]"@,
        None => Seq::empty(),
    }
}

/// Renders the counters of a receiving source on one line.
pub fn format_source_stats(stats: SourceStats) -> (r: String)
    ensures
        r@ == spec_source_stats_text(stats),
{
    let mut s = owned("frames-received=");
    push_decimal(&mut s, stats.frames_received);
    push_str(&mut s, " frames-dropped=");
    push_decimal(&mut s, stats.frames_dropped);
    push_str(&mut s, " packet-anomalies=");
    push_decimal(&mut s, stats.packet_anomalies);
    match format_source_anomaly_breakdown(stats) {
        Some(b) => {
            push_str(&mut s, " anomaly-breakdown=[");
            push_str(&mut s, b.as_str());
            push_str(&mut s, "]");
        },
        None => {},
    }
    s
}

/// The outcome of a viewing run, with the source's counters added to any failure: to the
/// failure of the run or of stopping the pipeline, and to both where both failed.
pub open spec fn spec_finalize(
    run: Result<(), Seq<char>>,
    stop: Result<(), Seq<char>>,
    stats: SourceStats,
) -> Result<(), Seq<char>> {
    let report = "source stats: "@ + spec_source_stats_text(stats);
    match (run, stop) {
        (Ok(()), Ok(())) => Ok(()),
        (Err(e), Ok(())) => Err(report + ": "@ + e),
        (Ok(()), Err(s)) => Err(report + ": "@ + s),
        (Err(e), Err(s)) => Err(e + "\nadditionally failed to stop pipeline: "@ + s + "\n"@ + report),
    }
}

/// Combines the outcome of a viewing run and of stopping its pipeline.
pub fn finalize_run_result(
    run_result: Result<(), String>,
    stop_result: Result<(), String>,
    source_stats: SourceStats,
) -> (r: Result<(), String>)
    ensures
        spec_finalize(
            match run_result {
                Ok(()) => Ok(()),
                Err(e) => Err(e@),
            },
            match stop_result {
                Ok(()) => Ok(()),
                Err(e) => Err(e@),
            },
            source_stats,
        ) == match r {
            Ok(()) => Ok::<(), Seq<char>>(()),
            Err(e) => Err(e@),
        },
{
    let mut report = owned("source stats: ");
    let stats_text = format_source_stats(source_stats);
    push_str(&mut report, stats_text.as_str());
    match (run_result, stop_result) {
        (Ok(()), Ok(())) => Ok(()),
        (Err(e), Ok(())) => {
            push_str(&mut report, ": ");
            push_str(&mut report, e.as_str());
            Err(report)
        },
        (Ok(()), Err(s)) => {
            push_str(&mut report, ": ");
            push_str(&mut report, s.as_str());
            Err(report)
        },
        (Err(e), Err(s)) => {
            let mut m = owned(e.as_str());
            push_str(&mut m, "\nadditionally failed to stop pipeline: ");
            push_str(&mut m, s.as_str());
            push_str(&mut m, "\n");
            push_str(&mut m, report.as_str());
            Err(m)
        },
    }
}

/// The transport that managed control asks the device for: packet size and delay.
#[derive(Clone, Copy, Debug, PartialEq, Eq, Structural)]
pub struct ManagedTransportSettings {
    pub max_packet_size: u16,
    pub packet_delay_ns: u64,
}

impl Default for ManagedTransportSettings {
    /// 1400-byte packets, no delay.
    fn default() -> (r: Self)
        ensures
            r == (ManagedTransportSettings { max_packet_size: 1400, packet_delay_ns: 0 }),
    {
        ManagedTransportSettings { max_packet_size: 1400, packet_delay_ns: 0 }
    }
}

/// The managed transport with the given overrides, else the defaults.
pub fn select_managed_transport_settings(
    max_packet_size_override: Option<u16>,
    packet_delay_override: Option<u64>,
) -> (r: ManagedTransportSettings)
    ensures
        r.max_packet_size == match max_packet_size_override {
            Some(v) => v,
            None => 1400u16,
        },
        r.packet_delay_ns == match packet_delay_override {
            Some(v) => v,
            None => 0u64,
        },
{
    let max_packet_size = match max_packet_size_override {
        Some(v) => v,
        None => 1400,
    };
    let packet_delay_ns = match packet_delay_override {
        Some(v) => v,
        None => 0,
    };
    ManagedTransportSettings { max_packet_size, packet_delay_ns }
}

/// The mode a device advertises for a stream.
#[derive(Clone, Copy, Debug, PartialEq, Eq, Structural)]
pub struct AdvertisedStreamMode {
    pub pixel_format: PixelFormat,
    pub width: u32,
    pub height: u32,
    pub fps: u32,
}

/// The overlay text that shows a stream's mode.
pub fn format_mode_overlay_text(mode: &AdvertisedStreamMode) -> (r: String)
    ensures
        r@ == "Mode: "@ + spec_gst_format(mode.pixel_format) + " "@ + spec_decimal(
            mode.width as nat,
        ) + "x"@ + spec_decimal(mode.height as nat) + " @ "@ + spec_decimal(mode.fps as nat)
            + " fps"@,
{
    let mut s = owned("Mode: ");
    push_str(&mut s, mode.pixel_format.gst_format());
    push_str(&mut s, " ");
    push_decimal(&mut s, mode.width as u64);
    push_str(&mut s, "x");
    push_decimal(&mut s, mode.height as u64);
    push_str(&mut s, " @ ");
    push_decimal(&mut s, mode.fps as u64);
    push_str(&mut s, " fps");
    s
}

/// A recording: the file to write, and the encoder if one was chosen.
#[derive(Clone, Debug, PartialEq, Eq)]
pub struct RecordingConfig {
    pub path: String,
    pub encoder: Option<EncoderKind>,
}

/// The encoder of a recording.
pub type RecordingEncoder = EncoderKind;

/// The recording part of the operator console's form.
#[derive(Clone, Debug, PartialEq, Eq)]
pub struct RecordingForm {
    pub enabled: bool,
    pub path: String,
    pub encoder: Option<RecordingEncoder>,
}

impl Default for RecordingForm {
    /// Recording off, no path, no encoder chosen.
    fn default() -> (r: Self)
        ensures
            !r.enabled,
            r.path@ == Seq::<char>::empty(),
            r.encoder is None,
    {
        RecordingForm { enabled: false, path: String::new(), encoder: None }
    }
}

/// Why the recording form gives no recording, if it does not: recording is off, or no path
/// was given.
pub open spec fn spec_recording_problem(f: RecordingForm) -> Option<Seq<char>> {
    if !f.enabled {
        Some("recording is disabled"@)
    } else if f.path@.len() == 0 {
        Some("recording path is required"@)
    } else {
        None
    }
}

impl RecordingForm {
    /// The recording the form describes.
    pub fn to_recording_config(&self) -> (r: Result<RecordingConfig, String>)
        ensures
            match spec_recording_problem(*self) {
                Some(m) => r matches Err(e) && e@ == m,
                None => r matches Ok(c) && c.path@ == self.path@ && c.encoder == self.encoder,
            },
    {
        if !self.enabled {
            return Err(owned("recording is disabled"));
        }
        if self.path.unicode_len() == 0 {
            return Err(owned("recording path is required"));
        }
        Ok(RecordingConfig { path: self.path.clone(), encoder: self.encoder })
    }
}

/// What a viewing session needs: the device, where to receive, the stream, the source's
/// timeouts in milliseconds, the managed transport, and an optional recording and overlay.
#[derive(Clone, Debug, PartialEq, Eq)]
pub struct ViewerSessionConfig {
    pub target: ControlTarget,
    pub bind_address: String,
    pub port: u32,
    pub source_timeout_ms: u64,
    pub latency_ms: u64,
    pub stream_name: String,
    pub managed_transport: ManagedTransportSettings,
    pub recording: Option<RecordingConfig>,
    pub overlay_text: Option<String>,
}

/// Why a session configuration cannot start, if it cannot: a blank device URI, bind
/// address or stream name, or a recording without a path.
pub open spec fn spec_session_problem(c: ViewerSessionConfig) -> Option<Seq<char>> {
    if spec_trim(c.target.device_uri@).len() == 0 {
        Some("device URI is required"@)
    } else if spec_trim(c.bind_address@).len() == 0 {
        Some("bind address is required"@)
    } else if spec_trim(c.stream_name@).len() == 0 {
        Some("stream name is required"@)
    } else if c.recording matches Some(r) && r.path@.len() == 0 {
        Some("record path is required when recording is enabled"@)
    } else {
        None
    }
}

/// Checks a session configuration before the pipeline is built.
pub fn validate_session_config(config: &ViewerSessionConfig) -> (r: Result<(), String>)
    ensures
        match spec_session_problem(*config) {
            Some(m) => r matches Err(e) && e@ == m,
            None => r is Ok,
        },
{
    if is_blank(config.target.device_uri.as_str()) {
        return Err(owned("device URI is required"));
    }
    if is_blank(config.bind_address.as_str()) {
        return Err(owned("bind address is required"));
    }
    if is_blank(config.stream_name.as_str()) {
        return Err(owned("stream name is required"));
    }
    match &config.recording {
        Some(r) => {
            if r.path.unicode_len() == 0 {
                return Err(owned("record path is required when recording is enabled"));
            }
        },
        None => {},
    }
    Ok(())
}

/// The form of the operator console.
#[derive(Clone, Debug, PartialEq, Eq)]
pub struct OperatorConsoleState {
    pub devices: Vec<DeviceSummary>,
    pub selected_device: Option<usize>,
    pub manual_device_uri: String,
    pub iface: String,
    pub bind_address: String,
    pub stream_name: String,
    pub port: u32,
    pub timeout_ms: u64,
    pub source_timeout_ms: u64,
    pub latency_ms: u64,
    pub max_packet_size: u16,
    pub packet_delay_ns: u64,
    pub recording: RecordingForm,
    pub locked: bool,
}

impl Default for OperatorConsoleState {
    /// No device, receiving on 127.0.0.1:5000 for `stream0`, one-second requests, two-second
    /// source timeout, 1400-byte packets, no recording, unlocked.
    fn default() -> (r: Self)
        ensures
            r.devices@.len() == 0,
            r.selected_device is None,
            r.manual_device_uri@ == Seq::<char>::empty(),
            r.iface@ == Seq::<char>::empty(),
            r.bind_address@ == "127.0.0.1"@,
            r.stream_name@ == "stream0"@,
            r.port == 5000,
            r.timeout_ms == 1000,
            r.source_timeout_ms == 2000,
            r.latency_ms == 0,
            r.max_packet_size == 1400,
            r.packet_delay_ns == 0,
            !r.recording.enabled,
            r.recording.path@ == Seq::<char>::empty(),
            r.recording.encoder is None,
            !r.locked,
    {
        OperatorConsoleState {
            devices: Vec::new(),
            selected_device: None,
            manual_device_uri: String::new(),
            iface: String::new(),
            bind_address: owned("127.0.0.1"),
            stream_name: owned("stream0"),
            port: 5000,
            timeout_ms: 1000,
            source_timeout_ms: 2000,
            latency_ms: 0,
            max_packet_size: 1400,
            packet_delay_ns: 0,
            recording: RecordingForm::default(),
            locked: false,
        }
    }
}

/// The device the console targets: the selected discovered device where one is selected,
/// else the typed URI (trimmed) where one is typed.
pub open spec fn spec_console_target(s: OperatorConsoleState) -> Option<TargetView> {
    if s.selected_device is Some && s.selected_device->0 < s.devices@.len() {
        Some(s.devices@[s.selected_device->0 as int].target@)
    } else if spec_trim(s.manual_device_uri@).len() == 0 {
        None
    } else {
        Some(
            TargetView {
                device_uri: spec_trim(s.manual_device_uri@),
                transport_kind: ControlTransportKind::CoapRegister,
                auth_scope: None,
            },
        )
    }
}

/// Whether the console can start a session: it is not running one, it has a target, a bind
/// address and a stream name, and any recording it asks for has a path.
pub open spec fn spec_can_start(s: OperatorConsoleState) -> bool {
    &&& !s.locked
    &&& spec_console_target(s) is Some
    &&& spec_trim(s.bind_address@).len() > 0
    &&& spec_trim(s.stream_name@).len() > 0
    &&& (!s.recording.enabled || spec_recording_problem(s.recording) is None)
}

/// A form field as an optional setting: its trimmed text, or none where it is blank.
pub open spec fn spec_empty_to_none(value: Seq<char>) -> Option<Seq<char>> {
    if spec_trim(value).len() == 0 {
        None
    } else {
        Some(spec_trim(value))
    }
}

/// A form field as an optional setting: its trimmed text, or none where it is blank.
pub fn empty_to_none(value: &str) -> (r: Option<String>)
    ensures
        match r {
            Some(t) => spec_empty_to_none(value@) == Some(t@),
            None => spec_empty_to_none(value@) is None,
        },
{
    let trimmed = trim(value);
    if trimmed.unicode_len() == 0 {
        None
    } else {
        Some(owned(trimmed))
    }
}

impl OperatorConsoleState {
    /// How the console reaches devices: the interface the form names, if any, the form's
    /// timeout for discovery and requests, no description store, and any local port.
    pub fn backend_config(&self) -> (r: CoapRegisterBackendConfig)
        ensures
            match r.interface_name {
                Some(i) => spec_empty_to_none(self.iface@) == Some(i@),
                None => spec_empty_to_none(self.iface@) is None,
            },
            r.discovery_timeout_ms == self.timeout_ms,
            r.request_timeout_ms == self.timeout_ms,
            r.yaml_root is None,
            r.local_port == 0,
    {
        CoapRegisterBackendConfig {
            interface_name: empty_to_none(self.iface.as_str()),
            discovery_timeout_ms: self.timeout_ms,
            request_timeout_ms: self.timeout_ms,
            yaml_root: None,
            local_port: 0,
        }
    }

    /// Whether a session can start.
    pub fn can_start(&self) -> (r: bool)
        ensures
            r == spec_can_start(*self),
    {
        !self.locked && self.target().is_some() && !is_blank(self.bind_address.as_str())
            && !is_blank(self.stream_name.as_str()) && (!self.recording.enabled
            || self.recording.to_recording_config().is_ok())
    }

    /// The device the console targets.
    pub fn target(&self) -> (r: Option<ControlTarget>)
        ensures
            match spec_console_target(*self) {
                Some(t) => r matches Some(target) && target@ == t,
                None => r is None,
            },
    {
        match self.selected_device {
            Some(index) => {
                if index < self.devices.len() {
                    return Some(copy_control_target(&self.devices[index].target));
                }
            },
            None => {},
        }
        let device_uri = trim(self.manual_device_uri.as_str());
        if device_uri.unicode_len() == 0 {
            None
        } else {
            Some(
                ControlTarget {
                    device_uri: owned(device_uri),
                    transport_kind: ControlTransportKind::CoapRegister,
                    auth_scope: None,
                },
            )
        }
    }

    /// The session the console starts: its target, receive settings, transport and
    /// recording; an error without a target or with an incomplete recording.
    pub fn session_config(&self) -> (r: Result<ViewerSessionConfig, String>)
        ensures
            spec_console_target(*self) is None ==> (r matches Err(e) && e@
                == "device is required"@),
            spec_console_target(*self) matches Some(t) ==> (if self.recording.enabled
                && spec_recording_problem(self.recording) is Some {
                r matches Err(e) && Some(e@) == spec_recording_problem(self.recording)
            } else {
                r matches Ok(c) && c.target@ == t && c.bind_address@ == self.bind_address@
                    && c.port == self.port && c.source_timeout_ms == self.source_timeout_ms
                    && c.latency_ms == self.latency_ms && c.stream_name@ == self.stream_name@
                    && c.managed_transport == (ManagedTransportSettings {
                    max_packet_size: self.max_packet_size,
                    packet_delay_ns: self.packet_delay_ns,
                }) && (self.recording.enabled <==> c.recording is Some) && (c.recording matches Some(
                    rc,
                ) ==> rc.path@ == self.recording.path@ && rc.encoder == self.recording.encoder)
                    && c.overlay_text is None
            }),
    {
        let target = match self.target() {
            Some(t) => t,
            None => return Err(owned("device is required")),
        };
        let recording = if self.recording.enabled {
            match self.recording.to_recording_config() {
                Ok(c) => Some(c),
                Err(e) => return Err(e),
            }
        } else {
            None
        };
        Ok(
            ViewerSessionConfig {
                target,
                bind_address: self.bind_address.clone(),
                port: self.port,
                source_timeout_ms: self.source_timeout_ms,
                latency_ms: self.latency_ms,
                stream_name: self.stream_name.clone(),
                managed_transport: ManagedTransportSettings {
                    max_packet_size: self.max_packet_size,
                    packet_delay_ns: self.packet_delay_ns,
                },
                recording,
                overlay_text: None,
            },
        )
    }
}

} // verus!
