use vstd::prelude::*;

use crate::compat_profile::StreamProfileId;
use crate::compat_stream::PayloadType;
use crate::control::{
    control_error, AppliedStreamConfiguration, AppliedView, ControlCapabilities, ControlError,
    ControlErrorKind, ControlTarget, ControlTransportKind, DiscoveredDevice,
    RequestedStreamConfiguration, RunningStream, StreamFormatDescriptor,
};
use crate::register_map::FieldUpdate;
use crate::session::RunningView;
use crate::pixel_format::{
    lemma_pfnc_injective, pixel_format_from_device_bits, spec_from_device_bits, spec_pfnc,
    PixelFormat,
};
use crate::register_map::{error_is, register_name};
use crate::string_map::{key_index, keys_sorted, lemma_sorted_index};
use crate::text::{
    ends_with, owned, push_char, push_decimal, push_hex_padded, push_str, spec_decimal,
    spec_ends_with, spec_find, spec_hex_padded, spec_split, spec_trim, split_char,
    split_once_char, str_chars, str_eq, trim,
};
use crate::yaml::{DeviceConfig, DeviceRegisterValue};

verus! {

/// The UDP port of CoAP, where devices listen unless a URI names another.
pub const COAP_PORT: u16 = 5683;

/// How the CoAP register backend reaches devices: the interface to prefer, the discovery and
/// request timeouts in milliseconds, where device descriptions are kept, and the local port.
#[derive(Clone, Debug, PartialEq, Eq)]
pub struct CoapRegisterBackendConfig {
    pub interface_name: Option<String>,
    pub discovery_timeout_ms: u64,
    pub request_timeout_ms: u64,
    pub yaml_root: Option<String>,
    pub local_port: u16,
}

impl Default for CoapRegisterBackendConfig {
    /// Any interface, three seconds of discovery, one second per request, no description
    /// store, any local port.
    fn default() -> (r: Self)
        ensures
            r.interface_name is None,
            r.discovery_timeout_ms == 3000,
            r.request_timeout_ms == 1000,
            r.yaml_root is None,
            r.local_port == 0,
    {
        CoapRegisterBackendConfig {
            interface_name: None,
            discovery_timeout_ms: 3000,
            request_timeout_ms: 1000,
            yaml_root: None,
            local_port: 0,
        }
    }
}

/// The backend that controls devices through their CoAP register interface.
#[derive(Clone, Debug)]
pub struct CoapRegisterBackend {
    config: CoapRegisterBackendConfig,
}

impl CoapRegisterBackend {
    /// The configuration the backend was made with.
    pub closed spec fn spec_config(&self) -> CoapRegisterBackendConfig {
        self.config
    }

    /// A backend with `config`.
    pub fn new(config: CoapRegisterBackendConfig) -> (r: Self)
        ensures
            r.spec_config() == config,
    {
        CoapRegisterBackend { config }
    }

    /// The backend's configuration.
    pub fn config(&self) -> (r: &CoapRegisterBackendConfig)
        ensures
            *r == self.spec_config(),
    {
        &self.config
    }
}

/// A device URI after its `coap://` scheme, if it has one.
pub open spec fn spec_after_scheme(t: Seq<char>) -> Seq<char> {
    if t.len() >= 7 && t.subrange(0, 7) == "coap://"@ {
        t.subrange(7, t.len() as int)
    } else {
        t
    }
}

/// The `host:port` a device URI names: the authority before any path, with the CoAP port
/// added where the authority names none; an error for a blank URI.
pub open spec fn spec_device_authority(uri: Seq<char>) -> Result<Seq<char>, Seq<char>> {
    let t = spec_trim(uri);
    if t.len() == 0 {
        Err("control target does not specify a device URI"@)
    } else {
        let authority = spec_split(spec_after_scheme(t), '/')[0];
        if (authority.len() > 0 && authority[0] == '[') || spec_find(authority, ':') is Some {
            Ok(authority)
        } else {
            Ok(authority + ":"@ + spec_decimal(COAP_PORT as nat))
        }
    }
}

/// The `host:port` that a device URI names, to be resolved to a socket address.
pub fn parse_device_authority(device_uri: &str) -> (r: Result<String, ControlError>)
    ensures
        match spec_device_authority(device_uri@) {
            Ok(a) => r matches Ok(s) && s@ == a,
            Err(m) => r matches Err(e) && error_is(e, ControlErrorKind::Connection, m),
        },
{
    let t = trim(device_uri);
    let n = t.unicode_len();
    if n == 0 {
        return Err(
            control_error(
                ControlErrorKind::Connection,
                "control target does not specify a device URI",
            ),
        );
    }
    let raw = if n >= 7 && str_eq(t.substring_char(0, 7), "coap://") {
        t.substring_char(7, n)
    } else {
        t
    };
    let parts = split_char(raw, '/');
    let authority = parts[0];
    let bracketed = authority.unicode_len() > 0 && authority.get_char(0) == '[';
    let has_port = split_once_char(authority, ':').is_some();
    let mut out = owned(authority);
    if !(bracketed || has_port) {
        push_str(&mut out, ":");
        push_decimal(&mut out, COAP_PORT as u64);
    }
    Ok(out)
}

/// A character kept in a file name: ASCII letters and digits, `-` and `_`.
pub open spec fn spec_file_name_char(c: char) -> bool {
    ('a' <= c <= 'z') || ('A' <= c <= 'Z') || ('0' <= c <= '9') || c == '-' || c == '_'
}

/// A text with every character that a file name does not keep replaced by `_`.
pub open spec fn spec_sanitize(s: Seq<char>) -> Seq<char> {
    s.map_values(|c: char| if spec_file_name_char(c) { c } else { '_' })
}

/// Replaces every character that a file name does not keep by `_`.
pub fn sanitize_filename(value: &str) -> (r: String)
    ensures
        r@ == spec_sanitize(value@),
{
    let chars = str_chars(value);
    let mut out = String::new();
    let mut i: usize = 0;
    while i < chars.len()
        invariant
            chars@ == value@,
            i <= chars@.len(),
            out@ == spec_sanitize(value@).subrange(0, i as int),
        decreases chars@.len() - i,
    {
        let c = chars[i];
        let keep = ('a' <= c && c <= 'z') || ('A' <= c && c <= 'Z') || ('0' <= c && c <= '9') || c
            == '-' || c == '_';
        if keep {
            push_char(&mut out, c);
        } else {
            push_char(&mut out, '_');
        }
        i = i + 1;
        assert(out@ =~= spec_sanitize(value@).subrange(0, i as int));
    }
    assert(spec_sanitize(value@).subrange(0, i as int) =~= spec_sanitize(value@));
    out
}

/// The file name under which a device's description is kept.
pub open spec fn spec_device_yaml_file_name(host: Seq<char>, port: u16) -> Seq<char> {
    spec_sanitize(host + "_"@ + spec_decimal(port as nat)) + ".yaml"@
}

/// The file name under which the description of the device at `host` and `port` is kept.
pub fn device_yaml_file_name(host: &str, port: u16) -> (r: String)
    ensures
        r@ == spec_device_yaml_file_name(host@, port),
{
    let mut base = owned(host);
    push_str(&mut base, "_");
    push_decimal(&mut base, port as u64);
    let mut out = sanitize_filename(base.as_str());
    push_str(&mut out, ".yaml");
    out
}

/// The low 32 bits of a register value.
pub open spec fn low32(v: u64) -> u32 {
    (v % 0x1_0000_0000) as u32
}

/// Whether a named register advertises pixel format `f`: a `_PixelFormat` register whose
/// value, read as a device pixel-format code, is `f`.
pub open spec fn spec_register_advertises(
    name: Seq<char>,
    value: DeviceRegisterValue,
    f: PixelFormat,
) -> bool {
    &&& spec_ends_with(name, "_PixelFormat"@)
    &&& value.int_value matches Some(v) && spec_from_device_bits(low32(v)) == Some(f)
}

/// Whether any register of a device advertises pixel format `f`.
pub open spec fn spec_advertises(registers: Map<Seq<char>, DeviceRegisterValue>, f: PixelFormat) -> bool {
    exists|name: Seq<char>|
        #[trigger] registers.contains_key(name) && spec_register_advertises(name, registers[name], f)
}

/// Whether a device has a `_Delay` register.
pub open spec fn spec_has_delay_register(registers: Map<Seq<char>, DeviceRegisterValue>) -> bool {
    exists|name: Seq<char>| #[trigger] registers.contains_key(name) && spec_ends_with(name, "_Delay"@)
}

/// Whether pixel formats come in strictly increasing order of PFNC code.
pub open spec fn pfnc_ascending(s: Seq<PixelFormat>) -> bool {
    forall|i: int, j: int| 0 <= i < j < s.len() ==> spec_pfnc(#[trigger] s[i]) < spec_pfnc(#[trigger] s[j])
}

/// Adds `f` to formats kept in ascending PFNC order, once.
fn insert_format(formats: &mut Vec<PixelFormat>, f: PixelFormat)
    requires
        pfnc_ascending(old(formats)@),
    ensures
        pfnc_ascending(final(formats)@),
        forall|x: PixelFormat| #[trigger] final(formats)@.contains(x) <==> (old(formats)@.contains(x)
            || x == f),
{
    let code = f.pfnc();
    let mut p: usize = 0;
    while p < formats.len() && formats[p].pfnc() < code
        invariant
            pfnc_ascending(formats@),
            code == spec_pfnc(f),
            p <= formats@.len(),
            forall|j: int| 0 <= j < p ==> spec_pfnc(#[trigger] formats@[j]) < code,
        decreases formats@.len() - p,
    {
        p = p + 1;
    }
    if p < formats.len() && formats[p].pfnc() == code {
        proof {
            lemma_pfnc_injective(formats@[p as int], f);
        }
        return;
    }
    let ghost before = formats@;
    formats.insert(p, f);
    proof {
        let after = formats@;
        assert forall|i: int, j: int| 0 <= i < j < after.len() implies spec_pfnc(
            #[trigger] after[i],
        ) < spec_pfnc(#[trigger] after[j]) by {
            if j < p {
                assert(after[i] == before[i] && after[j] == before[j]);
            } else if j == p {
                assert(after[i] == before[i]);
            } else if i < p {
                assert(after[i] == before[i] && after[j] == before[j - 1]);
                assert(spec_pfnc(before[p as int]) > code);
            } else if i == p {
                assert(after[j] == before[j - 1]);
                assert(spec_pfnc(before[p as int]) > code);
            } else {
                assert(after[i] == before[i - 1] && after[j] == before[j - 1]);
            }
        }
        assert forall|x: PixelFormat| #[trigger] after.contains(x) <==> (before.contains(x) || x
            == f) by {
            if after.contains(x) {
                let k = choose|k: int| 0 <= k < after.len() && after[k] == x;
                if k < p {
                    assert(before[k] == x);
                } else if k > p {
                    assert(before[k - 1] == x);
                }
            }
            if before.contains(x) {
                let k = choose|k: int| 0 <= k < before.len() && before[k] == x;
                if k < p {
                    assert(after[k] == x);
                } else {
                    assert(after[k + 1] == x);
                }
            }
            if x == f {
                assert(after[p as int] == f);
            }
        }
    }
}

/// What a described device supports: the compatibility profile, the pixel formats that its
/// `_PixelFormat` registers advertise (once each, in ascending PFNC order), multicast where
/// its capabilities say so, packet pacing where it has a `_Delay` register, and no native
/// framing.
pub fn device_capabilities(device: &DeviceConfig) -> (r: ControlCapabilities)
    ensures
        r.supported_profiles@ == seq![StreamProfileId::CompatibilityV1],
        pfnc_ascending(r.supported_pixel_formats@),
        forall|f: PixelFormat| #[trigger]
            r.supported_pixel_formats@.contains(f) <==> spec_advertises(device.registers@, f),
        r.multicast_supported == device.capabilities.mult_addr,
        r.packet_pacing_supported == spec_has_delay_register(device.registers@),
        !r.native_framing_supported,
{
    let pairs = device.registers.as_slice();
    let ghost pv = pairs@;
    let mut formats: Vec<PixelFormat> = Vec::new();
    let mut pacing = false;
    let mut i: usize = 0;
    while i < pairs.len()
        invariant
            pairs@ == pv,
            pv == device.registers.pairs(),
            keys_sorted(pv),
            i <= pv.len(),
            pfnc_ascending(formats@),
            forall|f: PixelFormat| #[trigger]
                formats@.contains(f) <==> exists|j: int|
                    0 <= j < i && spec_register_advertises((#[trigger] pv[j]).0@, pv[j].1, f),
            pacing <==> exists|j: int| 0 <= j < i && spec_ends_with((#[trigger] pv[j]).0@, "_Delay"@),
        decreases pv.len() - i,
    {
        let name = pairs[i].0.as_str();
        let ghost before = formats@;
        let ghost found: Option<PixelFormat> = None;
        if ends_with(name, "_PixelFormat") {
            match pairs[i].1.int_value {
                Some(v) => {
                    match pixel_format_from_device_bits((v % 0x1_0000_0000) as u32) {
                        Some(f) => {
                            insert_format(&mut formats, f);
                            proof {
                                found = Some(f);
                            }
                        },
                        None => {},
                    }
                },
                None => {},
            }
        }
        if ends_with(name, "_Delay") {
            pacing = true;
        }
        proof {
            assert forall|f: PixelFormat| #[trigger]
                formats@.contains(f) <==> exists|j: int|
                    0 <= j < i + 1 && spec_register_advertises((#[trigger] pv[j]).0@, pv[j].1, f) by {
                if formats@.contains(f) {
                    if before.contains(f) {
                        let j = choose|j: int|
                            0 <= j < i && spec_register_advertises((#[trigger] pv[j]).0@, pv[j].1, f);
                        assert(0 <= j < i + 1);
                    } else {
                        assert(found == Some(f));
                        assert(spec_register_advertises(pv[i as int].0@, pv[i as int].1, f));
                    }
                }
                if exists|j: int|
                    0 <= j < i + 1 && spec_register_advertises((#[trigger] pv[j]).0@, pv[j].1, f) {
                    let j = choose|j: int|
                        0 <= j < i + 1 && spec_register_advertises((#[trigger] pv[j]).0@, pv[j].1, f);
                    if j < i {
                        assert(before.contains(f));
                    } else {
                        assert(found == Some(f));
                    }
                }
            }
            assert(pacing <==> exists|j: int|
                0 <= j < i + 1 && spec_ends_with((#[trigger] pv[j]).0@, "_Delay"@)) by {
                if exists|j: int| 0 <= j < i + 1 && spec_ends_with((#[trigger] pv[j]).0@, "_Delay"@) {
                    let j = choose|j: int|
                        0 <= j < i + 1 && spec_ends_with((#[trigger] pv[j]).0@, "_Delay"@);
                    if j < i {
                        assert(exists|jj: int|
                            0 <= jj < i && spec_ends_with((#[trigger] pv[jj]).0@, "_Delay"@));
                    }
                }
            }
        }
        i = i + 1;
    }
    proof {
        let regs = device.registers@;
        assert forall|f: PixelFormat| #[trigger]
            formats@.contains(f) <==> spec_advertises(regs, f) by {
            if formats@.contains(f) {
                let j = choose|j: int|
                    0 <= j < pv.len() && spec_register_advertises((#[trigger] pv[j]).0@, pv[j].1, f);
                lemma_sorted_index(pv, j);
                assert(regs.contains_key(pv[j].0@));
            }
            if spec_advertises(regs, f) {
                let name = choose|name: Seq<char>|
                    #[trigger] regs.contains_key(name) && spec_register_advertises(name, regs[name], f);
                let j = key_index(pv, name);
                assert(pv[j].0@ == name);
                lemma_sorted_index(pv, j);
                assert(spec_register_advertises(pv[j].0@, pv[j].1, f));
            }
        }
        assert(pacing <==> spec_has_delay_register(regs)) by {
            if pacing {
                let j = choose|j: int| 0 <= j < pv.len() && spec_ends_with((#[trigger] pv[j]).0@, "_Delay"@);
                lemma_sorted_index(pv, j);
                assert(regs.contains_key(pv[j].0@));
            }
            if spec_has_delay_register(regs) {
                let name = choose|name: Seq<char>|
                    #[trigger] regs.contains_key(name) && spec_ends_with(name, "_Delay"@);
                let j = key_index(pv, name);
                assert(pv[j].0@ == name);
            }
        }
    }
    let mut supported_profiles: Vec<StreamProfileId> = Vec::new();
    supported_profiles.push(StreamProfileId::CompatibilityV1);
    assert(supported_profiles@ =~= seq![StreamProfileId::CompatibilityV1]);
    ControlCapabilities {
        supported_profiles,
        supported_pixel_formats: formats,
        multicast_supported: device.capabilities.mult_addr,
        packet_pacing_supported: pacing,
        native_framing_supported: false,
    }
}

/// The delay register value for a packet delay: an error past 32 bits, or past the 24-bit
/// delay field.
pub open spec fn spec_packet_delay(delay_ns: u64) -> Result<u32, Seq<char>> {
    if delay_ns > u32::MAX {
        Err("packet delay "@ + spec_decimal(delay_ns as nat) + "ns exceeds the 32-bit EEVideo register range"@)
    } else if delay_ns > 0x00ff_ffff {
        Err("packet delay "@ + spec_decimal(delay_ns as nat) + " exceeds the 24-bit stream delay field"@)
    } else {
        Ok(delay_ns as u32)
    }
}

/// Checks a requested packet delay against the width of the delay field.
pub fn check_packet_delay(delay_ns: u64) -> (r: Result<u32, ControlError>)
    ensures
        match spec_packet_delay(delay_ns) {
            Ok(d) => r == Ok::<u32, ControlError>(d),
            Err(m) => r matches Err(e) && error_is(e, ControlErrorKind::InvalidConfiguration, m),
        },
{
    if delay_ns > u32::MAX as u64 {
        let mut m = owned("packet delay ");
        push_decimal(&mut m, delay_ns);
        push_str(&mut m, "ns exceeds the 32-bit EEVideo register range");
        return Err(ControlError::new(ControlErrorKind::InvalidConfiguration, m));
    }
    if delay_ns > 0x00ff_ffff {
        let mut m = owned("packet delay ");
        push_decimal(&mut m, delay_ns);
        push_str(&mut m, " exceeds the 24-bit stream delay field");
        return Err(ControlError::new(ControlErrorKind::InvalidConfiguration, m));
    }
    Ok(delay_ns as u32)
}

/// A register write that configures, starts or stops a stream: named fields of a register,
/// or a whole register word.
#[derive(Debug)]
pub enum StreamRegisterWrite {
    Fields { register: String, updates: Vec<FieldUpdate> },
    Word { register: String, value: u32 },
}

/// A stream register write with its texts as sequences.
pub enum WriteView {
    Fields(Seq<char>, Seq<(Seq<char>, u32)>),
    Word(Seq<char>, u32),
}

/// The field updates as (name, value) pairs.
pub open spec fn updates_view(updates: Seq<FieldUpdate>) -> Seq<(Seq<char>, u32)> {
    updates.map_values(|u: FieldUpdate| (u.name@, u.value))
}

impl View for StreamRegisterWrite {
    type V = WriteView;

    open spec fn view(&self) -> WriteView {
        match self {
            StreamRegisterWrite::Fields { register, updates } => WriteView::Fields(
                register@,
                updates_view(updates@),
            ),
            StreamRegisterWrite::Word { register, value } => WriteView::Word(register@, *value),
        }
    }
}

/// The writes as views.
pub open spec fn writes_view(writes: Seq<StreamRegisterWrite>) -> Seq<WriteView> {
    writes.map_values(|w: StreamRegisterWrite| w@)
}

/// The name of a stream's register.
pub open spec fn reg(prefix: Seq<char>, suffix: Seq<char>) -> Seq<char> {
    prefix + "_"@ + suffix
}

/// The writes that configure a stream: the delay field, the destination port and address,
/// the packet size with the stream disabled, and, where a format is given, its width,
/// height and pixel-format code.
pub open spec fn spec_configure_writes(
    prefix: Seq<char>,
    port: u16,
    destination_ip: u32,
    delay: u32,
    max_packet_size: u16,
    format: Option<StreamFormatDescriptor>,
) -> Seq<WriteView> {
    seq![
        WriteView::Fields(reg(prefix, "Delay"@), seq![("delay"@, delay)]),
        WriteView::Word(reg(prefix, "DestPort"@), port as u32),
        WriteView::Word(reg(prefix, "DestIPAddr"@), destination_ip),
        WriteView::Fields(
            reg(prefix, "MaxPacketSize"@),
            seq![("fireTestPkt"@, 0u32), ("enable"@, 0u32), ("maxPkt"@, max_packet_size as u32)],
        ),
    ] + match format {
        Some(f) => seq![
            WriteView::Fields(reg(prefix, "PixelsPerLine"@), seq![("ppl"@, f.width)]),
            WriteView::Fields(reg(prefix, "LinesPerFrame"@), seq![("lpf"@, f.height)]),
            WriteView::Fields(
                reg(prefix, "PixelFormat"@),
                seq![("bpp"@, spec_pfnc(f.pixel_format) & 0xffff)],
            ),
        ],
        None => Seq::<WriteView>::empty(),
    }
}

fn one_update(name: &str, value: u32) -> (r: Vec<FieldUpdate>)
    ensures
        updates_view(r@) == seq![(name@, value)],
{
    let mut v: Vec<FieldUpdate> = Vec::new();
    v.push(FieldUpdate::new(owned(name), value));
    assert(updates_view(v@) =~= seq![(name@, value)]);
    v
}

fn packet_size_updates(enable: u32, max_packet_size: u16) -> (r: Vec<FieldUpdate>)
    ensures
        updates_view(r@) == seq![
            ("fireTestPkt"@, 0u32),
            ("enable"@, enable),
            ("maxPkt"@, max_packet_size as u32),
        ],
{
    let mut v: Vec<FieldUpdate> = Vec::new();
    v.push(FieldUpdate::new(owned("fireTestPkt"), 0));
    v.push(FieldUpdate::new(owned("enable"), enable));
    v.push(FieldUpdate::new(owned("maxPkt"), max_packet_size as u32));
    assert(updates_view(v@) =~= seq![
        ("fireTestPkt"@, 0u32),
        ("enable"@, enable),
        ("maxPkt"@, max_packet_size as u32),
    ]);
    v
}

/// The register writes that configure a stream as requested, with the destination address
/// already resolved and the delay already checked.
pub fn stream_configuration_writes(
    prefix: &str,
    request: &RequestedStreamConfiguration,
    destination_ip: u32,
    delay: u32,
) -> (r: Vec<StreamRegisterWrite>)
    ensures
        writes_view(r@) == spec_configure_writes(
            prefix@,
            request.port,
            destination_ip,
            delay,
            request.max_packet_size,
            request.format,
        ),
{
    let mut w: Vec<StreamRegisterWrite> = Vec::new();
    w.push(
        StreamRegisterWrite::Fields {
            register: register_name(prefix, "Delay"),
            updates: one_update("delay", delay),
        },
    );
    w.push(
        StreamRegisterWrite::Word {
            register: register_name(prefix, "DestPort"),
            value: request.port as u32,
        },
    );
    w.push(
        StreamRegisterWrite::Word {
            register: register_name(prefix, "DestIPAddr"),
            value: destination_ip,
        },
    );
    w.push(
        StreamRegisterWrite::Fields {
            register: register_name(prefix, "MaxPacketSize"),
            updates: packet_size_updates(0, request.max_packet_size),
        },
    );
    match request.format {
        Some(f) => {
            w.push(
                StreamRegisterWrite::Fields {
                    register: register_name(prefix, "PixelsPerLine"),
                    updates: one_update("ppl", f.width),
                },
            );
            w.push(
                StreamRegisterWrite::Fields {
                    register: register_name(prefix, "LinesPerFrame"),
                    updates: one_update("lpf", f.height),
                },
            );
            w.push(
                StreamRegisterWrite::Fields {
                    register: register_name(prefix, "PixelFormat"),
                    updates: one_update("bpp", f.pixel_format.pfnc() & 0xffff),
                },
            );
        },
        None => {},
    }
    assert(writes_view(w@) =~= spec_configure_writes(
        prefix@,
        request.port,
        destination_ip,
        delay,
        request.max_packet_size,
        request.format,
    ));
    w
}

/// The write that starts a configured stream: the packet size with the enable bit set.
pub fn stream_start_write(prefix: &str, max_packet_size: u16) -> (r: StreamRegisterWrite)
    ensures
        r@ == WriteView::Fields(
            reg(prefix@, "MaxPacketSize"@),
            seq![("fireTestPkt"@, 0u32), ("enable"@, 1u32), ("maxPkt"@, max_packet_size as u32)],
        ),
{
    StreamRegisterWrite::Fields {
        register: register_name(prefix, "MaxPacketSize"),
        updates: packet_size_updates(1, max_packet_size),
    }
}

/// The write that stops a running stream: the enable bit cleared.
pub fn stream_stop_write(prefix: &str) -> (r: StreamRegisterWrite)
    ensures
        r@ == WriteView::Fields(reg(prefix@, "MaxPacketSize"@), seq![("enable"@, 0u32)]),
{
    StreamRegisterWrite::Fields {
        register: register_name(prefix, "MaxPacketSize"),
        updates: one_update("enable", 0),
    }
}

/// The stream format that a device's width, height and pixel-format fields describe: none
/// while any of them is zero, an error for an unknown pixel-format code.
pub open spec fn spec_stream_format(width: u32, height: u32, bits: u32) -> Result<
    Option<StreamFormatDescriptor>,
    Seq<char>,
> {
    if width == 0 || height == 0 || bits == 0 {
        Ok(None)
    } else {
        match spec_from_device_bits(bits) {
            Some(f) => Ok(
                Some(
                    StreamFormatDescriptor {
                        payload_type: PayloadType::Image,
                        pixel_format: f,
                        width,
                        height,
                    },
                ),
            ),
            None => Err(
                "device reported unsupported pixel format value 0x"@ + spec_hex_padded(
                    bits as nat,
                    8,
                ),
            ),
        }
    }
}

/// The stream format from the values read from a device's format fields.
pub fn stream_format_from_fields(width: u32, height: u32, pixel_format_bits: u32) -> (r: Result<
    Option<StreamFormatDescriptor>,
    ControlError,
>)
    ensures
        match spec_stream_format(width, height, pixel_format_bits) {
            Ok(f) => r == Ok::<Option<StreamFormatDescriptor>, ControlError>(f),
            Err(m) => r matches Err(e) && error_is(e, ControlErrorKind::InvalidConfiguration, m),
        },
{
    if width == 0 || height == 0 || pixel_format_bits == 0 {
        return Ok(None);
    }
    match pixel_format_from_device_bits(pixel_format_bits) {
        Some(f) => Ok(
            Some(
                StreamFormatDescriptor {
                    payload_type: PayloadType::Image,
                    pixel_format: f,
                    width,
                    height,
                },
            ),
        ),
        None => {
            let mut m = owned("device reported unsupported pixel format value 0x");
            push_hex_padded(&mut m, pixel_format_bits as u64, 8);
            Err(ControlError::new(ControlErrorKind::InvalidConfiguration, m))
        },
    }
}

/// The identifier of a configured stream: the device URI, `#`, and the register prefix.
pub open spec fn spec_stream_id(endpoint_uri: Seq<char>, prefix: Seq<char>) -> Seq<char> {
    endpoint_uri + "#"@ + prefix
}

/// The configuration a device applied: the request as asked, under the stream's
/// identifier, with the format written or read back.
pub fn applied_configuration(
    endpoint_uri: &str,
    prefix: &str,
    request: &RequestedStreamConfiguration,
    format: Option<StreamFormatDescriptor>,
) -> (r: AppliedStreamConfiguration)
    ensures
        r@ == (AppliedView {
            stream_id: spec_stream_id(endpoint_uri@, prefix@),
            stream_name: request.stream_name@,
            profile: request.profile,
            destination_host: request.destination_host@,
            port: request.port,
            bind_address: request.bind_address@,
            packet_delay_ns: request.packet_delay_ns,
            max_packet_size: request.max_packet_size,
            format,
            normalized: false,
        }),
{
    let mut stream_id = owned(endpoint_uri);
    push_str(&mut stream_id, "#");
    push_str(&mut stream_id, prefix);
    AppliedStreamConfiguration {
        stream_id,
        stream_name: request.stream_name.clone(),
        profile: request.profile,
        destination_host: request.destination_host.clone(),
        port: request.port,
        bind_address: request.bind_address.clone(),
        packet_delay_ns: request.packet_delay_ns,
        max_packet_size: request.max_packet_size,
        format,
        normalized: false,
    }
}

/// A configured stream: what the device applied, and the prefix of its registers.
#[derive(Clone, Debug)]
pub struct ConfiguredStream {
    pub applied: AppliedStreamConfiguration,
    pub register_prefix: String,
}

/// What a CoAP register connection remembers between calls: whether it was disconnected,
/// the stream it configured, and the identifier of the stream it started.
#[derive(Debug)]
pub struct CoapConnectionState {
    disconnected: bool,
    configured: Option<ConfiguredStream>,
    running_stream_id: Option<String>,
}

/// The state of a connection with its texts as sequences.
pub struct ConnectionView {
    pub disconnected: bool,
    pub configured: Option<(AppliedView, Seq<char>)>,
    pub running: Option<Seq<char>>,
}

/// The view of a configured stream.
pub open spec fn configured_view(c: Option<ConfiguredStream>) -> Option<(AppliedView, Seq<char>)> {
    match c {
        Some(s) => Some((s.applied@, s.register_prefix@)),
        None => None,
    }
}

/// The view of an optional owned text.
pub open spec fn text_view(s: Option<String>) -> Option<Seq<char>> {
    match s {
        Some(t) => Some(t@),
        None => None,
    }
}

impl View for CoapConnectionState {
    type V = ConnectionView;

    closed spec fn view(&self) -> ConnectionView {
        ConnectionView {
            disconnected: self.disconnected,
            configured: configured_view(self.configured),
            running: text_view(self.running_stream_id),
        }
    }
}

/// What starting a stream takes: nothing, where it already runs, or setting its enable bit.
#[derive(Debug)]
pub enum StartStep {
    AlreadyRunning(RunningStream),
    Enable { register_prefix: String, bind_address: String, max_packet_size: u16 },
}

/// What stopping a stream takes: nothing, where none runs, or clearing its enable bit.
#[derive(Debug)]
pub enum StopStep {
    Nothing,
    Disable { register_prefix: String, bind_address: String },
}

/// The message for a start or stop of a stream other than the configured one.
pub open spec fn spec_mismatch_message(verb: Seq<char>, requested: Seq<char>, configured: Seq<char>) -> Seq<char> {
    verb + " requested for stream "@ + requested + ", but configured stream is "@ + configured
}

fn mismatch_error(verb: &str, requested: &str, configured: &str) -> (r: ControlError)
    ensures
        error_is(
            r,
            ControlErrorKind::AppliedValueMismatch,
            spec_mismatch_message(verb@, requested@, configured@),
        ),
{
    let mut m = owned(verb);
    push_str(&mut m, " requested for stream ");
    push_str(&mut m, requested);
    push_str(&mut m, ", but configured stream is ");
    push_str(&mut m, configured);
    ControlError::new(ControlErrorKind::AppliedValueMismatch, m)
}

impl CoapConnectionState {
    /// A fresh connection: connected, nothing configured, nothing running.
    pub fn new() -> (r: Self)
        ensures
            r@ == (ConnectionView { disconnected: false, configured: None, running: None }),
    {
        CoapConnectionState { disconnected: false, configured: None, running_stream_id: None }
    }

    /// An error once the connection is disconnected.
    pub fn ensure_connected(&self) -> (r: Result<(), ControlError>)
        ensures
            !self@.disconnected ==> r is Ok,
            self@.disconnected ==> (r matches Err(e) && error_is(
                e,
                ControlErrorKind::Disconnected,
                "control connection is disconnected"@,
            )),
    {
        if self.disconnected {
            Err(control_error(ControlErrorKind::Disconnected, "control connection is disconnected"))
        } else {
            Ok(())
        }
    }

    /// Remembers a configured stream; a new configuration is not running.
    pub fn record_configured(&mut self, applied: AppliedStreamConfiguration, register_prefix: String)
        ensures
            final(self)@ == (ConnectionView {
                disconnected: old(self)@.disconnected,
                configured: Some((applied@, register_prefix@)),
                running: None,
            }),
    {
        self.configured = Some(ConfiguredStream { applied, register_prefix });
        self.running_stream_id = None;
    }

    /// What starting `stream_id` takes, or why it cannot start: the connection is
    /// disconnected, nothing is configured, or another stream is.
    pub fn start_step(&self, stream_id: &str) -> (r: Result<StartStep, ControlError>)
        ensures
            self@.disconnected ==> (r matches Err(e) && error_is(
                e,
                ControlErrorKind::Disconnected,
                "control connection is disconnected"@,
            )),
            !self@.disconnected && self@.configured is None ==> (r matches Err(e) && error_is(
                e,
                ControlErrorKind::InvalidConfiguration,
                "stream must be configured before start"@,
            )),
            !self@.disconnected ==> (self@.configured matches Some((a, p)) ==> {
                if a.stream_id != stream_id@ {
                    r matches Err(e) && error_is(
                        e,
                        ControlErrorKind::AppliedValueMismatch,
                        spec_mismatch_message("start"@, stream_id@, a.stream_id),
                    )
                } else if self@.running == Some(stream_id@) {
                    r matches Ok(StartStep::AlreadyRunning(s)) && s@ == (RunningView {
                        stream_id: stream_id@,
                        profile: a.profile,
                        running: true,
                    })
                } else {
                    r matches Ok(StartStep::Enable { register_prefix, bind_address, max_packet_size })
                        && register_prefix@ == p && bind_address@ == a.bind_address
                        && max_packet_size == a.max_packet_size
                }
            }),
    {
        if self.disconnected {
            return Err(
                control_error(ControlErrorKind::Disconnected, "control connection is disconnected"),
            );
        }
        let configured = match &self.configured {
            Some(c) => c,
            None => return Err(
                control_error(
                    ControlErrorKind::InvalidConfiguration,
                    "stream must be configured before start",
                ),
            ),
        };
        if !str_eq(configured.applied.stream_id.as_str(), stream_id) {
            return Err(mismatch_error("start", stream_id, configured.applied.stream_id.as_str()));
        }
        let running = match &self.running_stream_id {
            Some(r) => str_eq(r.as_str(), stream_id),
            None => false,
        };
        if running {
            return Ok(
                StartStep::AlreadyRunning(
                    RunningStream {
                        stream_id: owned(stream_id),
                        profile: configured.applied.profile,
                        running: true,
                    },
                ),
            );
        }
        Ok(
            StartStep::Enable {
                register_prefix: configured.register_prefix.clone(),
                bind_address: configured.applied.bind_address.clone(),
                max_packet_size: configured.applied.max_packet_size,
            },
        )
    }

    /// Remembers that `stream_id` runs.
    pub fn record_started(&mut self, stream_id: &str)
        ensures
            final(self)@ == (ConnectionView {
                disconnected: old(self)@.disconnected,
                configured: old(self)@.configured,
                running: Some(stream_id@),
            }),
    {
        self.running_stream_id = Some(owned(stream_id));
    }

    /// What stopping `stream_id` takes, or why it cannot stop: the connection is
    /// disconnected, or another stream is configured. Nothing is done where nothing is
    /// configured or nothing runs.
    pub fn stop_step(&self, stream_id: &str) -> (r: Result<StopStep, ControlError>)
        ensures
            self@.disconnected ==> (r matches Err(e) && error_is(
                e,
                ControlErrorKind::Disconnected,
                "control connection is disconnected"@,
            )),
            !self@.disconnected && self@.configured is None ==> (r matches Ok(StopStep::Nothing)),
            !self@.disconnected ==> (self@.configured matches Some((a, p)) ==> {
                if a.stream_id != stream_id@ {
                    r matches Err(e) && error_is(
                        e,
                        ControlErrorKind::AppliedValueMismatch,
                        spec_mismatch_message("stop"@, stream_id@, a.stream_id),
                    )
                } else if self@.running is None {
                    r matches Ok(StopStep::Nothing)
                } else {
                    r matches Ok(StopStep::Disable { register_prefix, bind_address })
                        && register_prefix@ == p && bind_address@ == a.bind_address
                }
            }),
    {
        if self.disconnected {
            return Err(
                control_error(ControlErrorKind::Disconnected, "control connection is disconnected"),
            );
        }
        let configured = match &self.configured {
            Some(c) => c,
            None => return Ok(StopStep::Nothing),
        };
        if !str_eq(configured.applied.stream_id.as_str(), stream_id) {
            return Err(mismatch_error("stop", stream_id, configured.applied.stream_id.as_str()));
        }
        if self.running_stream_id.is_none() {
            return Ok(StopStep::Nothing);
        }
        Ok(
            StopStep::Disable {
                register_prefix: configured.register_prefix.clone(),
                bind_address: configured.applied.bind_address.clone(),
            },
        )
    }

    /// Remembers that no stream runs.
    pub fn record_stopped(&mut self)
        ensures
            final(self)@ == (ConnectionView {
                disconnected: old(self)@.disconnected,
                configured: old(self)@.configured,
                running: None,
            }),
    {
        self.running_stream_id = None;
    }

    /// Disconnects: every later call fails, and no stream runs.
    pub fn disconnect(&mut self) -> (r: Result<(), ControlError>)
        ensures
            r is Ok,
            final(self)@ == (ConnectionView {
                disconnected: true,
                configured: old(self)@.configured,
                running: None,
            }),
    {
        self.disconnected = true;
        self.running_stream_id = None;
        Ok(())
    }
}

/// A device that answered discovery, with its addresses as text.
#[derive(Clone, Debug, PartialEq, Eq)]
pub struct DiscoveryReply {
    pub interface_name: String,
    pub interface_address: String,
    pub device_address: String,
}

/// A discovered device with its texts as sequences.
pub struct DiscoveredView {
    pub device_uri: Seq<char>,
    pub transport_kind: ControlTransportKind,
    pub interface_name: Seq<char>,
    pub interface_address: Seq<char>,
    pub device_address: Seq<char>,
    pub auth_scope: Option<Seq<char>>,
}

/// The view of a discovered device.
pub open spec fn discovered_view(d: DiscoveredDevice) -> DiscoveredView {
    DiscoveredView {
        device_uri: d.device_uri@,
        transport_kind: d.transport_kind,
        interface_name: d.interface_name@,
        interface_address: d.interface_address@,
        device_address: d.device_address@,
        auth_scope: text_view(d.auth_scope),
    }
}

/// The device a discovery reply stands for: reached over CoAP registers at the CoAP port.
pub open spec fn spec_reply_device(r: DiscoveryReply) -> DiscoveredView {
    DiscoveredView {
        device_uri: "coap://"@ + r.device_address@ + ":"@ + spec_decimal(COAP_PORT as nat),
        transport_kind: ControlTransportKind::CoapRegister,
        interface_name: r.interface_name@,
        interface_address: r.interface_address@,
        device_address: r.device_address@,
        auth_scope: None,
    }
}

/// The devices of the replies, in order, keeping only those at the requested host where one
/// is requested.
pub open spec fn spec_discovered(host: Option<Seq<char>>, replies: Seq<DiscoveryReply>) -> Seq<
    DiscoveredView,
>
    decreases replies.len(),
{
    if replies.len() == 0 {
        Seq::empty()
    } else {
        let r = replies.last();
        let rest = spec_discovered(host, replies.drop_last());
        if host matches Some(h) && h != r.device_address@ {
            rest
        } else {
            rest.push(spec_reply_device(r))
        }
    }
}

/// The discovered devices from the discovery replies, filtered by the requested host.
pub fn discovered_devices(requested_host: Option<&str>, replies: &[DiscoveryReply]) -> (r: Vec<
    DiscoveredDevice,
>)
    ensures
        r@.map_values(|d: DiscoveredDevice| discovered_view(d)) == spec_discovered(
            match requested_host {
                Some(h) => Some(h@),
                None => None,
            },
            replies@,
        ),
{
    let ghost host = match requested_host {
        Some(h) => Some(h@),
        None => None::<Seq<char>>,
    };
    let mut out: Vec<DiscoveredDevice> = Vec::new();
    let mut i: usize = 0;
    while i < replies.len()
        invariant
            i <= replies@.len(),
            host == match requested_host {
                Some(h) => Some(h@),
                None => None::<Seq<char>>,
            },
            out@.map_values(|d: DiscoveredDevice| discovered_view(d)) == spec_discovered(
                host,
                replies@.subrange(0, i as int),
            ),
        decreases replies@.len() - i,
    {
        let reply = &replies[i];
        let keep = match requested_host {
            Some(h) => str_eq(h, reply.device_address.as_str()),
            None => true,
        };
        let ghost before = out@;
        if keep {
            let mut uri = owned("coap://");
            push_str(&mut uri, reply.device_address.as_str());
            push_str(&mut uri, ":");
            push_decimal(&mut uri, COAP_PORT as u64);
            out.push(
                DiscoveredDevice {
                    device_uri: uri,
                    transport_kind: ControlTransportKind::CoapRegister,
                    interface_name: reply.interface_name.clone(),
                    interface_address: reply.interface_address.clone(),
                    device_address: reply.device_address.clone(),
                    auth_scope: None,
                },
            );
        }
        proof {
            let sub = replies@.subrange(0, i + 1);
            assert(sub.drop_last() =~= replies@.subrange(0, i as int));
            assert(sub.last() == replies@[i as int]);
            assert(out@.map_values(|d: DiscoveredDevice| discovered_view(d)) =~= spec_discovered(
                host,
                sub,
            ));
        }
        i = i + 1;
    }
    assert(replies@.subrange(0, replies@.len() as int) =~= replies@);
    out
}

} // verus!
