use vstd::prelude::*;

use crate::compat_profile::StreamProfileId;
use crate::compat_stream::PayloadType;
use crate::control::{
    AppliedStreamConfiguration, RequestView, RequestedStreamConfiguration, RunningStream,
    StreamFormatDescriptor,
};
use crate::controller::{spec_join, DeviceDescription, DeviceSummary};
use crate::pixel_format::{spec_gst_format, PixelFormat};
use crate::register_map::{RegisterSelector, RegisterValue};
use crate::text::{
    owned, parse_u32_radix, push_decimal, push_hex_padded, push_str, spec_all_digits,
    spec_decimal, spec_hex_padded, spec_parse_u32, spec_trim_end, str_eq, trim_end,
};
use crate::yaml::DeviceRegisterValue;

verus! {

/// The flag a help flag with a trailing comma stands for, if it is one.
pub open spec fn spec_help_flag(arg: Seq<char>) -> Option<Seq<char>> {
    if arg == "--help,"@ {
        Some("--help"@)
    } else if arg == "-h,"@ {
        Some("-h"@)
    } else {
        None
    }
}

/// The flag that `--help,` or `-h,` stands for; none for any other argument.
pub fn help_flag_replacement(arg: &str) -> (r: Option<&'static str>)
    ensures
        match spec_help_flag(arg@) {
            Some(f) => r matches Some(s) && s@ == f,
            None => r is None,
        },
{
    if str_eq(arg, "--help,") {
        Some("--help")
    } else if str_eq(arg, "-h,") {
        Some("-h")
    } else {
        None
    }
}

/// The arguments with `--help,` and `-h,` read as the help flags they stand for.
pub fn normalize_help_flag_punctuation(args: Vec<String>) -> (r: Vec<String>)
    ensures
        r@.len() == args@.len(),
        forall|i: int|
            0 <= i < args@.len() ==> (#[trigger] r@[i])@ == match spec_help_flag(args@[i]@) {
                Some(f) => f,
                None => args@[i]@,
            },
{
    let mut out: Vec<String> = Vec::new();
    let mut i: usize = 0;
    while i < args.len()
        invariant
            i <= args@.len(),
            out@.len() == i,
            forall|j: int|
                0 <= j < i ==> (#[trigger] out@[j])@ == match spec_help_flag(args@[j]@) {
                    Some(f) => f,
                    None => args@[j]@,
                },
        decreases args@.len() - i,
    {
        let arg = args[i].as_str();
        match help_flag_replacement(arg) {
            Some(f) => out.push(owned(f)),
            None => out.push(owned(arg)),
        }
        i = i + 1;
    }
    out
}

/// The text of a failed `u32` parse of `d` in base `radix`: an empty text, a number too
/// large, or a character that is no digit.
pub open spec fn spec_int_error(d: Seq<char>, radix: nat) -> Seq<char> {
    if d.len() == 0 {
        "cannot parse integer from empty string"@
    } else {
        let digits = if d[0] == '+' {
            d.drop_first()
        } else {
            d
        };
        if digits.len() > 0 && spec_all_digits(digits, radix) {
            "number too large to fit in target type"@
        } else {
            "invalid digit found in string"@
        }
    }
}

/// A `u32` in base `radix`, or the text of the parse error.
pub open spec fn spec_parse_radix(d: Seq<char>, radix: nat) -> Result<u32, Seq<char>> {
    match spec_parse_u32(d, radix) {
        Some(v) => Ok(v),
        None => Err(spec_int_error(d, radix)),
    }
}

/// A command-line number: hexadecimal after `0x` or `0X`, else decimal.
pub open spec fn spec_parse_u32_arg(value: Seq<char>) -> Result<u32, Seq<char>> {
    if value.len() >= 2 && value[0] == '0' && (value[1] == 'x' || value[1] == 'X') {
        spec_parse_radix(value.subrange(2, value.len() as int), 16)
    } else {
        spec_parse_radix(value, 10)
    }
}

fn int_error(d: &str, radix: u32) -> (r: String)
    requires
        2 <= radix <= 36,
    ensures
        r@ == spec_int_error(d@, radix as nat),
{
    let n = d.unicode_len();
    if n == 0 {
        return owned("cannot parse integer from empty string");
    }
    let start: usize = if d.get_char(0) == '+' {
        1
    } else {
        0
    };
    let digits = d.substring_char(start, n);
    assert(digits@ == if d@[0] == '+' {
        d@.drop_first()
    } else {
        d@
    }) by {
        if d@[0] == '+' {
            assert(digits@ =~= d@.drop_first());
        } else {
            assert(digits@ =~= d@);
        }
    }
    let m = digits.unicode_len();
    let mut all = m > 0;
    let mut i: usize = 0;
    while i < m
        invariant
            m == digits@.len(),
            i <= m,
            all == (m > 0 && forall|j: int|
                0 <= j < i ==> crate::text::spec_digit_value(#[trigger] digits@[j]) < radix),
        decreases m - i,
    {
        let c = digits.get_char(i);
        let v: u32 = if '0' <= c && c <= '9' {
            (c as u32) - ('0' as u32)
        } else if 'a' <= c && c <= 'z' {
            (c as u32) - ('a' as u32) + 10
        } else if 'A' <= c && c <= 'Z' {
            (c as u32) - ('A' as u32) + 10
        } else {
            36
        };
        if v >= radix {
            all = false;
        }
        i = i + 1;
    }
    if all {
        owned("number too large to fit in target type")
    } else {
        owned("invalid digit found in string")
    }
}

fn parse_radix(d: &str, radix: u32) -> (r: Result<u32, String>)
    requires
        2 <= radix <= 36,
    ensures
        match spec_parse_radix(d@, radix as nat) {
            Ok(v) => r == Ok::<u32, String>(v),
            Err(m) => r matches Err(e) && e@ == m,
        },
{
    match parse_u32_radix(d, radix) {
        Some(v) => Ok(v),
        None => Err(int_error(d, radix)),
    }
}

/// Parses a register address or value given on the command line: decimal, or hexadecimal
/// after `0x`; the error is the parse error's text.
pub fn parse_u32_arg(value: &str) -> (r: Result<u32, String>)
    ensures
        match spec_parse_u32_arg(value@) {
            Ok(v) => r == Ok::<u32, String>(v),
            Err(m) => r matches Err(e) && e@ == m,
        },
{
    let n = value.unicode_len();
    if n >= 2 && value.get_char(0) == '0' && (value.get_char(1) == 'x' || value.get_char(1)
        == 'X') {
        parse_radix(value.substring_char(2, n), 16)
    } else {
        parse_radix(value, 10)
    }
}

/// The command-line name of a stream profile.
pub open spec fn spec_profile_name(p: StreamProfileId) -> Seq<char> {
    match p {
        StreamProfileId::CompatibilityV1 => "compatibility-v1"@,
    }
}

/// The command-line name of a stream profile.
pub fn profile_name(profile: &StreamProfileId) -> (r: &'static str)
    ensures
        r@ == spec_profile_name(*profile),
{
    match profile {
        StreamProfileId::CompatibilityV1 => "compatibility-v1",
    }
}

/// The command-line name of a pixel format: its caps format name.
pub fn pixel_format_name(pixel_format: &PixelFormat) -> (r: &'static str)
    ensures
        r@ == spec_gst_format(*pixel_format),
{
    pixel_format.gst_format()
}

/// A register word as eight hexadecimal digits and in decimal.
pub open spec fn spec_hex_and_decimal(v: u32) -> Seq<char> {
    "0x"@ + spec_hex_padded(v as nat, 8) + " ("@ + spec_decimal(v as nat) + ")"@
}

/// A register word as eight hexadecimal digits and in decimal, as `field-read` prints it.
pub fn format_u32_value(value: u32) -> (r: String)
    ensures
        r@ == spec_hex_and_decimal(value),
{
    let mut s = owned("0x");
    push_hex_padded(&mut s, value as u64, 8);
    push_str(&mut s, " (");
    push_decimal(&mut s, value as u64);
    push_str(&mut s, ")");
    s
}

/// How `reg-read` prints a register value: a word in hexadecimal and decimal, a text as is.
pub fn format_register_value(value: &RegisterValue) -> (r: String)
    ensures
        match value {
            RegisterValue::U32(v) => r@ == spec_hex_and_decimal(*v),
            RegisterValue::String(s) => r@ == s@,
        },
{
    match value {
        RegisterValue::U32(v) => format_u32_value(*v),
        RegisterValue::String(s) => owned(s.as_str()),
    }
}

/// The text of a boolean.
pub open spec fn spec_bool_text(b: bool) -> Seq<char> {
    if b {
        "true"@
    } else {
        "false"@
    }
}

/// How `stream-start` reports a running stream.
pub fn format_running_stream(running: &RunningStream) -> (r: String)
    ensures
        r@ == "running stream-id="@ + running.stream_id@ + " profile="@ + spec_profile_name(
            running.profile,
        ) + " active="@ + spec_bool_text(running.running),
{
    let mut s = owned("running stream-id=");
    push_str(&mut s, running.stream_id.as_str());
    push_str(&mut s, " profile=");
    push_str(&mut s, profile_name(&running.profile));
    push_str(&mut s, " active=");
    if running.running {
        push_str(&mut s, "true");
    } else {
        push_str(&mut s, "false");
    }
    s
}

/// How `stream-configure` reports an applied configuration, one setting per line.
pub open spec fn spec_applied_text(a: AppliedStreamConfiguration) -> Seq<char> {
    spec_trim_end(spec_applied_lines(a))
}

/// The lines of an applied configuration, before trailing white space is dropped.
pub open spec fn spec_applied_lines(a: AppliedStreamConfiguration) -> Seq<char> {
    (
        "stream-id: "@ + a.stream_id@ + "\nstream-name: "@ + a.stream_name@ + "\nprofile: "@
            + spec_profile_name(a.profile) + "\ndestination: "@ + a.destination_host@ + ":"@
            + spec_decimal(a.port as nat) + "\nbind-address: "@ + a.bind_address@
            + "\npacket-delay-ns: "@ + spec_decimal(a.packet_delay_ns as nat)
            + "\nmax-packet-size: "@ + spec_decimal(a.max_packet_size as nat) + "\n"@
            + match a.format {
            Some(f) => "format: "@ + spec_gst_format(f.pixel_format) + " "@ + spec_decimal(
                f.width as nat,
            ) + "x"@ + spec_decimal(f.height as nat) + "\n"@,
            None => Seq::empty(),
        }
    )
}

/// Formats an applied configuration, one setting per line.
pub fn format_applied_stream(applied: &AppliedStreamConfiguration) -> (r: String)
    ensures
        r@ == spec_applied_text(*applied),
{
    let mut s = owned("stream-id: ");
    push_str(&mut s, applied.stream_id.as_str());
    push_str(&mut s, "\nstream-name: ");
    push_str(&mut s, applied.stream_name.as_str());
    push_str(&mut s, "\nprofile: ");
    push_str(&mut s, profile_name(&applied.profile));
    push_str(&mut s, "\ndestination: ");
    push_str(&mut s, applied.destination_host.as_str());
    push_str(&mut s, ":");
    push_decimal(&mut s, applied.port as u64);
    push_str(&mut s, "\nbind-address: ");
    push_str(&mut s, applied.bind_address.as_str());
    push_str(&mut s, "\npacket-delay-ns: ");
    push_decimal(&mut s, applied.packet_delay_ns);
    push_str(&mut s, "\nmax-packet-size: ");
    push_decimal(&mut s, applied.max_packet_size as u64);
    push_str(&mut s, "\n");
    match applied.format {
        Some(f) => {
            push_str(&mut s, "format: ");
            push_str(&mut s, pixel_format_name(&f.pixel_format));
            push_str(&mut s, " ");
            push_decimal(&mut s, f.width as u64);
            push_str(&mut s, "x");
            push_decimal(&mut s, f.height as u64);
            push_str(&mut s, "\n");
        },
        None => {},
    }
    assert(s@ =~= spec_applied_lines(*applied));
    owned(trim_end(s.as_str()))
}

/// The line `discover` prints for a device.
pub open spec fn spec_device_line(d: DeviceSummary) -> Seq<char> {
    d.target.device_uri@ + " "@ + d.interface_name@ + " "@ + d.interface_address@ + " "@
        + d.device_address@ + "\n"@
}

/// The lines of the devices, in order.
pub open spec fn spec_device_lines(devices: Seq<DeviceSummary>) -> Seq<char>
    decreases devices.len(),
{
    if devices.len() == 0 {
        Seq::empty()
    } else {
        spec_device_lines(devices.drop_last()) + spec_device_line(devices.last())
    }
}

/// What `discover` prints: a line per device, or that none was found.
pub open spec fn spec_discover_text(devices: Seq<DeviceSummary>) -> Seq<char> {
    if devices.len() == 0 {
        "no devices found"@
    } else {
        spec_trim_end(spec_device_lines(devices))
    }
}

/// Formats the discovered devices, one line each.
pub fn format_discovered_devices(devices: &[DeviceSummary]) -> (r: String)
    ensures
        r@ == spec_discover_text(devices@),
{
    if devices.len() == 0 {
        return owned("no devices found");
    }
    let mut s = String::new();
    let mut i: usize = 0;
    while i < devices.len()
        invariant
            i <= devices@.len(),
            s@ == spec_device_lines(devices@.subrange(0, i as int)),
        decreases devices@.len() - i,
    {
        let d = &devices[i];
        push_str(&mut s, d.target.device_uri.as_str());
        push_str(&mut s, " ");
        push_str(&mut s, d.interface_name.as_str());
        push_str(&mut s, " ");
        push_str(&mut s, d.interface_address.as_str());
        push_str(&mut s, " ");
        push_str(&mut s, d.device_address.as_str());
        push_str(&mut s, "\n");
        proof {
            let sub = devices@.subrange(0, i + 1);
            assert(sub.drop_last() =~= devices@.subrange(0, i as int));
            assert(sub.last() == devices@[i as int]);
            assert(s@ =~= spec_device_lines(sub));
        }
        i = i + 1;
    }
    assert(devices@.subrange(0, devices@.len() as int) =~= devices@);
    owned(trim_end(s.as_str()))
}

/// The register lines of `describe`, one per register in order of name.
pub open spec fn spec_register_lines(pairs: Seq<(String, DeviceRegisterValue)>) -> Seq<char>
    decreases pairs.len(),
{
    if pairs.len() == 0 {
        Seq::empty()
    } else {
        spec_register_lines(pairs.drop_last()) + "register "@ + pairs.last().0@ + " addr=0x"@
            + spec_hex_padded(pairs.last().1.addr as nat, 8) + " access="@ + pairs.last().1.access@
            + "\n"@
    }
}

/// What `describe` prints: where the device is, its streams, profiles and pixel formats,
/// and each register with its address and access.
pub open spec fn spec_description_text(d: DeviceDescription) -> Seq<char> {
    spec_trim_end(
        "device-uri: "@ + d.summary.target.device_uri@ + "\ndevice-address: "@
            + d.summary.device_address@ + "\ninterface: "@ + d.summary.interface_name@
            + "\ninterface-address: "@ + d.summary.interface_address@ + "\nstreams: "@
            + spec_join(d.streams@.map_values(|s: String| s@), ", "@) + "\nprofiles: "@
            + spec_join(
            d.capabilities.supported_profiles@.map_values(|p: StreamProfileId| spec_profile_name(p)),
            ", "@,
        ) + "\npixel-formats: "@ + spec_join(
            d.capabilities.supported_pixel_formats@.map_values(|f: PixelFormat| spec_gst_format(f)),
            ", "@,
        ) + "\n"@ + spec_register_lines(d.device.registers.pairs()),
    )
}

fn push_joined_strings(out: &mut String, items: &Vec<String>)
    ensures
        final(out)@ == old(out)@ + spec_join(items@.map_values(|s: String| s@), ", "@),
{
    let ghost views = items@.map_values(|s: String| s@);
    let ghost start = out@;
    let mut i: usize = 0;
    while i < items.len()
        invariant
            views == items@.map_values(|s: String| s@),
            i <= items@.len(),
            out@ == start + spec_join(views.subrange(0, i as int), ", "@),
        decreases items@.len() - i,
    {
        if i > 0 {
            push_str(out, ", ");
        }
        push_str(out, items[i].as_str());
        proof {
            let sub = views.subrange(0, i + 1);
            assert(sub.drop_last() =~= views.subrange(0, i as int));
            if i == 0 {
                assert(out@ =~= start + spec_join(sub, ", "@));
            } else {
                assert(out@ =~= start + spec_join(sub, ", "@));
            }
        }
        i = i + 1;
    }
    assert(views.subrange(0, items@.len() as int) =~= views);
}

fn push_joined_profiles(out: &mut String, items: &Vec<StreamProfileId>)
    ensures
        final(out)@ == old(out)@ + spec_join(
            items@.map_values(|p: StreamProfileId| spec_profile_name(p)),
            ", "@,
        ),
{
    let ghost views = items@.map_values(|p: StreamProfileId| spec_profile_name(p));
    let ghost start = out@;
    let mut i: usize = 0;
    while i < items.len()
        invariant
            views == items@.map_values(|p: StreamProfileId| spec_profile_name(p)),
            i <= items@.len(),
            out@ == start + spec_join(views.subrange(0, i as int), ", "@),
        decreases items@.len() - i,
    {
        if i > 0 {
            push_str(out, ", ");
        }
        push_str(out, profile_name(&items[i]));
        proof {
            let sub = views.subrange(0, i + 1);
            assert(sub.drop_last() =~= views.subrange(0, i as int));
            assert(out@ =~= start + spec_join(sub, ", "@));
        }
        i = i + 1;
    }
    assert(views.subrange(0, items@.len() as int) =~= views);
}

fn push_joined_formats(out: &mut String, items: &Vec<PixelFormat>)
    ensures
        final(out)@ == old(out)@ + spec_join(
            items@.map_values(|f: PixelFormat| spec_gst_format(f)),
            ", "@,
        ),
{
    let ghost views = items@.map_values(|f: PixelFormat| spec_gst_format(f));
    let ghost start = out@;
    let mut i: usize = 0;
    while i < items.len()
        invariant
            views == items@.map_values(|f: PixelFormat| spec_gst_format(f)),
            i <= items@.len(),
            out@ == start + spec_join(views.subrange(0, i as int), ", "@),
        decreases items@.len() - i,
    {
        if i > 0 {
            push_str(out, ", ");
        }
        push_str(out, pixel_format_name(&items[i]));
        proof {
            let sub = views.subrange(0, i + 1);
            assert(sub.drop_last() =~= views.subrange(0, i as int));
            assert(out@ =~= start + spec_join(sub, ", "@));
        }
        i = i + 1;
    }
    assert(views.subrange(0, items@.len() as int) =~= views);
}

/// Formats a device description as `describe` prints it.
pub fn format_description(description: &DeviceDescription) -> (r: String)
    ensures
        r@ == spec_description_text(*description),
{
    let mut s = owned("device-uri: ");
    push_str(&mut s, description.summary.target.device_uri.as_str());
    push_str(&mut s, "\ndevice-address: ");
    push_str(&mut s, description.summary.device_address.as_str());
    push_str(&mut s, "\ninterface: ");
    push_str(&mut s, description.summary.interface_name.as_str());
    push_str(&mut s, "\ninterface-address: ");
    push_str(&mut s, description.summary.interface_address.as_str());
    push_str(&mut s, "\nstreams: ");
    push_joined_strings(&mut s, &description.streams);
    push_str(&mut s, "\nprofiles: ");
    push_joined_profiles(&mut s, &description.capabilities.supported_profiles);
    push_str(&mut s, "\npixel-formats: ");
    push_joined_formats(&mut s, &description.capabilities.supported_pixel_formats);
    push_str(&mut s, "\n");
    let ghost head = s@;
    let pairs = description.device.registers.as_slice();
    let mut i: usize = 0;
    while i < pairs.len()
        invariant
            pairs@ == description.device.registers.pairs(),
            i <= pairs@.len(),
            s@ == head + spec_register_lines(pairs@.subrange(0, i as int)),
        decreases pairs@.len() - i,
    {
        push_str(&mut s, "register ");
        push_str(&mut s, pairs[i].0.as_str());
        push_str(&mut s, " addr=0x");
        push_hex_padded(&mut s, pairs[i].1.addr as u64, 8);
        push_str(&mut s, " access=");
        push_str(&mut s, pairs[i].1.access.as_str());
        push_str(&mut s, "\n");
        proof {
            let sub = pairs@.subrange(0, i + 1);
            assert(sub.drop_last() =~= pairs@.subrange(0, i as int));
            assert(sub.last() == pairs@[i as int]);
            assert(s@ =~= head + spec_register_lines(sub));
        }
        i = i + 1;
    }
    assert(pairs@.subrange(0, pairs@.len() as int) =~= pairs@);
    assert(s@ =~= "device-uri: "@ + description.summary.target.device_uri@ + "\ndevice-address: "@
        + description.summary.device_address@ + "\ninterface: "@
        + description.summary.interface_name@ + "\ninterface-address: "@
        + description.summary.interface_address@ + "\nstreams: "@ + spec_join(
        description.streams@.map_values(|s: String| s@),
        ", "@,
    ) + "\nprofiles: "@ + spec_join(
        description.capabilities.supported_profiles@.map_values(
            |p: StreamProfileId| spec_profile_name(p),
        ),
        ", "@,
    ) + "\npixel-formats: "@ + spec_join(
        description.capabilities.supported_pixel_formats@.map_values(
            |f: PixelFormat| spec_gst_format(f),
        ),
        ", "@,
    ) + "\n"@ + spec_register_lines(description.device.registers.pairs()));
    owned(trim_end(s.as_str()))
}

/// The stream options of `stream-configure` and `stream-start`.
#[derive(Clone, Debug, PartialEq, Eq)]
pub struct StreamArgs {
    pub stream_name: String,
    pub destination_host: String,
    pub port: u16,
    pub bind_address: String,
    pub packet_delay_ns: u64,
    pub max_packet_size: u16,
    pub width: Option<u32>,
    pub height: Option<u32>,
    pub pixel_format: Option<PixelFormat>,
}

/// The format the options ask for: all three of width, height and pixel format, or none.
pub open spec fn spec_requested_format(
    width: Option<u32>,
    height: Option<u32>,
    pixel_format: Option<PixelFormat>,
) -> Result<Option<StreamFormatDescriptor>, Seq<char>> {
    match (width, height, pixel_format) {
        (Some(w), Some(h), Some(f)) => Ok(
            Some(StreamFormatDescriptor { payload_type: PayloadType::Image, pixel_format: f, width: w, height: h }),
        ),
        (None, None, None) => Ok(None),
        _ => Err("width, height, and pixel-format must be provided together"@),
    }
}

/// The stream request that the stream options describe, in the compatibility profile.
pub fn build_stream_request(args: StreamArgs) -> (r: Result<RequestedStreamConfiguration, String>)
    ensures
        match spec_requested_format(args.width, args.height, args.pixel_format) {
            Err(m) => r matches Err(e) && e@ == m,
            Ok(format) => r matches Ok(c) && c@ == (RequestView {
                stream_name: args.stream_name@,
                profile: StreamProfileId::CompatibilityV1,
                destination_host: args.destination_host@,
                port: args.port,
                bind_address: args.bind_address@,
                packet_delay_ns: args.packet_delay_ns,
                max_packet_size: args.max_packet_size,
                format,
            }),
        },
{
    let format = match (args.width, args.height, args.pixel_format) {
        (Some(width), Some(height), Some(pixel_format)) => Some(
            StreamFormatDescriptor { payload_type: PayloadType::Image, pixel_format, width, height },
        ),
        (None, None, None) => None,
        _ => return Err(owned("width, height, and pixel-format must be provided together")),
    };
    Ok(
        RequestedStreamConfiguration {
            stream_name: args.stream_name,
            profile: StreamProfileId::CompatibilityV1,
            destination_host: args.destination_host,
            port: args.port,
            bind_address: args.bind_address,
            packet_delay_ns: args.packet_delay_ns,
            max_packet_size: args.max_packet_size,
            format,
        },
    )
}

/// The register that `--name` or `--address` selects; exactly one of them must be given.
pub fn register_selector(name: Option<String>, address: Option<u32>) -> (r: Result<
    RegisterSelector,
    String,
>)
    ensures
        match (name, address) {
            (Some(n), None) => r == Ok::<RegisterSelector, String>(RegisterSelector::Name(n)),
            (None, Some(a)) => r == Ok::<RegisterSelector, String>(RegisterSelector::Address(a)),
            _ => r matches Err(e) && e@ == "exactly one of --name or --address is required"@,
        },
{
    match (name, address) {
        (Some(n), None) => Ok(RegisterSelector::name(n)),
        (None, Some(a)) => Ok(RegisterSelector::address(a)),
        _ => Err(owned("exactly one of --name or --address is required")),
    }
}

} // verus!
