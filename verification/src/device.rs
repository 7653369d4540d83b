use std::collections::BTreeMap;
use vstd::prelude::*;
use vstd::string::StringSliceAdditionalSpecFns;
use vstd::utf8::{decode_utf8, encode_utf8, valid_utf8};

use crate::coap::{
    lemma_coap_round_trip, spec_decode, spec_encode, well_formed_message, CoapMessage,
    CoapMessageType, CoapOption, DecodeOutcome, MessageView,
};
use crate::compat_stream::{be32, bytes32, extend_from_range, CompatPacketizer};
use crate::discovery::{
    core_bytes, discovery_request, resource_type_query_bytes, spec_advertisement, spec_attribute,
    spec_attributes,
    spec_link, spec_links, spec_target, well_known_bytes, LinkView,
};
use crate::register::{register_request, spec_response_problem};
use crate::pixel_format::{spec_from_device_bits, spec_pfnc, spec_payload_len, PixelFormat};
use crate::text::{
    is_blank, lemma_find_first, lemma_split_join, lemma_split_no_sep, lemma_trim_unchanged,
    owned, push_decimal, push_str, spec_decimal, spec_find, spec_split, spec_split_once,
    spec_trim, spec_trim_end_char, spec_trim_matches, spec_trim_start_char,
};

verus! {

broadcast use {
    vstd::std_specs::btree::group_btree_axioms,
    vstd::laws_cmp::group_laws_cmp,
};

pub const CAPABILITIES_ADDR: u32 = 0;
pub const FEATURE_TABLE_ADDR: u32 = 16;
pub const STREAM_DESC_ADDR: u32 = 0x0000_0100;
pub const STREAM_MAX_PACKET_ADDR: u32 = 0x0004_0000;
pub const STREAM_DELAY_ADDR: u32 = 0x0004_0004;
pub const STREAM_DEST_MAC_ADDR: u32 = 0x0004_0008;
pub const STREAM_DEST_IP_ADDR: u32 = 0x0004_0010;
pub const STREAM_DEST_PORT_ADDR: u32 = 0x0004_0014;
pub const STREAM_SOURCE_PORT_ADDR: u32 = 0x0004_0018;
pub const STREAM_WIDTH_ADDR: u32 = 0x0004_001c;
pub const STREAM_HEIGHT_ADDR: u32 = 0x0004_0020;
pub const STREAM_PIXEL_FORMAT_ADDR: u32 = 0x0004_0024;
pub const STREAM_ACQ_ADDR: u32 = 0x0004_0028;
pub const STREAM_X_OFFSET_ADDR: u32 = 0x0004_002c;
pub const STREAM_Y_OFFSET_ADDR: u32 = 0x0004_0030;
pub const STREAM_TEST_PATTERN_ADDR: u32 = 0x0004_0034;

/// The enable bit of the max-packet-size register.
pub const MAX_PACKET_ENABLE_BIT: u32 = 0x0001_0000;

/// The packet-size bits of the max-packet-size register.
pub const MAX_PACKET_MASK: u32 = 0xffff;

/// The delay bits of the delay register.
pub const DELAY_MASK: u32 = 0x00ff_ffff;

/// The format of a captured stream.
#[derive(Clone, Copy, Debug, PartialEq, Eq, Structural)]
pub struct CaptureConfiguration {
    pub width: u32,
    pub height: u32,
    pub pixel_format: PixelFormat,
    pub fps: u32,
}

/// What a device's stream is: its name, its format, its MTU, and whether writes that would
/// change the format are refused.
#[derive(Clone, Debug, PartialEq, Eq)]
pub struct DeviceSettings {
    pub stream_name: String,
    pub width: u32,
    pub height: u32,
    pub pixel_format: PixelFormat,
    pub fps: u32,
    pub mtu: u16,
    pub enforce_fixed_format: bool,
}

impl Default for DeviceSettings {
    /// One stream `stream0` of 1280x720 UYVY at 30 frames per second in 1200-byte packets,
    /// with format writes accepted.
    fn default() -> (r: Self)
        ensures
            r.stream_name@ == "stream0"@,
            r.width == 1280,
            r.height == 720,
            r.pixel_format == PixelFormat::Uyvy,
            r.fps == 30,
            r.mtu == 1200,
            !r.enforce_fixed_format,
    {
        DeviceSettings {
            stream_name: owned("stream0"),
            width: 1280,
            height: 720,
            pixel_format: PixelFormat::Uyvy,
            fps: 30,
            mtu: 1200,
            enforce_fixed_format: false,
        }
    }
}

/// Whether device settings can run, with the message for the first problem: a blank stream
/// name, a zero dimension, a zero rate, an MTU too small for a leader packet, or a frame too
/// large to address.
pub open spec fn spec_settings_problem(s: DeviceSettings) -> Option<Seq<char>> {
    if spec_trim(s.stream_name@).len() == 0 {
        Some("stream name must not be empty"@)
    } else if s.width == 0 || s.height == 0 {
        Some("frame size must be non-zero"@)
    } else if s.fps == 0 {
        Some("fps must be greater than zero"@)
    } else if s.mtu < 44 {
        Some("invalid device mtu "@ + spec_decimal(s.mtu as nat))
    } else {
        None
    }
}

/// Checks device settings before a device runs with them.
pub fn validate_settings(settings: &DeviceSettings) -> (r: Result<(), String>)
    requires
        settings.width * settings.height * crate::pixel_format::spec_bytes_per_pixel(
            settings.pixel_format,
        ) <= usize::MAX,
    ensures
        match spec_settings_problem(*settings) {
            Some(m) => r matches Err(e) && e@ == m,
            None => r is Ok,
        },
{
    if is_blank(settings.stream_name.as_str()) {
        return Err(owned("stream name must not be empty"));
    }
    if settings.width == 0 || settings.height == 0 {
        return Err(owned("frame size must be non-zero"));
    }
    if settings.fps == 0 {
        return Err(owned("fps must be greater than zero"));
    }
    match CompatPacketizer::new(settings.mtu as usize) {
        Ok(_) => {},
        Err(_) => {
            let mut m = String::new();
            push_str(&mut m, "invalid device mtu ");
            push_decimal(&mut m, settings.mtu as u64);
            return Err(m);
        },
    }
    match settings.pixel_format.payload_len(settings.width, settings.height) {
        Ok(_) => {},
        Err(_) => {
            return Err(owned("invalid device frame dimensions"));
        },
    }
    Ok(())
}

/// The description string of the stream: `EEVideo <name>`, NUL-terminated, as UTF-8.
pub open spec fn spec_stream_description(stream_name: Seq<char>) -> Seq<u8> {
    encode_utf8("EEVideo "@ + stream_name) + seq![0u8]
}

/// The string registers of a device: the stream description.
pub fn build_strings(stream_name: &str) -> (r: BTreeMap<u32, Vec<u8>>)
    ensures
        r@.dom() == set![STREAM_DESC_ADDR],
        r@[STREAM_DESC_ADDR]@ == spec_stream_description(stream_name@),
{
    let mut text = String::new();
    push_str(&mut text, "EEVideo ");
    push_str(&mut text, stream_name);
    let bytes = text.as_str().as_bytes();
    let mut value: Vec<u8> = Vec::new();
    extend_from_range(&mut value, bytes, 0, bytes.len());
    value.push(0);
    assert(bytes@.subrange(0, bytes@.len() as int) =~= bytes@);
    assert(value@ =~= spec_stream_description(stream_name@));
    let mut strings: BTreeMap<u32, Vec<u8>> = BTreeMap::new();
    strings.insert(STREAM_DESC_ADDR, value);
    assert(strings@.dom() =~= set![STREAM_DESC_ADDR]);
    strings
}

/// The registers a device starts with: the capability word, the feature table of the one
/// stream (pointer words, then the end marker and the memory map), and the stream registers
/// holding the configured format and MTU.
pub open spec fn spec_initial_registers(width: u32, height: u32, pixel_format: PixelFormat, mtu: u16) -> Map<
    u32,
    u32,
> {
    map![
        0u32 => 0xE71D_8FFFu32,
        16u32 => 0x1030_010Eu32,
        20u32 => STREAM_DESC_ADDR,
        24u32 => STREAM_MAX_PACKET_ADDR,
        28u32 => STREAM_DELAY_ADDR,
        32u32 => STREAM_DEST_MAC_ADDR,
        36u32 => STREAM_DEST_IP_ADDR,
        40u32 => STREAM_DEST_PORT_ADDR,
        44u32 => STREAM_SOURCE_PORT_ADDR,
        48u32 => STREAM_WIDTH_ADDR,
        52u32 => STREAM_HEIGHT_ADDR,
        56u32 => STREAM_PIXEL_FORMAT_ADDR,
        60u32 => STREAM_ACQ_ADDR,
        64u32 => STREAM_X_OFFSET_ADDR,
        68u32 => STREAM_Y_OFFSET_ADDR,
        72u32 => STREAM_TEST_PATTERN_ADDR,
        76u32 => 0xFFF0_0103u32,
        80u32 => 0x0000_03FFu32,
        84u32 => 0x0004_0000u32,
        88u32 => 0x0004_FFFFu32,
        STREAM_MAX_PACKET_ADDR => mtu as u32,
        STREAM_DELAY_ADDR => 0u32,
        STREAM_DEST_IP_ADDR => 0u32,
        STREAM_DEST_PORT_ADDR => 0u32,
        STREAM_SOURCE_PORT_ADDR => 0u32,
        STREAM_WIDTH_ADDR => width,
        STREAM_HEIGHT_ADDR => height,
        STREAM_PIXEL_FORMAT_ADDR => spec_pfnc(pixel_format) & 0xffff,
        STREAM_ACQ_ADDR => 0u32,
        STREAM_X_OFFSET_ADDR => 0u32,
        STREAM_Y_OFFSET_ADDR => 0u32,
        STREAM_TEST_PATTERN_ADDR => 0u32
    ]
}

/// The registers a device starts with.
pub fn build_registers(settings: &DeviceSettings) -> (r: BTreeMap<u32, u32>)
    ensures
        r@ == spec_initial_registers(
            settings.width,
            settings.height,
            settings.pixel_format,
            settings.mtu,
        ),
{
    let mut registers: BTreeMap<u32, u32> = BTreeMap::new();
    registers.insert(CAPABILITIES_ADDR, 0xE71D_8FFF);
    registers.insert(FEATURE_TABLE_ADDR, 0x1030_010E);
    let pointers: [u32; 14] = [
        STREAM_DESC_ADDR,
        STREAM_MAX_PACKET_ADDR,
        STREAM_DELAY_ADDR,
        STREAM_DEST_MAC_ADDR,
        STREAM_DEST_IP_ADDR,
        STREAM_DEST_PORT_ADDR,
        STREAM_SOURCE_PORT_ADDR,
        STREAM_WIDTH_ADDR,
        STREAM_HEIGHT_ADDR,
        STREAM_PIXEL_FORMAT_ADDR,
        STREAM_ACQ_ADDR,
        STREAM_X_OFFSET_ADDR,
        STREAM_Y_OFFSET_ADDR,
        STREAM_TEST_PATTERN_ADDR,
    ];
    let ghost before = registers@;
    let mut index: usize = 0;
    while index < 14
        invariant
            index <= 14,
            pointers@ == seq![
                STREAM_DESC_ADDR,
                STREAM_MAX_PACKET_ADDR,
                STREAM_DELAY_ADDR,
                STREAM_DEST_MAC_ADDR,
                STREAM_DEST_IP_ADDR,
                STREAM_DEST_PORT_ADDR,
                STREAM_SOURCE_PORT_ADDR,
                STREAM_WIDTH_ADDR,
                STREAM_HEIGHT_ADDR,
                STREAM_PIXEL_FORMAT_ADDR,
                STREAM_ACQ_ADDR,
                STREAM_X_OFFSET_ADDR,
                STREAM_Y_OFFSET_ADDR,
                STREAM_TEST_PATTERN_ADDR,
            ],
            registers@ == before.union_prefer_right(
                Map::new(
                    |a: u32| 20 <= a < 20 + 4 * index && (a - 20) % 4 == 0,
                    |a: u32| pointers@[(a - 20) / 4],
                ),
            ),
        decreases 14 - index,
    {
        let address = FEATURE_TABLE_ADDR + 4 + (index as u32) * 4;
        let ghost prev = registers@;
        registers.insert(address, pointers[index]);
        assert(registers@ =~= before.union_prefer_right(
            Map::new(
                |a: u32| 20 <= a < 20 + 4 * (index + 1) && (a - 20) % 4 == 0,
                |a: u32| pointers@[(a - 20) / 4],
            ),
        ));
        index = index + 1;
    }
    let end_addr: u32 = FEATURE_TABLE_ADDR + 4 + 14 * 4;
    registers.insert(end_addr, 0xFFF0_0103);
    registers.insert(end_addr + 4, 0x0000_03FF);
    registers.insert(end_addr + 8, 0x0004_0000);
    registers.insert(end_addr + 12, 0x0004_FFFF);
    registers.insert(STREAM_MAX_PACKET_ADDR, settings.mtu as u32);
    registers.insert(STREAM_DELAY_ADDR, 0);
    registers.insert(STREAM_DEST_IP_ADDR, 0);
    registers.insert(STREAM_DEST_PORT_ADDR, 0);
    registers.insert(STREAM_SOURCE_PORT_ADDR, 0);
    registers.insert(STREAM_WIDTH_ADDR, settings.width);
    registers.insert(STREAM_HEIGHT_ADDR, settings.height);
    registers.insert(STREAM_PIXEL_FORMAT_ADDR, settings.pixel_format.pfnc() & 0xffff);
    registers.insert(STREAM_ACQ_ADDR, 0);
    registers.insert(STREAM_X_OFFSET_ADDR, 0);
    registers.insert(STREAM_Y_OFFSET_ADDR, 0);
    registers.insert(STREAM_TEST_PATTERN_ADDR, 0);
    assert(registers@ =~= spec_initial_registers(
        settings.width,
        settings.height,
        settings.pixel_format,
        settings.mtu,
    ));
    registers
}

/// The values of the path options (number 11) that are valid UTF-8, in order.
pub open spec fn spec_path_values(options: Seq<(u16, Seq<u8>)>) -> Seq<Seq<u8>>
    decreases options.len(),
{
    if options.len() == 0 {
        seq![]
    } else {
        let rest = spec_path_values(options.drop_last());
        let o = options.last();
        if o.0 == 11 && valid_utf8(o.1) {
            rest.push(o.1)
        } else {
            rest
        }
    }
}

/// Whether a request is the discovery request: a GET of `/.well-known/core` with the query
/// `rt=eev.cam`.
pub open spec fn spec_is_discovery_request(m: MessageView) -> bool {
    &&& m.code == 1
    &&& spec_path_values(m.options) == seq![well_known_bytes(), core_bytes()]
    &&& exists|i: int|
        0 <= i < m.options.len() && (#[trigger] m.options[i]).0 == 15 && m.options[i].1
            == resource_type_query_bytes()
}

fn bytes_equal_seq(a: &[u8], b: &Vec<u8>) -> (r: bool)
    ensures
        r == (a@ == b@),
{
    if a.len() != b.len() {
        return false;
    }
    let mut i: usize = 0;
    while i < a.len()
        invariant
            a@.len() == b@.len(),
            i <= a@.len(),
            forall|j: int| 0 <= j < i ==> a@[j] == b@[j],
        decreases a@.len() - i,
    {
        if a[i] != b[i] {
            return false;
        }
        i = i + 1;
    }
    assert(a@ =~= b@);
    true
}

/// Whether a request is the discovery request.
pub fn is_discovery_request(request: &CoapMessage) -> (r: bool)
    ensures
        r == spec_is_discovery_request(request@),
{
    if request.code != 1 {
        return false;
    }
    let well_known: Vec<u8> = vec![0x2eu8, 0x77, 0x65, 0x6c, 0x6c, 0x2d, 0x6b, 0x6e, 0x6f, 0x77, 0x6e];
    let core: Vec<u8> = vec![0x63u8, 0x6f, 0x72, 0x65];
    let query: Vec<u8> = vec![0x72u8, 0x74, 0x3d, 0x65, 0x65, 0x76, 0x2e, 0x63, 0x61, 0x6d];
    assert(well_known@ == well_known_bytes());
    assert(core@ == core_bytes());
    assert(query@ == resource_type_query_bytes());
    let ghost opts = request@.options;
    let ghost expected = seq![well_known_bytes(), core_bytes()];
    let mut matched: usize = 0;
    let mut path_ok = true;
    let mut query_found = false;
    let mut i: usize = 0;
    assert(opts.subrange(0, 0) =~= Seq::<(u16, Seq<u8>)>::empty());
    while i < request.options.len()
        invariant
            opts == request@.options,
            opts.len() == request.options@.len(),
            i <= opts.len(),
            well_known@ == well_known_bytes(),
            core@ == core_bytes(),
            query@ == resource_type_query_bytes(),
            expected == seq![well_known_bytes(), core_bytes()],
            path_ok ==> matched <= 2 && spec_path_values(opts.subrange(0, i as int))
                == expected.subrange(0, matched as int),
            !path_ok ==> forall|rest: Seq<(u16, Seq<u8>)>|
                spec_path_values(#[trigger] (opts.subrange(0, i as int) + rest)) != expected,
            query_found <==> exists|j: int|
                0 <= j < i && (#[trigger] opts[j]).0 == 15 && opts[j].1 == resource_type_query_bytes(),
        decreases opts.len() - i,
    {
        let option = &request.options[i];
        let ghost prefix = opts.subrange(0, i + 1);
        assert(prefix.drop_last() =~= opts.subrange(0, i as int));
        assert(opts[i as int] == option@);
        if option.number == 15 && bytes_equal_seq(option.value.as_slice(), &query) {
            query_found = true;
        }
        if option.number == 11 {
            match crate::discovery::str_from_utf8(option.value.as_slice()) {
                Ok(_) => {
                    if path_ok {
                        if matched == 0 && bytes_equal_seq(option.value.as_slice(), &well_known) {
                            matched = 1;
                            assert(expected.subrange(0, 1) =~= seq![well_known_bytes()]);
                            assert(seq![].push(option.value@) =~= seq![well_known_bytes()]);
                        } else if matched == 1 && bytes_equal_seq(option.value.as_slice(), &core) {
                            matched = 2;
                            assert(expected.subrange(0, 2) =~= expected);
                            assert(expected.subrange(0, 1).push(option.value@) =~= expected);
                        } else {
                            path_ok = false;
                            proof {
                                assert forall|rest: Seq<(u16, Seq<u8>)>|
                                    spec_path_values(
                                        #[trigger] (opts.subrange(0, i + 1) + rest),
                                    ) != expected by {
                                    lemma_path_values_prefix(opts.subrange(0, i + 1), rest);
                                    let pv = spec_path_values(opts.subrange(0, i + 1));
                                    assert(pv == expected.subrange(0, matched as int).push(
                                        option.value@,
                                    ));
                                    if spec_path_values(opts.subrange(0, i + 1) + rest) == expected {
                                        assert(pv.len() <= 2);
                                        assert(expected[matched as int] == pv[matched as int]);
                                    }
                                }
                            }
                        }
                    } else {
                        proof {
                            assert forall|rest: Seq<(u16, Seq<u8>)>|
                                spec_path_values(#[trigger] (opts.subrange(0, i + 1) + rest))
                                    != expected by {
                                assert(opts.subrange(0, i + 1) + rest =~= opts.subrange(0, i as int)
                                    + (seq![opts[i as int]] + rest));
                            }
                        }
                    }
                },
                Err(_) => {
                    proof {
                        if !path_ok {
                            assert forall|rest: Seq<(u16, Seq<u8>)>|
                                spec_path_values(#[trigger] (opts.subrange(0, i + 1) + rest))
                                    != expected by {
                                assert(opts.subrange(0, i + 1) + rest =~= opts.subrange(0, i as int)
                                    + (seq![opts[i as int]] + rest));
                            }
                        }
                    }
                },
            }
        } else {
            proof {
                if !path_ok {
                    assert forall|rest: Seq<(u16, Seq<u8>)>|
                        spec_path_values(#[trigger] (opts.subrange(0, i + 1) + rest)) != expected by {
                        assert(opts.subrange(0, i + 1) + rest =~= opts.subrange(0, i as int) + (
                        seq![opts[i as int]] + rest));
                    }
                }
            }
        }
        i = i + 1;
    }
    proof {
        assert(opts.subrange(0, opts.len() as int) =~= opts);
        if !path_ok {
            assert(opts.subrange(0, opts.len() as int) + seq![] =~= opts);
            assert(spec_path_values(opts.subrange(0, opts.len() as int) + seq![]) != expected);
            assert(spec_path_values(opts) != expected);
        } else if matched < 2 {
            assert(spec_path_values(opts).len() < 2);
            assert(spec_path_values(opts) != expected);
        } else {
            assert(expected.subrange(0, 2) =~= expected);
            assert(spec_path_values(opts) == expected);
        }
    }
    path_ok && matched == 2 && query_found
}

proof fn lemma_path_values_prefix(a: Seq<(u16, Seq<u8>)>, b: Seq<(u16, Seq<u8>)>)
    ensures
        spec_path_values(a).is_prefix_of(spec_path_values(a + b)),
    decreases b.len(),
{
    if b.len() == 0 {
        assert(a + b =~= a);
    } else {
        lemma_path_values_prefix(a, b.drop_last());
        assert((a + b).drop_last() =~= a + b.drop_last());
    }
}

/// The discovery answer's link: `</stream>;rt="eev.cam";if="iface"`.
pub open spec fn spec_discovery_link(stream_name: Seq<char>, interface_name: Seq<char>) -> Seq<char> {
    "</"@ + stream_name + ">;rt=\"eev.cam\";if=\""@ + interface_name + "\""@
}

/// The answer to a discovery request: a non-confirmable Content message echoing the request's
/// id and token, with the stream's link as payload.
pub fn build_discovery_response(
    request: &CoapMessage,
    stream_name: &str,
    interface_name: &str,
) -> (r: CoapMessage)
    ensures
        r@ == (MessageView {
            version: 1,
            message_type: CoapMessageType::NonConfirmable,
            code: 69,
            message_id: request.message_id,
            token: request.token@,
            options: seq![],
            payload: encode_utf8(spec_discovery_link(stream_name@, interface_name@)),
        }),
{
    let mut text = String::new();
    push_str(&mut text, "</");
    push_str(&mut text, stream_name);
    push_str(&mut text, ">;rt=\"eev.cam\";if=\"");
    push_str(&mut text, interface_name);
    push_str(&mut text, "\"");
    let bytes = text.as_str().as_bytes();
    let mut payload: Vec<u8> = Vec::new();
    extend_from_range(&mut payload, bytes, 0, bytes.len());
    assert(bytes@.subrange(0, bytes@.len() as int) =~= bytes@);
    let mut token: Vec<u8> = Vec::new();
    extend_from_range(&mut token, request.token.as_slice(), 0, request.token.len());
    assert(request.token@.subrange(0, request.token@.len() as int) =~= request.token@);
    let options: Vec<CoapOption> = Vec::new();
    let r = CoapMessage::new(
        CoapMessageType::NonConfirmable,
        69,
        request.message_id,
        token,
        options,
        payload,
    );
    assert(r@.options =~= seq![]);
    r
}

/// The value a device keeps for a write: with a fixed format, a write of another width, height
/// or pixel format keeps the old value; any other write is taken as it is.
pub open spec fn spec_normalize_write(s: DeviceSettings, address: u32, old_value: u32, requested: u32) -> u32 {
    if !s.enforce_fixed_format {
        requested
    } else if address == STREAM_WIDTH_ADDR && requested != s.width {
        old_value
    } else if address == STREAM_HEIGHT_ADDR && requested != s.height {
        old_value
    } else if address == STREAM_PIXEL_FORMAT_ADDR && requested != (spec_pfnc(s.pixel_format)
        & 0xffff) {
        old_value
    } else {
        requested
    }
}

/// The value a device keeps for a register write.
pub fn normalize_write_value(
    settings: &DeviceSettings,
    address: u32,
    old_value: u32,
    requested_value: u32,
) -> (r: u32)
    ensures
        r == spec_normalize_write(*settings, address, old_value, requested_value),
{
    if !settings.enforce_fixed_format {
        return requested_value;
    }
    if address == STREAM_WIDTH_ADDR && requested_value != settings.width {
        old_value
    } else if address == STREAM_HEIGHT_ADDR && requested_value != settings.height {
        old_value
    } else if address == STREAM_PIXEL_FORMAT_ADDR && requested_value != (
    settings.pixel_format.pfnc() & 0xffff) {
        old_value
    } else {
        requested_value
    }
}

/// What a register write means for the sender.
#[derive(Clone, Copy, Debug, PartialEq, Eq, Structural)]
pub enum RegisterEffect {
    Nothing,
    StreamStarted,
    StreamStopped,
    SettingsChanged,
}

/// What a write of `new_value` over `old_value` at `address` means: the enable bit of the
/// max-packet-size register turning on or off starts or stops the stream; a write of a stream
/// setting changes the settings.
pub open spec fn spec_write_effect(address: u32, old_value: u32, new_value: u32) -> RegisterEffect {
    if address == STREAM_MAX_PACKET_ADDR {
        let was = old_value & MAX_PACKET_ENABLE_BIT != 0;
        let now = new_value & MAX_PACKET_ENABLE_BIT != 0;
        if !was && now {
            RegisterEffect::StreamStarted
        } else if was && !now {
            RegisterEffect::StreamStopped
        } else {
            RegisterEffect::Nothing
        }
    } else if address == STREAM_DELAY_ADDR || address == STREAM_DEST_IP_ADDR || address
        == STREAM_DEST_PORT_ADDR || address == STREAM_WIDTH_ADDR || address == STREAM_HEIGHT_ADDR
        || address == STREAM_PIXEL_FORMAT_ADDR {
        RegisterEffect::SettingsChanged
    } else {
        RegisterEffect::Nothing
    }
}

/// The value of the first option with a number, if any.
pub open spec fn spec_first_option(options: Seq<(u16, Seq<u8>)>, number: u16) -> Option<Seq<u8>>
    decreases options.len(),
{
    if options.len() == 0 {
        None
    } else {
        match spec_first_option(options.drop_last(), number) {
            Some(v) => Some(v),
            None => if options.last().0 == number {
                Some(options.last().1)
            } else {
                None
            },
        }
    }
}

/// The register address a request names: its first address option, when four bytes long.
pub open spec fn spec_request_address(options: Seq<(u16, Seq<u8>)>) -> Option<u32> {
    match spec_first_option(options, 65305) {
        Some(v) => if v.len() == 4 {
            Some(be32(v, 0))
        } else {
            None
        },
        None => None,
    }
}

/// Whether a request's first access option asks for a string read.
pub open spec fn spec_string_read(options: Seq<(u16, Seq<u8>)>) -> bool {
    match spec_first_option(options, 65301) {
        Some(v) => v.len() > 0 && v[0] >> 5u8 == 5,
        None => false,
    }
}

/// An acknowledgement of a request with a code and a payload.
pub open spec fn spec_ack(request: MessageView, code: u8, payload: Seq<u8>) -> MessageView {
    MessageView {
        version: 1,
        message_type: CoapMessageType::Acknowledgement,
        code,
        message_id: request.message_id,
        token: request.token,
        options: seq![],
        payload,
    }
}

/// The value of a register, zero where it has none.
pub open spec fn register_value(registers: Map<u32, u32>, address: u32) -> u32 {
    if registers.contains_key(address) {
        registers[address]
    } else {
        0
    }
}

proof fn lemma_first_option(options: Seq<(u16, Seq<u8>)>, number: u16)
    ensures
        match spec_first_option(options, number) {
            Some(v) => exists|i: int|
                0 <= i < options.len() && options[i].0 == number && options[i].1 == v && forall|
                    j: int,
                | 0 <= j < i ==> (#[trigger] options[j]).0 != number,
            None => forall|j: int| 0 <= j < options.len() ==> (#[trigger] options[j]).0 != number,
        },
    decreases options.len(),
{
    if options.len() > 0 {
        let t = options.drop_last();
        lemma_first_option(t, number);
        assert(forall|j: int| 0 <= j < t.len() ==> t[j] == options[j]);
        match spec_first_option(t, number) {
            Some(v) => {
                let i = choose|i: int|
                    0 <= i < t.len() && t[i].0 == number && t[i].1 == v && forall|j: int|
                        0 <= j < i ==> (#[trigger] t[j]).0 != number;
                assert(options[i] == t[i]);
            },
            None => {
                if options.last().0 == number {
                    assert(options[options.len() - 1] == options.last());
                }
            },
        }
    }
}

fn first_option(options: &Vec<CoapOption>, number: u16) -> (r: Option<&Vec<u8>>)
    ensures
        match spec_first_option(crate::coap::options_view(options@), number) {
            Some(v) => r matches Some(x) && x@ == v,
            None => r is None,
        },
{
    let ghost ov = crate::coap::options_view(options@);
    proof {
        lemma_first_option(ov, number);
    }
    let mut i: usize = 0;
    while i < options.len()
        invariant
            ov == crate::coap::options_view(options@),
            i <= options@.len(),
            forall|j: int| 0 <= j < i ==> (#[trigger] ov[j]).0 != number,
            match spec_first_option(ov, number) {
                Some(v) => exists|k: int|
                    0 <= k < ov.len() && ov[k].0 == number && ov[k].1 == v && forall|j: int|
                        0 <= j < k ==> (#[trigger] ov[j]).0 != number,
                None => forall|j: int| 0 <= j < ov.len() ==> (#[trigger] ov[j]).0 != number,
            },
        decreases options@.len() - i,
    {
        assert(ov[i as int] == options@[i as int]@);
        if options[i].number == number {
            return Some(&options[i].value);
        }
        i = i + 1;
    }
    None
}

/// What a device does with a register request: the answer, the new registers, and what the
/// write means; no answer for a request without a four-byte address or an unusable write.
pub open spec fn spec_register_request(
    s: DeviceSettings,
    registers: Map<u32, u32>,
    strings: Map<u32, Seq<u8>>,
    request: MessageView,
) -> Option<(MessageView, Map<u32, u32>, RegisterEffect)> {
    match spec_request_address(request.options) {
        None => None,
        Some(address) => if request.code == 1 {
            let payload = if spec_string_read(request.options) {
                if strings.contains_key(address) {
                    strings[address]
                } else {
                    seq![]
                }
            } else {
                bytes32(register_value(registers, address))
            };
            Some((spec_ack(request, 69, payload), registers, RegisterEffect::Nothing))
        } else if request.code != 3 || request.payload.len() != 4 {
            None
        } else {
            let old_value = register_value(registers, address);
            let new_value = spec_normalize_write(s, address, old_value, be32(request.payload, 0));
            Some(
                (
                    spec_ack(request, 68, seq![]),
                    registers.insert(address, new_value),
                    spec_write_effect(address, old_value, new_value),
                ),
            )
        },
    }
}

/// The string registers with their values as byte sequences.
pub open spec fn strings_view(strings: Map<u32, Vec<u8>>) -> Map<u32, Seq<u8>> {
    strings.map_values(|v: Vec<u8>| v@)
}

fn copy_vec(v: &Vec<u8>) -> (r: Vec<u8>)
    ensures
        r@ == v@,
{
    let mut out: Vec<u8> = Vec::new();
    extend_from_range(&mut out, v.as_slice(), 0, v.len());
    assert(v@.subrange(0, v@.len() as int) =~= v@);
    out
}

/// Answers a register read or write against a device's registers.
pub fn apply_register_request(
    settings: &DeviceSettings,
    registers: &mut BTreeMap<u32, u32>,
    strings: &BTreeMap<u32, Vec<u8>>,
    request: &CoapMessage,
) -> (r: Option<(CoapMessage, RegisterEffect)>)
    ensures
        match spec_register_request(*settings, old(registers)@, strings_view(strings@), request@) {
            Some((answer, regs, effect)) => r matches Some((m, e)) && m@ == answer && e == effect
                && final(registers)@ == regs,
            None => r is None && final(registers)@ == old(registers)@,
        },
{
    let address = match first_option(&request.options, 65305) {
        Some(value) => {
            if value.len() != 4 {
                return None;
            }
            crate::compat_stream::read_u32(value.as_slice(), 0)
        },
        None => return None,
    };
    let string_read = match first_option(&request.options, 65301) {
        Some(value) => value.len() > 0 && (value[0] >> 5u8) == 5,
        None => false,
    };
    let token = copy_vec(&request.token);
    if request.code == 1 {
        let payload: Vec<u8> = if string_read {
            match strings.get(&address) {
                Some(v) => copy_vec(v),
                None => Vec::new(),
            }
        } else {
            let value = match registers.get(&address) {
                Some(v) => *v,
                None => 0,
            };
            let mut p: Vec<u8> = Vec::new();
            crate::compat_stream::push_u32(&mut p, value);
            assert(p@ =~= bytes32(value));
            p
        };
        let answer = CoapMessage::new(
            CoapMessageType::Acknowledgement,
            69,
            request.message_id,
            token,
            Vec::new(),
            payload,
        );
        proof {
            assert(answer@.options =~= seq![]);
            if !string_read {
            } else if strings@.contains_key(address) {
                assert(strings_view(strings@)[address] == strings@[address]@);
            }
        }
        return Some((answer, RegisterEffect::Nothing));
    }
    if request.code != 3 || request.payload.len() != 4 {
        return None;
    }
    let requested_value = crate::compat_stream::read_u32(request.payload.as_slice(), 0);
    let old_value = match registers.get(&address) {
        Some(v) => *v,
        None => 0,
    };
    let new_value = normalize_write_value(settings, address, old_value, requested_value);
    registers.insert(address, new_value);
    let effect = if address == STREAM_MAX_PACKET_ADDR {
        let was = old_value & MAX_PACKET_ENABLE_BIT != 0;
        let now = new_value & MAX_PACKET_ENABLE_BIT != 0;
        if !was && now {
            RegisterEffect::StreamStarted
        } else if was && !now {
            RegisterEffect::StreamStopped
        } else {
            RegisterEffect::Nothing
        }
    } else if address == STREAM_DELAY_ADDR || address == STREAM_DEST_IP_ADDR || address
        == STREAM_DEST_PORT_ADDR || address == STREAM_WIDTH_ADDR || address == STREAM_HEIGHT_ADDR
        || address == STREAM_PIXEL_FORMAT_ADDR {
        RegisterEffect::SettingsChanged
    } else {
        RegisterEffect::Nothing
    };
    let answer = CoapMessage::new(
        CoapMessageType::Acknowledgement,
        68,
        request.message_id,
        token,
        Vec::new(),
        Vec::new(),
    );
    assert(answer@.options =~= seq![]);
    assert(answer@.payload =~= seq![]);
    Some((answer, effect))
}

/// Whether the stream is enabled: the enable bit of the max-packet-size register (zero where
/// the register is missing).
pub open spec fn spec_stream_enabled(registers: Map<u32, u32>) -> bool {
    register_value(registers, STREAM_MAX_PACKET_ADDR) & MAX_PACKET_ENABLE_BIT != 0
}

/// Whether the stream is enabled.
pub fn stream_enabled(registers: &BTreeMap<u32, u32>) -> (r: bool)
    ensures
        r == spec_stream_enabled(registers@),
{
    let value = match registers.get(&STREAM_MAX_PACKET_ADDR) {
        Some(v) => *v,
        None => 0,
    };
    value & MAX_PACKET_ENABLE_BIT != 0
}

/// A register's value, or `default` where it is missing or zero.
pub open spec fn spec_register_or_default(registers: Map<u32, u32>, address: u32, default: u32) -> u32 {
    let value = if registers.contains_key(address) {
        registers[address]
    } else {
        default
    };
    if value == 0 {
        default
    } else {
        value
    }
}

/// A register's value, or `default` where it is missing or zero.
pub fn register_or_default(registers: &BTreeMap<u32, u32>, address: u32, default: u32) -> (r: u32)
    ensures
        r == spec_register_or_default(registers@, address, default),
{
    let value = match registers.get(&address) {
        Some(v) => *v,
        None => default,
    };
    if value == 0 {
        default
    } else {
        value
    }
}

/// What the sender needs to send the stream.
#[derive(Clone, Copy, Debug, PartialEq, Eq, Structural)]
pub struct StreamSettings {
    pub destination_ip: u32,
    pub destination_port: u16,
    pub mtu: usize,
    pub packet_delay_ns: u32,
    pub capture: CaptureConfiguration,
}

/// The sender's settings read from the registers: the destination, the MTU (the register's
/// low 16 bits, the configured MTU where it is missing, at least 256), the delay, and the
/// capture format (the configured one where a register is missing, zero or unknown).
pub open spec fn spec_stream_settings(registers: Map<u32, u32>, s: DeviceSettings) -> StreamSettings {
    let mtu_raw: int = if registers.contains_key(STREAM_MAX_PACKET_ADDR) {
        (registers[STREAM_MAX_PACKET_ADDR] & MAX_PACKET_MASK) as int
    } else {
        s.mtu as int
    };
    let bits = if registers.contains_key(STREAM_PIXEL_FORMAT_ADDR) {
        registers[STREAM_PIXEL_FORMAT_ADDR]
    } else {
        spec_pfnc(s.pixel_format) & 0xffff
    };
    StreamSettings {
        destination_ip: register_value(registers, STREAM_DEST_IP_ADDR),
        destination_port: (register_value(registers, STREAM_DEST_PORT_ADDR) & 0xffff) as u16,
        mtu: (if mtu_raw < 256 {
            256
        } else {
            mtu_raw
        }) as usize,
        packet_delay_ns: register_value(registers, STREAM_DELAY_ADDR) & DELAY_MASK,
        capture: CaptureConfiguration {
            width: spec_register_or_default(registers, STREAM_WIDTH_ADDR, s.width),
            height: spec_register_or_default(registers, STREAM_HEIGHT_ADDR, s.height),
            pixel_format: match spec_from_device_bits(bits) {
                Some(f) => f,
                None => s.pixel_format,
            },
            fps: s.fps,
        },
    }
}

/// The stream goes to the UDP port held in the low 16 bits of the destination-port register
/// (port 0 where the register is missing): a register holding a port number gives exactly
/// that port.
pub proof fn lemma_stream_destination_port(registers: Map<u32, u32>, s: DeviceSettings)
    ensures
        registers.contains_key(STREAM_DEST_PORT_ADDR) ==> spec_stream_settings(
            registers,
            s,
        ).destination_port == registers[STREAM_DEST_PORT_ADDR] % 0x10000,
        registers.contains_key(STREAM_DEST_PORT_ADDR) && registers[STREAM_DEST_PORT_ADDR] <= 0xffff
            ==> spec_stream_settings(registers, s).destination_port
            == registers[STREAM_DEST_PORT_ADDR],
        !registers.contains_key(STREAM_DEST_PORT_ADDR) ==> spec_stream_settings(
            registers,
            s,
        ).destination_port == 0,
{
    if registers.contains_key(STREAM_DEST_PORT_ADDR) {
        let v = registers[STREAM_DEST_PORT_ADDR];
        assert(((v & 0xffff) as u16) as int == v % 0x10000) by (bit_vector);
    } else {
        assert(((0u32 & 0xffff) as u16) == 0) by (bit_vector);
    }
}

/// The rest of where and how the stream is sent comes from the registers too: the
/// destination address is the destination-IP register (0 where it is missing), the MTU is the
/// low 16 bits of the max-packet-size register (the configured MTU where it is missing),
/// raised to 256 when smaller, and the packet delay is the low 24 bits of the delay register.
pub proof fn lemma_stream_transport_settings(registers: Map<u32, u32>, s: DeviceSettings)
    ensures
        ({
            let st = spec_stream_settings(registers, s);
            &&& registers.contains_key(STREAM_DEST_IP_ADDR) ==> st.destination_ip
                == registers[STREAM_DEST_IP_ADDR]
            &&& !registers.contains_key(STREAM_DEST_IP_ADDR) ==> st.destination_ip == 0
            &&& registers.contains_key(STREAM_MAX_PACKET_ADDR) ==> st.mtu == if registers[STREAM_MAX_PACKET_ADDR]
                % 0x10000 < 256 {
                256
            } else {
                registers[STREAM_MAX_PACKET_ADDR] % 0x10000
            }
            &&& !registers.contains_key(STREAM_MAX_PACKET_ADDR) ==> st.mtu == if s.mtu < 256 {
                256
            } else {
                s.mtu as int
            }
            &&& registers.contains_key(STREAM_DELAY_ADDR) ==> st.packet_delay_ns
                == registers[STREAM_DELAY_ADDR] % 0x0100_0000
            &&& st.mtu >= 256
        }),
{
    if registers.contains_key(STREAM_MAX_PACKET_ADDR) {
        let v = registers[STREAM_MAX_PACKET_ADDR];
        assert(v & 0xffff == v % 0x10000) by (bit_vector);
    }
    if registers.contains_key(STREAM_DELAY_ADDR) {
        let v = registers[STREAM_DELAY_ADDR];
        assert(v & 0x00ff_ffff == v % 0x0100_0000) by (bit_vector);
    }
}

/// The sender's settings, when the stream is enabled.
pub fn stream_settings(registers: &BTreeMap<u32, u32>, settings: &DeviceSettings) -> (r: Option<
    StreamSettings,
>)
    ensures
        spec_stream_enabled(registers@) ==> r == Some(spec_stream_settings(registers@, *settings)),
        !spec_stream_enabled(registers@) ==> r is None,
{
    if !stream_enabled(registers) {
        return None;
    }
    let destination_port = ((match registers.get(&STREAM_DEST_PORT_ADDR) {
        Some(v) => *v,
        None => 0,
    }) & 0xffff) as u16;
    let destination_ip = match registers.get(&STREAM_DEST_IP_ADDR) {
        Some(v) => *v,
        None => 0,
    };
    let mtu_raw: usize = match registers.get(&STREAM_MAX_PACKET_ADDR) {
        Some(v) => (*v & MAX_PACKET_MASK) as usize,
        None => settings.mtu as usize,
    };
    let mtu = if mtu_raw < 256 {
        256
    } else {
        mtu_raw
    };
    let packet_delay_ns = (match registers.get(&STREAM_DELAY_ADDR) {
        Some(v) => *v,
        None => 0,
    }) & DELAY_MASK;
    let width = register_or_default(registers, STREAM_WIDTH_ADDR, settings.width);
    let height = register_or_default(registers, STREAM_HEIGHT_ADDR, settings.height);
    let bits = match registers.get(&STREAM_PIXEL_FORMAT_ADDR) {
        Some(v) => *v,
        None => settings.pixel_format.pfnc() & 0xffff,
    };
    let pixel_format = match crate::pixel_format::pixel_format_from_device_bits(bits) {
        Some(f) => f,
        None => settings.pixel_format,
    };
    Some(
        StreamSettings {
            destination_ip,
            destination_port,
            mtu,
            packet_delay_ns,
            capture: CaptureConfiguration { width, height, pixel_format, fps: settings.fps },
        },
    )
}

/// `a + b` modulo 256.
pub open spec fn add_wrapping_u8(a: u8, b: u8) -> u8 {
    if a + b > 255 {
        (a + b - 256) as u8
    } else {
        (a + b) as u8
    }
}

/// The number of cells in a row of the test pattern: pairs of pixels for UYVY, else pixels.
pub open spec fn pattern_cells(f: PixelFormat, width: u32) -> nat {
    if f == PixelFormat::Uyvy {
        ((width as nat + 1) / 2) as nat
    } else {
        width as nat
    }
}

/// `v` at least 1.
pub open spec fn at_least_one(v: u32) -> int {
    if v == 0 {
        1
    } else {
        v as int
    }
}

/// The bytes of one cell of the test pattern for frame `frame_id`: cell `c` of row `y`.
pub open spec fn pattern_cell(
    f: PixelFormat,
    frame_id: u32,
    width: u32,
    height: u32,
    y: int,
    c: int,
) -> Seq<u8> {
    let phase = (frame_id & 0xffu32) as u8;
    match f {
        PixelFormat::Uyvy => {
            let x = 2 * c;
            let y0 = (((x + frame_id) * 255) / at_least_one(width)) as u8;
            let y1 = (((x + 1 + frame_id) * 255) / at_least_one(width)) as u8;
            let u = (((y + frame_id) * 255) / at_least_one(height)) as u8;
            let v = add_wrapping_u8(phase, ((x / 2) * 31) as u8);
            seq![u, y0, v, y1]
        },
        PixelFormat::Mono16 => {
            let sample = ((((c + y + frame_id) * 257) as u32) & 0xffffu32) as u16;
            seq![(sample & 0xffu16) as u8, (sample >> 8u16) as u8]
        },
        PixelFormat::Rgb8 => {
            let r = (((c + frame_id) * 255) / at_least_one(width)) as u8;
            let g = (((y + frame_id) * 255) / at_least_one(height)) as u8;
            let b = add_wrapping_u8(phase, (((c as u32) ^ (y as u32)) & 0xffu32) as u8);
            seq![r, g, b]
        },
        _ => seq![(((((c + y + frame_id) * 13) + (frame_id * 7)) as u32) & 0xffu32) as u8],
    }
}

/// The first `n` cells of row `y` of the test pattern.
pub open spec fn pattern_row(
    f: PixelFormat,
    frame_id: u32,
    width: u32,
    height: u32,
    y: int,
    n: nat,
) -> Seq<u8>
    decreases n,
{
    if n == 0 {
        seq![]
    } else {
        pattern_row(f, frame_id, width, height, y, (n - 1) as nat) + pattern_cell(
            f,
            frame_id,
            width,
            height,
            y,
            n - 1,
        )
    }
}

/// The first `m` rows of the test pattern.
pub open spec fn pattern_rows(f: PixelFormat, frame_id: u32, width: u32, height: u32, m: nat) -> Seq<
    u8,
>
    decreases m,
{
    if m == 0 {
        seq![]
    } else {
        pattern_rows(f, frame_id, width, height, (m - 1) as nat) + pattern_row(
            f,
            frame_id,
            width,
            height,
            m - 1,
            pattern_cells(f, width),
        )
    }
}

/// Whether the 32-bit arithmetic of the test pattern stays in range for a frame.
pub open spec fn pattern_fits(f: PixelFormat, width: u32, height: u32, frame_id: u32) -> bool {
    width == 0 || height == 0 || match f {
        PixelFormat::Uyvy => {
            let last_x = 2 * (pattern_cells(f, width) - 1);
            &&& (last_x + 1 + frame_id) * 255 <= u32::MAX
            &&& (height - 1 + frame_id) * 255 <= u32::MAX
            &&& (last_x / 2) * 31 <= u32::MAX
        },
        PixelFormat::Mono16 => (width - 1 + height - 1 + frame_id) * 257 <= u32::MAX,
        PixelFormat::Rgb8 => (width - 1 + frame_id) * 255 <= u32::MAX && (height - 1 + frame_id)
            * 255 <= u32::MAX,
        _ => (width - 1 + height - 1 + frame_id) * 13 + frame_id * 7 <= u32::MAX,
    }
}

/// Whether the 32-bit arithmetic of the test pattern stays in range for a frame.
pub fn pattern_arithmetic_fits(f: PixelFormat, width: u32, height: u32, frame_id: u32) -> (r: bool)
    ensures
        r == pattern_fits(f, width, height, frame_id),
{
    if width == 0 || height == 0 {
        return true;
    }
    let w = width as u64;
    let h = height as u64;
    let id = frame_id as u64;
    let max = u32::MAX as u64;
    match f {
        PixelFormat::Uyvy => {
            let cells = (w + 1) / 2;
            let last_x = 2 * (cells - 1);
            (last_x + 1 + id) * 255 <= max && (h - 1 + id) * 255 <= max && (last_x / 2) * 31 <= max
        },
        PixelFormat::Mono16 => (w - 1 + h - 1 + id) * 257 <= max,
        PixelFormat::Rgb8 => (w - 1 + id) * 255 <= max && (h - 1 + id) * 255 <= max,
        _ => (w - 1 + h - 1 + id) * 13 + id * 7 <= max,
    }
}

fn pattern_cell_bytes(
    f: PixelFormat,
    frame_id: u32,
    width: u32,
    height: u32,
    y: u32,
    c: u32,
    data: &mut Vec<u8>,
)
    requires
        width > 0,
        height > 0,
        y < height,
        (c as nat) < pattern_cells(f, width),
        pattern_fits(f, width, height, frame_id),
    ensures
        final(data)@ == old(data)@ + pattern_cell(f, frame_id, width, height, y as int, c as int),
{
    let phase = (frame_id & 0xff) as u8;
    let ghost cells = pattern_cells(f, width);
    match f {
        PixelFormat::Uyvy => {
            let x = 2 * c;
            assert(x + 1 <= 2 * (cells - 1) + 1);
            let w = width;
            let h = height;
            let y0 = (((x + frame_id) * 255) / w) as u8;
            let y1 = ((((x + 1) + frame_id) * 255) / w) as u8;
            let u = (((y + frame_id) * 255) / h) as u8;
            let v = phase.wrapping_add(((x / 2) * 31) as u8);
            data.push(u);
            data.push(y0);
            data.push(v);
            data.push(y1);
        },
        PixelFormat::Mono16 => {
            let sample = (((c + y + frame_id) * 257) & 0xffff) as u16;
            data.push((sample & 0xff) as u8);
            data.push((sample >> 8) as u8);
        },
        PixelFormat::Rgb8 => {
            let r = (((c + frame_id) * 255) / width) as u8;
            let g = (((y + frame_id) * 255) / height) as u8;
            let b = phase.wrapping_add(((c ^ y) & 0xff) as u8);
            data.push(r);
            data.push(g);
            data.push(b);
        },
        _ => {
            let sample = ((((c + y + frame_id) * 13) + (frame_id * 7)) & 0xff) as u8;
            data.push(sample);
        },
    }
    assert(final(data)@ =~= old(data)@ + pattern_cell(
        f,
        frame_id,
        width,
        height,
        y as int,
        c as int,
    ));
}

/// The test-pattern bytes of a frame; an error for a zero dimension.
pub fn generate_pattern_data(frame_id: u32, width: u32, height: u32, pixel_format: PixelFormat) -> (r:
    Result<Vec<u8>, String>)
    requires
        width * height * crate::pixel_format::spec_bytes_per_pixel(pixel_format) <= usize::MAX,
        pattern_fits(pixel_format, width, height, frame_id),
    ensures
        spec_payload_len(pixel_format, width, height) is None ==> (r matches Err(e) && e@
            == "invalid test-pattern dimensions"@),
        spec_payload_len(pixel_format, width, height) is Some ==> (r matches Ok(d) && d@
            == pattern_rows(pixel_format, frame_id, width, height, height as nat)),
{
    match pixel_format.payload_len(width, height) {
        Ok(_) => {},
        Err(_) => return Err(owned("invalid test-pattern dimensions")),
    }
    let cells: u32 = if pixel_format == PixelFormat::Uyvy {
        ((width as u64 + 1) / 2) as u32
    } else {
        width
    };
    let mut data: Vec<u8> = Vec::new();
    let mut y: u32 = 0;
    while y < height
        invariant
            width > 0,
            height > 0,
            y <= height,
            cells as nat == pattern_cells(pixel_format, width),
            pattern_fits(pixel_format, width, height, frame_id),
            data@ == pattern_rows(pixel_format, frame_id, width, height, y as nat),
        decreases height - y,
    {
        let ghost before = data@;
        let mut c: u32 = 0;
        while c < cells
            invariant
                width > 0,
                height > 0,
                y < height,
                c <= cells,
                cells as nat == pattern_cells(pixel_format, width),
                pattern_fits(pixel_format, width, height, frame_id),
                data@ == before + pattern_row(pixel_format, frame_id, width, height, y as int, c as nat),
            decreases cells - c,
        {
            pattern_cell_bytes(pixel_format, frame_id, width, height, y, c, &mut data);
            c = c + 1;
        }
        y = y + 1;
    }
    Ok(data)
}

/// A register read gives back what the last write of that register stored: the written
/// word, or, where a fixed-format device refused a change of its format, the word it had
/// before. Both requests are acknowledged to the message id and token that asked, the write
/// as changed and the read as content, and the read changes no register.
pub proof fn lemma_register_write_then_read(
    s: DeviceSettings,
    registers: Map<u32, u32>,
    strings: Map<u32, Seq<u8>>,
    address: u32,
    value: u32,
    write_option: Option<u8>,
    read_option: Option<u8>,
    write_id: u16,
    write_token: Seq<u8>,
    read_id: u16,
    read_token: Seq<u8>,
)
    requires
        read_option matches Some(o) ==> o >> 5u8 != 5,
    ensures
        ({
            let w = register_request(address, Some(bytes32(value)), write_option, write_id, write_token);
            let q = register_request(address, None, read_option, read_id, read_token);
            let stored = spec_normalize_write(s, address, register_value(registers, address), value);
            let after = registers.insert(address, stored);
            &&& spec_register_request(s, registers, strings, w) matches Some((wa, r1, _)) && wa
                == spec_ack(w, 68, seq![]) && r1 == after
            &&& spec_register_request(s, after, strings, q) == Some(
                (spec_ack(q, 69, bytes32(stored)), after, RegisterEffect::Nothing),
            )
            &&& be32(bytes32(stored), 0) == stored
            &&& !s.enforce_fixed_format ==> stored == value
        }),
{
    let w = register_request(address, Some(bytes32(value)), write_option, write_id, write_token);
    let q = register_request(address, None, read_option, read_id, read_token);
    reveal_with_fuel(spec_first_option, 3);
    assert(spec_first_option(w.options, 65305) == Some(bytes32(address)));
    assert(spec_first_option(q.options, 65305) == Some(bytes32(address)));
    crate::compat_stream::lemma_be32(address);
    crate::compat_stream::lemma_be32(value);
    assert(spec_request_address(w.options) == Some(address));
    assert(spec_request_address(q.options) == Some(address));
    assert(!spec_string_read(q.options)) by {
        match read_option {
            Some(o) => {
                assert(spec_first_option(q.options, 65301) == Some(seq![o]));
            },
            None => {
                assert(spec_first_option(q.options, 65301) is None);
            },
        }
    }
    let stored = spec_normalize_write(s, address, register_value(registers, address), value);
    crate::compat_stream::lemma_be32(stored);
}

/// Whether a message crosses the wire unchanged: it encodes, and its bytes decode to it.
#[verifier::opaque]
pub open spec fn crosses_wire(m: MessageView) -> bool {
    spec_encode(m) is Ok && spec_decode(spec_encode(m)->Ok_0) == DecodeOutcome::Decoded(m)
}

/// A client reads back what it wrote: the write request and the read request a client builds
/// reach the device unchanged, the device's answers reach the client unchanged, the client
/// accepts both answers (acknowledgements with its message id and token, changed and content),
/// and the read answer's four bytes are the word the device stored for the write (the written
/// word, except where a fixed-format device kept its format).
#[verifier::spinoff_prover]
pub proof fn lemma_client_reads_back_write(
    s: DeviceSettings,
    registers: Map<u32, u32>,
    strings: Map<u32, Seq<u8>>,
    address: u32,
    value: u32,
    write_option: Option<u8>,
    read_option: Option<u8>,
    write_id: u16,
    write_token: Seq<u8>,
    read_id: u16,
    read_token: Seq<u8>,
)
    requires
        write_token.len() <= 8,
        read_token.len() <= 8,
        read_option matches Some(o) ==> o >> 5u8 != 5,
    ensures
        ({
            let w = register_request(address, Some(bytes32(value)), write_option, write_id, write_token);
            let q = register_request(address, None, read_option, read_id, read_token);
            let stored = spec_normalize_write(s, address, register_value(registers, address), value);
            let after = registers.insert(address, stored);
            let wa = spec_ack(w, 68, seq![]);
            let qa = spec_ack(q, 69, bytes32(stored));
            &&& crosses_wire(w) && crosses_wire(q) && crosses_wire(wa) && crosses_wire(qa)
            &&& spec_register_request(s, registers, strings, w) matches Some((a1, r1, _)) && a1 == wa
                && r1 == after
            &&& spec_register_request(s, after, strings, q) == Some((qa, after, RegisterEffect::Nothing))
            &&& spec_response_problem(wa, write_id, write_token) is None
            &&& spec_response_problem(qa, read_id, read_token) is None
            &&& qa.payload.len() == 4 && be32(qa.payload, 0) == stored
            &&& !s.enforce_fixed_format ==> stored == value
        }),
{
    let w = register_request(address, Some(bytes32(value)), write_option, write_id, write_token);
    let q = register_request(address, None, read_option, read_id, read_token);
    let stored = spec_normalize_write(s, address, register_value(registers, address), value);
    lemma_register_write_then_read(
        s,
        registers,
        strings,
        address,
        value,
        write_option,
        read_option,
        write_id,
        write_token,
        read_id,
        read_token,
    );
    lemma_crosses_wire(w);
    lemma_crosses_wire(q);
    lemma_crosses_wire(spec_ack(w, 68, seq![]));
    lemma_crosses_wire(spec_ack(q, 69, bytes32(stored)));
}

/// A well-formed message crosses the wire unchanged.
proof fn lemma_crosses_wire(m: MessageView)
    requires
        well_formed_message(m),
    ensures
        crosses_wire(m),
{
    lemma_coap_round_trip(m);
    reveal(crosses_wire);
}

/// Bytes below 0x80 are valid UTF-8.
proof fn lemma_ascii_valid_utf8(bytes: Seq<u8>)
    requires
        forall|i: int| 0 <= i < bytes.len() ==> bytes[i] < 0x80,
    ensures
        valid_utf8(bytes),
{
    assert(bytes.subrange(0, 0) =~= Seq::<u8>::empty());
    assert(vstd::utf8::partial_valid_utf8(bytes, 0));
    vstd::utf8::partial_valid_utf8_extend_ascii_block(bytes, 0, bytes.len() as int);
    assert(bytes.subrange(0, bytes.len() as int) =~= bytes);
}

/// The path of the discovery request's options is `/.well-known/core`.
proof fn lemma_discovery_path(o: Seq<(u16, Seq<u8>)>)
    requires
        o == seq![(11u16, well_known_bytes()), (11u16, core_bytes()), (15u16, resource_type_query_bytes())],
    ensures
        spec_path_values(o) == seq![well_known_bytes(), core_bytes()],
{
    lemma_ascii_valid_utf8(well_known_bytes());
    lemma_ascii_valid_utf8(core_bytes());
    let a = (11u16, well_known_bytes());
    let b = (11u16, core_bytes());
    let e = Seq::<(u16, Seq<u8>)>::empty();
    assert(seq![a].drop_last() =~= e);
    assert(spec_path_values(e) == Seq::<Seq<u8>>::empty());
    assert(spec_path_values(seq![a]) =~= seq![well_known_bytes()]);
    assert(seq![a, b].drop_last() =~= seq![a]);
    assert(spec_path_values(seq![a, b]) =~= seq![well_known_bytes(), core_bytes()]);
    assert(o.drop_last() =~= seq![a, b]);
}

/// A device recognizes the discovery request a host sends: the request crosses the wire
/// unchanged and is a GET of `/.well-known/core` asking for `rt=eev.cam`.
pub proof fn lemma_discovery_request_recognized(token: Seq<u8>, message_id: u16)
    requires
        token.len() <= 8,
    ensures
        crosses_wire(discovery_request(token, message_id)),
        spec_is_discovery_request(discovery_request(token, message_id)),
{
    let m = discovery_request(token, message_id);
    lemma_crosses_wire(m);
    lemma_discovery_path(m.options);
    assert(m.options[2].0 == 15 && m.options[2].1 == resource_type_query_bytes());
}

/// Whether the format registers hold the configured width, height and pixel format.
pub open spec fn format_registers_hold(s: DeviceSettings, registers: Map<u32, u32>) -> bool {
    &&& register_value(registers, STREAM_WIDTH_ADDR) == s.width
    &&& register_value(registers, STREAM_HEIGHT_ADDR) == s.height
    &&& register_value(registers, STREAM_PIXEL_FORMAT_ADDR) == spec_pfnc(s.pixel_format) & 0xffff
}

/// A fixed-format device keeps its format: it starts with the configured format in its
/// registers, and whatever register request it answers, its width, height and pixel-format
/// registers keep holding it.
pub proof fn lemma_fixed_format_kept(
    s: DeviceSettings,
    registers: Map<u32, u32>,
    strings: Map<u32, Seq<u8>>,
    request: MessageView,
)
    requires
        s.enforce_fixed_format,
        format_registers_hold(s, registers),
    ensures
        format_registers_hold(s, spec_initial_registers(s.width, s.height, s.pixel_format, s.mtu)),
        spec_register_request(s, registers, strings, request) matches Some((_, after, _))
            ==> format_registers_hold(s, after),
{
    let initial = spec_initial_registers(s.width, s.height, s.pixel_format, s.mtu);
    assert(initial.contains_key(STREAM_WIDTH_ADDR) && initial[STREAM_WIDTH_ADDR] == s.width);
    assert(initial.contains_key(STREAM_HEIGHT_ADDR) && initial[STREAM_HEIGHT_ADDR] == s.height);
    assert(initial.contains_key(STREAM_PIXEL_FORMAT_ADDR));
}

/// Whether a name can stand in a discovery link as it is: no `,`, `;` or `"` in it.
pub open spec fn link_safe(t: Seq<char>) -> bool {
    forall|k: int| 0 <= k < t.len() ==> t[k] != ',' && t[k] != ';' && t[k] != '"'
}

/// The link a device advertises for a stream.
pub open spec fn spec_advertised_link(stream_name: Seq<char>, interface_name: Seq<char>) -> LinkView {
    LinkView {
        target: "/"@ + stream_name,
        attributes: Map::<Seq<char>, Seq<char>>::empty().insert("rt"@, "eev.cam"@).insert(
            "if"@,
            interface_name,
        ),
    }
}

proof fn lemma_no_char(t: Seq<char>, c: char)
    requires
        forall|k: int| 0 <= k < t.len() ==> t[k] != c,
    ensures
        !t.contains(c),
{
}

proof fn lemma_quoted_value(i: Seq<char>)
    requires
        link_safe(i),
    ensures
        spec_trim_matches("\""@ + i + "\""@, '"') == i,
{
    reveal_strlit("\"");
    let q = "\""@ + i + "\""@;
    let r = i + "\""@;
    assert(q.drop_first() =~= r);
    assert(q.len() > 0 && q[0] == '"');
    if i.len() > 0 {
        assert(r[0] == i[0]);
        assert(r.len() > 0 && r[0] != '"');
        assert(spec_trim_start_char(r, '"') == r);
        assert(spec_trim_start_char(q, '"') == r);
        assert(r.drop_last() =~= i);
        assert(i.last() == i[i.len() - 1]);
        assert(spec_trim_end_char(i, '"') == i);
        assert(spec_trim_end_char(r, '"') == i);
    } else {
        assert(r.drop_first() =~= Seq::<char>::empty());
        assert(r.len() == 1 && r[0] == '"');
        assert(spec_trim_start_char(Seq::<char>::empty(), '"') == Seq::<char>::empty());
        assert(spec_trim_start_char(r, '"') == Seq::<char>::empty());
        assert(spec_trim_start_char(q, '"') == Seq::<char>::empty());
        assert(i =~= Seq::<char>::empty());
    }
}

/// The discovery answer of a device parses back into the one link it advertises: the
/// stream's path, with the `eev.cam` resource type and the interface name, for names
/// without `,`, `;` or `"`.
pub proof fn lemma_discovery_answer_parses(stream_name: Seq<char>, interface_name: Seq<char>)
    requires
        link_safe(stream_name),
        link_safe(interface_name),
    ensures
        valid_utf8(encode_utf8(spec_discovery_link(stream_name, interface_name))),
        spec_advertisement(decode_utf8(encode_utf8(spec_discovery_link(stream_name, interface_name))))
            == Ok::<Seq<LinkView>, Seq<char>>(seq![spec_advertised_link(stream_name, interface_name)]),
{
    let n = stream_name;
    let i = interface_name;
    reveal_strlit("</");
    reveal_strlit(">;rt=\"eev.cam\";if=\"");
    reveal_strlit("\"");
    reveal_strlit("rt=\"eev.cam\"");
    reveal_strlit("if=\"");
    reveal_strlit(">");
    reveal_strlit("/");
    reveal_strlit("rt");
    reveal_strlit("if");
    reveal_strlit("eev.cam");
    reveal_strlit("\"eev.cam\"");
    reveal_strlit("eev.cam\"");
    let link = spec_discovery_link(n, i);
    vstd::utf8::encode_utf8_valid_utf8(link);
    vstd::utf8::encode_utf8_decode_utf8(link);
    let p0 = "</"@ + n + ">"@;
    let p1 = "rt=\"eev.cam\""@;
    let p2 = "if=\""@ + i + "\""@;
    assert(link =~= p0 + seq![';'] + p1 + seq![';'] + p2);
    lemma_no_char(link, ',');
    lemma_no_char(p0, ';');
    lemma_no_char(p1, ';');
    lemma_no_char(p2, ';');
    lemma_split_no_sep(link, ',');
    lemma_split_no_sep(p0, ';');
    lemma_split_join(p0, p1, ';');
    lemma_split_join(p0 + seq![';'] + p1, p2, ';');
    let parts = spec_split(link, ';');
    assert(parts == seq![p0, p1, p2]);
    assert(link[0] == '<');
    assert(link.last() == '"');
    lemma_trim_unchanged(link);
    assert(spec_target(p0) == Some("/"@ + n)) by {
        assert(p0.subrange(1, p0.len() - 1) =~= "/"@ + n);
    }
    lemma_trim_unchanged(p1);
    lemma_find_first(p1, '=', 2);
    assert(spec_split_once(p1, '=') == Some(("rt"@, "\"eev.cam\""@))) by {
        assert(p1.subrange(0, 2) =~= "rt"@);
        assert(p1.subrange(3, p1.len() as int) =~= "\"eev.cam\""@);
    }
    assert(spec_trim_matches("\"eev.cam\""@, '"') == "eev.cam"@) by {
        let q = "\"eev.cam\""@;
        assert(q.drop_first() =~= "eev.cam\""@);
        assert(spec_trim_start_char("eev.cam\""@, '"') == "eev.cam\""@);
        assert("eev.cam\""@.drop_last() =~= "eev.cam"@);
        assert(spec_trim_end_char("eev.cam"@, '"') == "eev.cam"@);
    }
    assert(spec_attribute(p1) == Some(("rt"@, "eev.cam"@)));
    assert(p2[0] == 'i');
    assert(p2.last() == '"');
    lemma_trim_unchanged(p2);
    lemma_find_first(p2, '=', 2);
    assert(spec_split_once(p2, '=') == Some(("if"@, "\""@ + i + "\""@))) by {
        assert(p2.subrange(0, 2) =~= "if"@);
        assert(p2.subrange(3, p2.len() as int) =~= "\""@ + i + "\""@);
    }
    lemma_quoted_value(i);
    assert(spec_attribute(p2) == Some(("if"@, i)));
    let rest = parts.drop_first();
    assert(rest =~= seq![p1, p2]);
    assert(rest.drop_last() =~= seq![p1]);
    assert(seq![p1].drop_last() =~= Seq::<Seq<char>>::empty());
    assert(seq![p1].last() == p1);
    assert(spec_attributes(Seq::<Seq<char>>::empty()) == Map::<Seq<char>, Seq<char>>::empty());
    assert(spec_attributes(seq![p1]) =~= Map::<Seq<char>, Seq<char>>::empty().insert("rt"@, "eev.cam"@));
    assert(rest.last() == p2);
    assert(spec_attributes(rest) == spec_advertised_link(n, i).attributes);
    assert(spec_link(link) == Some(spec_advertised_link(n, i)));
    assert(seq![link].drop_last() =~= Seq::<Seq<char>>::empty());
    assert(spec_links(seq![link]) == Ok::<Seq<LinkView>, Seq<char>>(
        seq![spec_advertised_link(n, i)],
    )) by {
        assert(seq![link].last() == link);
        assert(spec_links(Seq::<Seq<char>>::empty()) == Ok::<Seq<LinkView>, Seq<char>>(seq![]));
        assert(spec_trim(link).len() > 0);
        assert(Seq::<LinkView>::empty().push(spec_advertised_link(n, i)) =~= seq![spec_advertised_link(n, i)]);
    }
}

} // verus!
