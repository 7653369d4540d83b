use vstd::arithmetic::power2::pow2;
use vstd::bits::low_bits_mask;
use vstd::prelude::*;

use crate::control::{ControlError, ControlErrorKind};
use crate::discovery::io_error_text;
use crate::register::{from_utf8_error_text, RegisterError};
use crate::string_map::{chars_lt, keys_sorted, StringMap};
use crate::text::{
    owned, push_decimal, push_hex, push_hex_padded, push_str, spec_decimal, spec_hex,
    spec_hex_padded, spec_split_once, split_once_char, str_eq,
};
use crate::yaml::{DeviceConfig, DeviceRegisterValue, FeatureFieldDefinition};

verus! {

/// The register suffixes of a stream block.
pub open spec fn spec_stream_register_names() -> Seq<Seq<char>> {
    seq![
        "MaxPacketSize"@,
        "Delay"@,
        "DestIPAddr"@,
        "DestPort"@,
        "PixelsPerLine"@,
        "LinesPerFrame"@,
        "PixelFormat"@,
    ]
}

/// Whether `suffix` names a register of a stream block.
pub fn is_stream_register_name(suffix: &str) -> (r: bool)
    ensures
        r == spec_stream_register_names().contains(suffix@),
{
    proof {
        reveal_strlit("MaxPacketSize");
        reveal_strlit("Delay");
        reveal_strlit("DestIPAddr");
        reveal_strlit("DestPort");
        reveal_strlit("PixelsPerLine");
        reveal_strlit("LinesPerFrame");
        reveal_strlit("PixelFormat");
    }
    let r = str_eq(suffix, "MaxPacketSize") || str_eq(suffix, "Delay") || str_eq(
        suffix,
        "DestIPAddr",
    ) || str_eq(suffix, "DestPort") || str_eq(suffix, "PixelsPerLine") || str_eq(
        suffix,
        "LinesPerFrame",
    ) || str_eq(suffix, "PixelFormat");
    proof {
        let names = spec_stream_register_names();
        if r {
            if suffix@ == "MaxPacketSize"@ {
                assert(names[0] == suffix@);
            } else if suffix@ == "Delay"@ {
                assert(names[1] == suffix@);
            } else if suffix@ == "DestIPAddr"@ {
                assert(names[2] == suffix@);
            } else if suffix@ == "DestPort"@ {
                assert(names[3] == suffix@);
            } else if suffix@ == "PixelsPerLine"@ {
                assert(names[4] == suffix@);
            } else if suffix@ == "LinesPerFrame"@ {
                assert(names[5] == suffix@);
            } else {
                assert(names[6] == suffix@);
            }
        }
    }
    r
}

/// Which register a request names: by name or by address.
#[derive(Clone, Debug, PartialEq, Eq)]
pub enum RegisterSelector {
    Name(String),
    Address(u32),
}

impl RegisterSelector {
    pub fn name(name: String) -> (r: RegisterSelector)
        ensures
            r == RegisterSelector::Name(name),
    {
        RegisterSelector::Name(name)
    }

    pub fn address(address: u32) -> (r: RegisterSelector)
        ensures
            r == RegisterSelector::Address(address),
    {
        RegisterSelector::Address(address)
    }
}

/// The value a register read gives.
#[derive(Clone, Debug, PartialEq, Eq)]
pub enum RegisterValue {
    U32(u32),
    String(String),
}

/// A value to write into a named bit field.
#[derive(Clone, Debug, PartialEq, Eq)]
pub struct FieldUpdate {
    pub name: String,
    pub value: u32,
}

impl FieldUpdate {
    pub fn new(name: String, value: u32) -> (r: FieldUpdate)
        ensures
            r.name@ == name@,
            r.value == value,
    {
        FieldUpdate { name, value }
    }
}

/// `prefix_suffix`: the name of a register of a stream block.
pub fn register_name(prefix: &str, suffix: &str) -> (r: String)
    ensures
        r@ == prefix@ + "_"@ + suffix@,
{
    let mut out = owned(prefix);
    push_str(&mut out, "_");
    push_str(&mut out, suffix);
    out
}

/// The stream prefix a register name carries: the text before its first `_`, where the text
/// after it names a stream register.
pub open spec fn spec_stream_prefix(name: Seq<char>) -> Option<Seq<char>> {
    match spec_split_once(name, '_') {
        Some((prefix, suffix)) => if spec_stream_register_names().contains(suffix) {
            Some(prefix)
        } else {
            None
        },
        None => None,
    }
}

/// The stream prefixes of a device's registers.
pub open spec fn spec_stream_prefixes<V>(registers: Map<Seq<char>, V>) -> Set<Seq<char>> {
    Set::new(
        |p: Seq<char>|
            exists|name: Seq<char>|
                registers.contains_key(name) && spec_stream_prefix(name) == Some(p),
    )
}

/// Whether a list of names is in strictly ascending order.
pub open spec fn names_ascending(names: Seq<Seq<char>>) -> bool {
    forall|i: int, j: int| 0 <= i < j < names.len() ==> chars_lt(names[i], names[j])
}

/// The stream prefixes of the device's registers, each once, in ascending order.
pub fn stream_prefixes(device: &DeviceConfig) -> (r: Vec<String>)
    ensures
        names_ascending(r@.map_values(|s: String| s@)),
        r@.map_values(|s: String| s@).to_set() == spec_stream_prefixes(device.registers@),
{
    let pairs = device.registers.as_slice();
    let ghost pv = pairs@;
    let mut prefixes: StringMap<()> = StringMap::new();
    let mut i: usize = 0;
    while i < pairs.len()
        invariant
            pairs@ == pv,
            pv == device.registers.pairs(),
            keys_sorted(pv),
            i <= pv.len(),
            prefixes@.dom() == Set::new(
                |p: Seq<char>|
                    exists|j: int| 0 <= j < i && spec_stream_prefix((#[trigger] pv[j]).0@) == Some(p),
            ),
        decreases pv.len() - i,
    {
        let name = pairs[i].0.as_str();
        let ghost before = prefixes@.dom();
        match split_once_char(name, '_') {
            Some((prefix, suffix)) => {
                if is_stream_register_name(suffix) {
                    prefixes.insert(owned(prefix), ());
                }
            },
            None => {},
        }
        proof {
            assert(prefixes@.dom() =~= Set::new(
                |p: Seq<char>|
                    exists|j: int|
                        0 <= j < i + 1 && spec_stream_prefix((#[trigger] pv[j]).0@) == Some(p),
            )) by {
                assert forall|p: Seq<char>| #[trigger] prefixes@.dom().contains(p) implies exists|
                    j: int,
                |
                    0 <= j < i + 1 && spec_stream_prefix((#[trigger] pv[j]).0@) == Some(p) by {
                    if !before.contains(p) {
                        assert(spec_stream_prefix(pv[i as int].0@) == Some(p));
                    }
                }
                assert forall|p: Seq<char>|
                    (exists|j: int|
                        0 <= j < i + 1 && spec_stream_prefix((#[trigger] pv[j]).0@) == Some(
                            p,
                        )) implies #[trigger] prefixes@.dom().contains(p) by {
                    let j = choose|j: int|
                        0 <= j < i + 1 && spec_stream_prefix((#[trigger] pv[j]).0@) == Some(p);
                    if j < i {
                        assert(before.contains(p));
                    }
                }
            }
        }
        i = i + 1;
    }
    let set_pairs = prefixes.as_slice();
    let mut out: Vec<String> = Vec::new();
    let mut k: usize = 0;
    while k < set_pairs.len()
        invariant
            keys_sorted(set_pairs@),
            k <= set_pairs@.len(),
            out@.len() == k,
            forall|j: int| 0 <= j < k ==> (#[trigger] out@[j])@ == set_pairs@[j].0@,
        decreases set_pairs@.len() - k,
    {
        out.push(owned(set_pairs[k].0.as_str()));
        k = k + 1;
    }
    proof {
        let names = out@.map_values(|s: String| s@);
        assert forall|a: int, b: int| 0 <= a < b < names.len() implies chars_lt(names[a], names[b]) by {
            assert(names[a] == set_pairs@[a].0@);
            assert(names[b] == set_pairs@[b].0@);
        }
        assert forall|p: Seq<char>| names.to_set().contains(p) == spec_stream_prefixes(
            device.registers@,
        ).contains(p) by {
            if names.to_set().contains(p) {
                let j = choose|j: int| 0 <= j < names.len() && names[j] == p;
                assert(set_pairs@[j].0@ == p);
                crate::string_map::lemma_sorted_index(set_pairs@, j);
                let jj = choose|jj: int|
                    0 <= jj < pv.len() && spec_stream_prefix((#[trigger] pv[jj]).0@) == Some(p);
                crate::string_map::lemma_sorted_index(pv, jj);
                assert(device.registers@.contains_key(pv[jj].0@));
            }
            if spec_stream_prefixes(device.registers@).contains(p) {
                let name = choose|name: Seq<char>|
                    device.registers@.contains_key(name) && spec_stream_prefix(name) == Some(p);
                let jj = crate::string_map::key_index(pv, name);
                assert(pv[jj].0@ == name);
                assert(prefixes@.dom().contains(p));
                let j = crate::string_map::key_index(set_pairs@, p);
                assert(set_pairs@[j].0@ == p);
                assert(names[j] == p);
            }
        }
        assert(names.to_set() =~= spec_stream_prefixes(device.registers@));
    }
    out
}

/// Whether an error has the given kind and message.
pub open spec fn error_is(e: ControlError, kind: ControlErrorKind, message: Seq<char>) -> bool {
    e.spec_kind() == kind && e.spec_message() == message
}

/// The stream prefix a request resolves to on a device with the given stream prefixes: the
/// requested name where the device has it, else the device's only prefix; an error where the
/// device has none, or several and not the requested one.
pub open spec fn spec_resolve_stream_prefix(prefixes: Set<Seq<char>>, requested: Seq<char>) -> Result<
    Seq<char>,
    Seq<char>,
> {
    if prefixes.len() == 0 {
        Err("device does not expose a configurable stream register block"@)
    } else if prefixes.contains(requested) {
        Ok(requested)
    } else if prefixes.len() == 1 {
        Ok(prefixes.choose())
    } else {
        Err(
            "requested stream "@ + requested
                + " does not match any available device stream prefix"@,
        )
    }
}

/// The register block prefix for a requested stream name.
pub fn resolve_stream_prefix(device: &DeviceConfig, requested_stream_name: &str) -> (r: Result<
    String,
    ControlError,
>)
    ensures
        spec_stream_prefixes(device.registers@).finite(),
        match spec_resolve_stream_prefix(
            spec_stream_prefixes(device.registers@),
            requested_stream_name@,
        ) {
            Ok(p) => r matches Ok(s) && s@ == p,
            Err(m) => r matches Err(e) && error_is(e, ControlErrorKind::InvalidConfiguration, m),
        },
{
    let prefixes = stream_prefixes(device);
    let ghost names = prefixes@.map_values(|s: String| s@);
    let ghost set = spec_stream_prefixes(device.registers@);
    proof {
        assert forall|a: int, b: int| 0 <= a < b < names.len() implies names[a] != names[b] by {
            crate::string_map::lemma_chars_lt_irreflexive(names[a]);
        }
        assert(names.no_duplicates());
        names.unique_seq_to_set();
        assert(set.len() == prefixes@.len());
    }
    if prefixes.len() == 0 {
        proof {
            reveal_strlit("device does not expose a configurable stream register block");
        }
        return Err(
            ControlError::new(
                ControlErrorKind::InvalidConfiguration,
                owned("device does not expose a configurable stream register block"),
            ),
        );
    }
    let mut i: usize = 0;
    while i < prefixes.len()
        invariant
            i <= prefixes@.len(),
            names == prefixes@.map_values(|s: String| s@),
            names.to_set() == set,
            set == spec_stream_prefixes(device.registers@),
            set.finite(),
            set.len() == prefixes@.len(),
            forall|j: int| 0 <= j < i ==> names[j] != requested_stream_name@,
        decreases prefixes@.len() - i,
    {
        if str_eq(prefixes[i].as_str(), requested_stream_name) {
            proof {
                assert(names[i as int] == requested_stream_name@);
                assert(set.contains(requested_stream_name@));
            }
            return Ok(owned(requested_stream_name));
        }
        i = i + 1;
    }
    proof {
        if set.contains(requested_stream_name@) {
            let j = choose|j: int| 0 <= j < names.len() && names[j] == requested_stream_name@;
        }
    }
    if prefixes.len() == 1 {
        proof {
            assert(set.contains(names[0]));
            let c = set.choose();
            assert(set.contains(c));
            let j = choose|j: int| 0 <= j < names.len() && names[j] == c;
        }
        return Ok(owned(prefixes[0].as_str()));
    }
    let mut m = String::new();
    push_str(&mut m, "requested stream ");
    push_str(&mut m, requested_stream_name);
    push_str(&mut m, " does not match any available device stream prefix");
    Err(ControlError::new(ControlErrorKind::InvalidConfiguration, m))
}

/// Whether a field definition is usable: a width of 1 to 32 bits within the bits up to `msb`.
pub open spec fn field_def_valid(d: FeatureFieldDefinition) -> bool {
    1 <= d.len <= 32 && d.msb + 1 >= d.len
}

/// The message for an unusable field definition.
pub open spec fn field_def_message(d: FeatureFieldDefinition) -> Seq<char> {
    "invalid field definition with msb "@ + spec_decimal(d.msb as nat) + " and len "@
        + spec_decimal(d.len as nat)
}

/// The bit position of a field's least significant bit.
pub open spec fn field_shift(d: FeatureFieldDefinition) -> int {
    d.msb + 1 - d.len
}

/// Whether checking a field definition overflows the 32-bit arithmetic of the format (its
/// `msb + 1` does not fit).
pub open spec fn field_check_overflows(d: FeatureFieldDefinition) -> bool {
    1 <= d.len <= 32 && d.msb == u32::MAX
}

/// Whether shifting by a field's position overflows (the position is 32 or more).
pub open spec fn field_shift_overflows(d: FeatureFieldDefinition) -> bool {
    field_check_overflows(d) || (field_def_valid(d) && field_shift(d) >= 32)
}

/// Whether checking or shifting by a field definition overflows.
pub fn field_overflows(definition: &FeatureFieldDefinition) -> (r: bool)
    ensures
        r == field_shift_overflows(*definition),
{
    if definition.len >= 1 && definition.len <= 32 {
        if definition.msb == u32::MAX {
            return true;
        }
        definition.msb + 1 >= definition.len && definition.msb + 1 - definition.len >= 32
    } else {
        false
    }
}

fn invalid_field_definition(definition: &FeatureFieldDefinition) -> (r: ControlError)
    ensures
        error_is(r, ControlErrorKind::InvalidConfiguration, field_def_message(*definition)),
{
    let mut m = String::new();
    push_str(&mut m, "invalid field definition with msb ");
    push_decimal(&mut m, definition.msb as u64);
    push_str(&mut m, " and len ");
    push_decimal(&mut m, definition.len as u64);
    ControlError::new(ControlErrorKind::InvalidConfiguration, m)
}

/// The position and the unshifted mask of a field: `len` low bits set.
pub fn field_mask(definition: &FeatureFieldDefinition) -> (r: Result<(u32, u32), ControlError>)
    requires
        !field_check_overflows(*definition),
    ensures
        field_def_valid(*definition) ==> (r matches Ok((shift, mask)) && shift == field_shift(
            *definition,
        ) && mask == low_bits_mask(definition.len as nat)),
        !field_def_valid(*definition) ==> (r matches Err(e) && error_is(
            e,
            ControlErrorKind::InvalidConfiguration,
            field_def_message(*definition),
        )),
{
    if definition.len == 0 || definition.len > 32 || definition.msb + 1 < definition.len {
        return Err(invalid_field_definition(definition));
    }
    let shift = definition.msb + 1 - definition.len;
    let len = definition.len;
    let mask = if len == 32 {
        proof {
            vstd::bits::lemma_low_bits_mask_values();
        }
        u32::MAX
    } else {
        proof {
            vstd::bits::lemma_u32_pow2_no_overflow(len as nat);
            vstd::bits::lemma_u32_shl_is_mul(1, len);
            vstd::bits::lemma_low_bits_mask_unfold(len as nat);
            vstd::arithmetic::power2::lemma_pow2_pos(len as nat);
        }
        (1u32 << len) - 1
    };
    Ok((shift, mask))
}

/// The value of a field: the `len` bits of `value` whose top bit is `msb`.
pub open spec fn spec_field_value(value: u32, d: FeatureFieldDefinition) -> nat {
    (value as nat / pow2(field_shift(d) as nat)) % pow2(d.len as nat)
}

/// The value of a field of a register value.
pub fn extract_field(value: u32, definition: &FeatureFieldDefinition) -> (r: Result<
    u32,
    ControlError,
>)
    requires
        !field_shift_overflows(*definition),
    ensures
        field_def_valid(*definition) ==> (r matches Ok(v) && v == spec_field_value(
            value,
            *definition,
        )),
        !field_def_valid(*definition) ==> (r matches Err(e) && error_is(
            e,
            ControlErrorKind::InvalidConfiguration,
            field_def_message(*definition),
        )),
{
    let (shift, mask) = match field_mask(definition) {
        Ok(x) => x,
        Err(e) => return Err(e),
    };
    let shifted = value >> shift;
    let r = shifted & mask;
    proof {
        vstd::bits::lemma_u32_shr_is_div(value, shift);
        let len = definition.len;
        if len == 32 {
            vstd::bits::lemma_low_bits_mask_values();
            assert(shifted & 0xffff_ffffu32 == shifted) by (bit_vector);
            vstd::arithmetic::power2::lemma2_to64();
            assert(pow2(32) == 0x1_0000_0000);
            vstd::arithmetic::div_mod::lemma_small_mod(shifted as nat, pow2(32));
        } else {
            vstd::bits::lemma_u32_low_bits_mask_is_mod(shifted, len as nat);
            vstd::bits::lemma_u32_pow2_no_overflow(len as nat);
        }
    }
    Ok(r)
}

/// Whether an I/O error is a time-out (`io::Error::kind` is `TimedOut`); which errors are is up
/// to std and the platform.
#[verifier::external_body]
fn io_error_timed_out(e: &std::io::Error) -> bool {
    e.kind() == std::io::ErrorKind::TimedOut
}

/// The control error a register error stands for.
pub fn register_error(error: RegisterError) -> (r: ControlError)
    ensures
        match error {
            RegisterError::Io(_) => r.spec_kind() == ControlErrorKind::Timeout || r.spec_kind()
                == ControlErrorKind::Connection,
            RegisterError::Coap(e) => error_is(
                r,
                ControlErrorKind::Connection,
                crate::coap::spec_coap_error_message(e),
            ),
            RegisterError::InvalidAccess(m) => error_is(
                r,
                ControlErrorKind::InvalidConfiguration,
                m@,
            ),
            RegisterError::UnknownRegister(m) => error_is(
                r,
                ControlErrorKind::InvalidConfiguration,
                m@,
            ),
            RegisterError::Response(m) => error_is(r, ControlErrorKind::InvalidConfiguration, m@),
            RegisterError::InvalidString(_) => r.spec_kind() == ControlErrorKind::Connection,
        },
{
    match error {
        RegisterError::Io(e) => {
            let kind = if io_error_timed_out(&e) {
                ControlErrorKind::Timeout
            } else {
                ControlErrorKind::Connection
            };
            ControlError::new(kind, io_error_text(&e))
        },
        RegisterError::Coap(e) => ControlError::new(ControlErrorKind::Connection, e.message()),
        RegisterError::InvalidAccess(m) => ControlError::new(
            ControlErrorKind::InvalidConfiguration,
            m,
        ),
        RegisterError::UnknownRegister(m) => ControlError::new(
            ControlErrorKind::InvalidConfiguration,
            m,
        ),
        RegisterError::Response(m) => ControlError::new(ControlErrorKind::InvalidConfiguration, m),
        RegisterError::InvalidString(e) => ControlError::new(
            ControlErrorKind::Connection,
            from_utf8_error_text(&e),
        ),
    }
}

/// The message for a register name the device does not have.
pub open spec fn unknown_register_message(name: Seq<char>) -> Seq<char> {
    "device does not expose register "@ + name
}

/// The error for a register name the device does not have.
pub fn unknown_register(name: &str) -> (r: ControlError)
    ensures
        error_is(r, ControlErrorKind::InvalidConfiguration, unknown_register_message(name@)),
{
    let mut m = String::new();
    push_str(&mut m, "device does not expose register ");
    push_str(&mut m, name);
    ControlError::new(ControlErrorKind::InvalidConfiguration, m)
}

/// The index of the first register (in name order) at `address`.
pub open spec fn spec_first_at_address(pairs: Seq<(String, DeviceRegisterValue)>, address: u32) -> Option<
    int,
>
    decreases pairs.len(),
{
    if pairs.len() == 0 {
        None
    } else {
        match spec_first_at_address(pairs.drop_last(), address) {
            Some(i) => Some(i),
            None => if pairs.last().1.addr == address {
                Some(pairs.len() - 1)
            } else {
                None
            },
        }
    }
}

proof fn lemma_first_at_address(pairs: Seq<(String, DeviceRegisterValue)>, address: u32)
    ensures
        match spec_first_at_address(pairs, address) {
            Some(i) => 0 <= i < pairs.len() && pairs[i].1.addr == address && forall|j: int|
                0 <= j < i ==> (#[trigger] pairs[j]).1.addr != address,
            None => forall|j: int| 0 <= j < pairs.len() ==> (#[trigger] pairs[j]).1.addr != address,
        },
    decreases pairs.len(),
{
    if pairs.len() > 0 {
        let t = pairs.drop_last();
        lemma_first_at_address(t, address);
        assert(forall|j: int| 0 <= j < t.len() ==> t[j] == pairs[j]);
    }
}

/// The register a selector picks, as an index into the device's registers in name order:
/// a name picks its register (an error where there is none); an address picks the first
/// register at that address, if any.
pub open spec fn spec_resolve_register(
    pairs: Seq<(String, DeviceRegisterValue)>,
    selector: RegisterSelector,
) -> Result<Option<int>, Seq<char>> {
    match selector {
        RegisterSelector::Name(name) => if crate::string_map::has_key(pairs, name@) {
            Ok(Some(crate::string_map::key_index(pairs, name@)))
        } else {
            Err(unknown_register_message(name@))
        },
        RegisterSelector::Address(a) => Ok(spec_first_at_address(pairs, a)),
    }
}

/// The register a selector picks: its name and description, `None` for an address no register
/// has; an error for a name the device does not have.
pub fn resolve_register<'a>(device: &'a DeviceConfig, selector: &RegisterSelector) -> (r: Result<
    Option<(String, &'a DeviceRegisterValue)>,
    ControlError,
>)
    ensures
        match spec_resolve_register(device.registers.pairs(), *selector) {
            Ok(Some(i)) => r matches Ok(Some((name, reg))) && name@
                == device.registers.pairs()[i].0@ && *reg == device.registers.pairs()[i].1,
            Ok(None) => r matches Ok(None),
            Err(m) => r matches Err(e) && error_is(e, ControlErrorKind::InvalidConfiguration, m),
        },
{
    let pairs = device.registers.as_slice();
    match selector {
        RegisterSelector::Name(name) => {
            let mut i: usize = 0;
            while i < pairs.len()
                invariant
                    *selector == RegisterSelector::Name(*name),
                    pairs@ == device.registers.pairs(),
                    keys_sorted(pairs@),
                    i <= pairs@.len(),
                    forall|j: int| 0 <= j < i ==> (#[trigger] pairs@[j]).0@ != name@,
                decreases pairs@.len() - i,
            {
                if str_eq(pairs[i].0.as_str(), name.as_str()) {
                    proof {
                        crate::string_map::lemma_sorted_index(pairs@, i as int);
                    }
                    return Ok(Some((owned(name.as_str()), &pairs[i].1)));
                }
                i = i + 1;
            }
            Err(unknown_register(name.as_str()))
        },
        RegisterSelector::Address(address) => {
            proof {
                lemma_first_at_address(pairs@, *address);
            }
            let mut i: usize = 0;
            while i < pairs.len()
                invariant
                    *selector == RegisterSelector::Address(*address),
                    pairs@ == device.registers.pairs(),
                    i <= pairs@.len(),
                    forall|j: int| 0 <= j < i ==> (#[trigger] pairs@[j]).1.addr != *address,
                    match spec_first_at_address(pairs@, *address) {
                        Some(k) => 0 <= k < pairs@.len() && pairs@[k].1.addr == *address
                            && forall|j: int| 0 <= j < k ==> (#[trigger] pairs@[j]).1.addr != *address,
                        None => forall|j: int|
                            0 <= j < pairs@.len() ==> (#[trigger] pairs@[j]).1.addr != *address,
                    },
                decreases pairs@.len() - i,
            {
                if pairs[i].1.addr == *address {
                    return Ok(Some((owned(pairs[i].0.as_str()), &pairs[i].1)));
                }
                i = i + 1;
            }
            Ok(None)
        },
    }
}

/// The register an operation that needs an existing register acts on, as an index into the
/// device's registers in name order; an error naming the name or the address otherwise.
pub open spec fn spec_existing_register(
    pairs: Seq<(String, DeviceRegisterValue)>,
    selector: RegisterSelector,
) -> Result<int, Seq<char>> {
    match spec_resolve_register(pairs, selector) {
        Ok(Some(i)) => Ok(i),
        Ok(None) => Err(
            "device does not expose register address 0x"@ + spec_hex_padded(
                selector->Address_0 as nat,
                8,
            ),
        ),
        Err(m) => Err(m),
    }
}

/// The register a selector picks, which must exist: its name and description.
pub fn resolve_existing_register<'a>(device: &'a DeviceConfig, selector: &RegisterSelector) -> (r:
    Result<(String, &'a DeviceRegisterValue), ControlError>)
    ensures
        match spec_existing_register(device.registers.pairs(), *selector) {
            Ok(i) => r matches Ok((name, reg)) && name@ == device.registers.pairs()[i].0@ && *reg
                == device.registers.pairs()[i].1,
            Err(m) => r matches Err(e) && error_is(e, ControlErrorKind::InvalidConfiguration, m),
        },
{
    match resolve_register(device, selector) {
        Ok(Some(found)) => Ok(found),
        Ok(None) => {
            let mut m = String::new();
            push_str(&mut m, "device does not expose register address 0x");
            match selector {
                RegisterSelector::Address(address) => {
                    push_hex_padded(&mut m, *address as u64, 8);
                },
                RegisterSelector::Name(_) => {},
            }
            Err(ControlError::new(ControlErrorKind::InvalidConfiguration, m))
        },
        Err(e) => Err(e),
    }
}

/// Where a register read goes and whether it reads a string: a known register's address, read
/// as a string where the device holds a string value for it; an unknown address read as a
/// number.
pub fn plan_register_read(device: &DeviceConfig, selector: &RegisterSelector) -> (r: Result<
    (u32, bool),
    ControlError,
>)
    ensures
        match spec_resolve_register(device.registers.pairs(), *selector) {
            Ok(Some(i)) => r == Ok::<(u32, bool), ControlError>(
                (
                    device.registers.pairs()[i].1.addr,
                    device.registers.pairs()[i].1.str_value is Some,
                ),
            ),
            Ok(None) => r == Ok::<(u32, bool), ControlError>((selector->Address_0, false)),
            Err(m) => r matches Err(e) && error_is(e, ControlErrorKind::InvalidConfiguration, m),
        },
{
    match resolve_register(device, selector) {
        Ok(Some((_name, register))) => Ok((register.addr, register.str_value.is_some())),
        Ok(None) => match selector {
            RegisterSelector::Address(address) => Ok((*address, false)),
            RegisterSelector::Name(name) => Err(unknown_register(name.as_str())),
        },
        Err(e) => Err(e),
    }
}

/// The message for a field a register does not define.
pub open spec fn undefined_field_message(register_name: Seq<char>, field_name: Seq<char>) -> Seq<
    char,
> {
    "register "@ + register_name + " does not define field "@ + field_name
}

fn undefined_field(register_name: &str, field_name: &str) -> (r: ControlError)
    ensures
        error_is(
            r,
            ControlErrorKind::InvalidConfiguration,
            undefined_field_message(register_name@, field_name@),
        ),
{
    let mut m = String::new();
    push_str(&mut m, "register ");
    push_str(&mut m, register_name);
    push_str(&mut m, " does not define field ");
    push_str(&mut m, field_name);
    ControlError::new(ControlErrorKind::InvalidConfiguration, m)
}

/// The value of a named field of a register value read from the device.
pub fn field_value(
    register_name: &str,
    register: &DeviceRegisterValue,
    field_name: &str,
    value: u32,
) -> (r: Result<u32, ControlError>)
    requires
        register.fields@.contains_key(field_name@) ==> !field_shift_overflows(
            register.fields@[field_name@],
        ),
    ensures
        !register.fields@.contains_key(field_name@) ==> (r matches Err(e) && error_is(
            e,
            ControlErrorKind::InvalidConfiguration,
            undefined_field_message(register_name@, field_name@),
        )),
        register.fields@.contains_key(field_name@) ==> {
            let d = register.fields@[field_name@];
            &&& field_def_valid(d) ==> (r matches Ok(v) && v == spec_field_value(value, d))
            &&& !field_def_valid(d) ==> (r matches Err(e) && error_is(
                e,
                ControlErrorKind::InvalidConfiguration,
                field_def_message(d),
            ))
        },
{
    match register.fields.get(field_name) {
        Some(definition) => extract_field(value, definition),
        None => Err(undefined_field(register_name, field_name)),
    }
}

/// The name and address a 32-bit write goes to: a known register's, or the address itself
/// named `0x` and eight hexadecimal digits.
pub fn resolve_write_target(device: &DeviceConfig, selector: &RegisterSelector) -> (r: Result<
    (String, u32),
    ControlError,
>)
    ensures
        match spec_resolve_register(device.registers.pairs(), *selector) {
            Ok(Some(i)) => r matches Ok((name, address)) && name@ == device.registers.pairs()[i].0@
                && address == device.registers.pairs()[i].1.addr,
            Ok(None) => r matches Ok((name, address)) && name@ == "0x"@ + spec_hex_padded(
                selector->Address_0 as nat,
                8,
            ) && address == selector->Address_0,
            Err(m) => r matches Err(e) && error_is(e, ControlErrorKind::InvalidConfiguration, m),
        },
{
    match resolve_register(device, selector) {
        Ok(Some((name, register))) => Ok((name, register.addr)),
        Ok(None) => match selector {
            RegisterSelector::Address(address) => {
                let mut name = String::new();
                push_str(&mut name, "0x");
                push_hex_padded(&mut name, *address as u64, 8);
                Ok((name, *address))
            },
            RegisterSelector::Name(name) => Err(unknown_register(name.as_str())),
        },
        Err(e) => Err(e),
    }
}

/// Whether the value read back after a write is the value written.
pub fn check_applied_u32(register_name: &str, applied: u32, value: u32) -> (r: Result<
    (),
    ControlError,
>)
    ensures
        applied == value ==> r is Ok,
        applied != value ==> (r matches Err(e) && error_is(
            e,
            ControlErrorKind::AppliedValueMismatch,
            "device applied 0x"@ + spec_hex_padded(applied as nat, 8) + " for register "@
                + register_name@ + ", expected 0x"@ + spec_hex_padded(value as nat, 8),
        )),
{
    if applied != value {
        let mut m = String::new();
        push_str(&mut m, "device applied 0x");
        push_hex_padded(&mut m, applied as u64, 8);
        push_str(&mut m, " for register ");
        push_str(&mut m, register_name);
        push_str(&mut m, ", expected 0x");
        push_hex_padded(&mut m, value as u64, 8);
        return Err(ControlError::new(ControlErrorKind::AppliedValueMismatch, m));
    }
    Ok(())
}

/// How folding field updates into one register value ends: the value and the mask of the bits
/// written, a message, or a field position too large to shift by.
pub enum FieldFold {
    Values(u32, u32),
    Failed(Seq<char>),
    ShiftOverflow,
}

/// The message for a field value wider than its field.
pub open spec fn field_too_wide_message(
    field_name: Seq<char>,
    value: u32,
    register_name: Seq<char>,
) -> Seq<char> {
    "field "@ + field_name + " value 0x"@ + spec_hex(value as nat)
        + " exceeds the bit width of register "@ + register_name
}

/// The value and mask of a list of field updates of a register with the given field
/// definitions, each value placed at its field's position.
pub open spec fn spec_fold_fields(
    register_name: Seq<char>,
    defs: Map<Seq<char>, FeatureFieldDefinition>,
    fields: Seq<FieldUpdate>,
) -> FieldFold
    decreases fields.len(),
{
    if fields.len() == 0 {
        FieldFold::Values(0, 0)
    } else {
        match spec_fold_fields(register_name, defs, fields.drop_last()) {
            FieldFold::Values(w, m) => {
                let f = fields.last();
                if !defs.contains_key(f.name@) {
                    FieldFold::Failed(undefined_field_message(register_name, f.name@))
                } else {
                    let d = defs[f.name@];
                    if field_check_overflows(d) {
                        FieldFold::ShiftOverflow
                    } else if !field_def_valid(d) {
                        FieldFold::Failed(field_def_message(d))
                    } else {
                        let mask = low_bits_mask(d.len as nat) as u32;
                        if f.value & !mask != 0 {
                            FieldFold::Failed(
                                field_too_wide_message(f.name@, f.value, register_name),
                            )
                        } else if field_shift(d) >= 32 {
                            FieldFold::ShiftOverflow
                        } else {
                            let shift = field_shift(d) as u32;
                            FieldFold::Values(w | (f.value << shift), m | (mask << shift))
                        }
                    }
                }
            },
            other => other,
        }
    }
}

/// What writing fields into a register takes: the register's name and address, the value and
/// mask to write, and whether the current value must be read first (when not every field of
/// the register is written).
pub struct FieldWritePlan {
    pub register_name: String,
    pub address: u32,
    pub write_value: u32,
    pub mask_value: u32,
    pub read_current: bool,
}

/// The plan of a field write, its error, or a field position too large to shift by (on which
/// the write has no result).
pub enum FieldWriteOutcome {
    Planned(FieldWritePlan),
    Failed(ControlError),
    ShiftOverflow,
}

/// What planning a field write gives, with the register as an index into the device's
/// registers in name order.
pub enum PlanSpec {
    Planned { index: int, write_value: u32, mask_value: u32, read_current: bool },
    Failed(Seq<char>),
    ShiftOverflow,
}

/// The plan of a write of `fields` into the register a selector picks.
pub open spec fn spec_plan_field_write(
    pairs: Seq<(String, DeviceRegisterValue)>,
    selector: RegisterSelector,
    fields: Seq<FieldUpdate>,
) -> PlanSpec {
    match spec_existing_register(pairs, selector) {
        Err(m) => PlanSpec::Failed(m),
        Ok(i) => if fields.len() == 0 {
            PlanSpec::Failed("no register fields provided for "@ + pairs[i].0@)
        } else {
            match spec_fold_fields(pairs[i].0@, pairs[i].1.fields@, fields) {
                FieldFold::Values(w, m) => PlanSpec::Planned {
                    index: i,
                    write_value: w,
                    mask_value: m,
                    read_current: pairs[i].1.fields.pairs().len() != fields.len(),
                },
                FieldFold::Failed(m) => PlanSpec::Failed(m),
                FieldFold::ShiftOverflow => PlanSpec::ShiftOverflow,
            }
        },
    }
}

/// Whether an exec plan is the specified one.
pub open spec fn plan_matches(
    r: FieldWriteOutcome,
    s: PlanSpec,
    pairs: Seq<(String, DeviceRegisterValue)>,
) -> bool {
    match s {
        PlanSpec::Planned { index, write_value, mask_value, read_current } => r matches FieldWriteOutcome::Planned(p)
            && p.register_name@ == pairs[index].0@ && p.address == pairs[index].1.addr
            && p.write_value == write_value && p.mask_value == mask_value && p.read_current
            == read_current,
        PlanSpec::Failed(m) => r matches FieldWriteOutcome::Failed(e) && error_is(
            e,
            ControlErrorKind::InvalidConfiguration,
            m,
        ),
        PlanSpec::ShiftOverflow => r is ShiftOverflow,
    }
}

/// Plans a write of field values into a register.
pub fn plan_field_write(
    device: &DeviceConfig,
    selector: &RegisterSelector,
    fields: &[FieldUpdate],
) -> (r: FieldWriteOutcome)
    ensures
        plan_matches(
            r,
            spec_plan_field_write(device.registers.pairs(), *selector, fields@),
            device.registers.pairs(),
        ),
{
    let (register_name, register) = match resolve_existing_register(device, selector) {
        Ok(found) => found,
        Err(e) => return FieldWriteOutcome::Failed(e),
    };
    let ghost pairs = device.registers.pairs();
    let ghost index = spec_existing_register(pairs, *selector)->Ok_0;
    if fields.len() == 0 {
        let mut m = String::new();
        push_str(&mut m, "no register fields provided for ");
        push_str(&mut m, register_name.as_str());
        return FieldWriteOutcome::Failed(ControlError::new(ControlErrorKind::InvalidConfiguration, m));
    }
    let ghost defs = register.fields@;
    let ghost rn = register_name@;
    let mut write_value: u32 = 0;
    let mut mask_value: u32 = 0;
    let mut i: usize = 0;
    assert(fields@.subrange(0, 0) =~= Seq::<FieldUpdate>::empty());
    while i < fields.len()
        invariant
            pairs == device.registers.pairs(),
            spec_existing_register(pairs, *selector) == Ok::<int, Seq<char>>(index),
            rn == pairs[index].0@,
            *register == pairs[index].1,
            fields@.len() > 0,
            defs == register.fields@,
            rn == register_name@,
            i <= fields@.len(),
            spec_fold_fields(rn, defs, fields@.subrange(0, i as int)) == FieldFold::Values(
                write_value,
                mask_value,
            ),
        decreases fields@.len() - i,
    {
        let field = &fields[i];
        let ghost prefix = fields@.subrange(0, i + 1);
        assert(prefix.drop_last() =~= fields@.subrange(0, i as int));
        assert(prefix.last() == *field);
        let definition = match register.fields.get(field.name.as_str()) {
            Some(d) => d,
            None => {
                proof {
                    lemma_fold_stops(rn, defs, fields@, i + 1);
                }
                return FieldWriteOutcome::Failed(
                    undefined_field(register_name.as_str(), field.name.as_str()),
                );
            },
        };
        if definition.len >= 1 && definition.len <= 32 && definition.msb == u32::MAX {
            proof {
                lemma_fold_stops(rn, defs, fields@, i + 1);
            }
            return FieldWriteOutcome::ShiftOverflow;
        }
        let (shift, field_mask) = match field_mask(definition) {
            Ok(x) => x,
            Err(e) => {
                proof {
                    lemma_fold_stops(rn, defs, fields@, i + 1);
                }
                return FieldWriteOutcome::Failed(e);
            },
        };
        if (field.value & !field_mask) != 0 {
            let mut m = String::new();
            push_str(&mut m, "field ");
            push_str(&mut m, field.name.as_str());
            push_str(&mut m, " value 0x");
            push_hex(&mut m, field.value as u64);
            push_str(&mut m, " exceeds the bit width of register ");
            push_str(&mut m, register_name.as_str());
            proof {
                lemma_fold_stops(rn, defs, fields@, i + 1);
            }
            return FieldWriteOutcome::Failed(ControlError::new(ControlErrorKind::InvalidConfiguration, m));
        }
        if shift >= 32 {
            proof {
                lemma_fold_stops(rn, defs, fields@, i + 1);
            }
            return FieldWriteOutcome::ShiftOverflow;
        }
        write_value = write_value | (field.value << shift);
        mask_value = mask_value | (field_mask << shift);
        i = i + 1;
    }
    assert(fields@.subrange(0, fields@.len() as int) =~= fields@);
    let read_current = register.fields.len() != fields.len();
    FieldWriteOutcome::Planned(
        FieldWritePlan {
            register_name,
            address: register.addr,
            write_value,
            mask_value,
            read_current,
        },
    )
}

proof fn lemma_fold_stops(
    register_name: Seq<char>,
    defs: Map<Seq<char>, FeatureFieldDefinition>,
    fields: Seq<FieldUpdate>,
    k: int,
)
    requires
        0 <= k <= fields.len(),
        !(spec_fold_fields(register_name, defs, fields.subrange(0, k)) is Values),
    ensures
        spec_fold_fields(register_name, defs, fields) == spec_fold_fields(
            register_name,
            defs,
            fields.subrange(0, k),
        ),
    decreases fields.len() - k,
{
    if k == fields.len() {
        assert(fields.subrange(0, k) =~= fields);
    } else {
        assert(fields.subrange(0, k + 1).drop_last() =~= fields.subrange(0, k));
        lemma_fold_stops(register_name, defs, fields, k + 1);
    }
}

/// A field write that names fewer (or more) fields than the register defines must read the
/// register first, and the value it then sends keeps every bit outside the written fields as
/// read; one that names as many fields as the register defines sends its own value unread.
pub proof fn lemma_partial_field_write_reads_current(
    pairs: Seq<(String, DeviceRegisterValue)>,
    selector: RegisterSelector,
    fields: Seq<FieldUpdate>,
    current: u32,
)
    ensures
        spec_plan_field_write(pairs, selector, fields) matches PlanSpec::Planned {
            index,
            write_value,
            mask_value,
            read_current,
        } ==> {
            &&& fields.len() < pairs[index].1.fields.pairs().len() ==> read_current
            &&& read_current <==> fields.len() != pairs[index].1.fields.pairs().len()
            &&& read_current ==> ((current & !mask_value) | (write_value & mask_value)) & !mask_value
                == current & !mask_value
        },
{
    if spec_plan_field_write(pairs, selector, fields) is Planned {
        let m = spec_plan_field_write(pairs, selector, fields)->mask_value;
        let w = spec_plan_field_write(pairs, selector, fields)->write_value;
        assert(((current & !m) | (w & m)) & !m == current & !m) by (bit_vector);
    }
}

/// The value to write when the current value must be kept outside the written fields.
pub fn merge_current(plan: &FieldWritePlan, current: u32) -> (r: u32)
    ensures
        r == (current & !plan.mask_value) | (plan.write_value & plan.mask_value),
{
    (current & !plan.mask_value) | (plan.write_value & plan.mask_value)
}

/// The first field the value read back does not hold as written: its error, if any.
pub open spec fn spec_check_fields(
    register_name: Seq<char>,
    defs: Map<Seq<char>, FeatureFieldDefinition>,
    fields: Seq<FieldUpdate>,
    applied: u32,
) -> Option<(ControlErrorKind, Seq<char>)>
    decreases fields.len(),
{
    if fields.len() == 0 {
        None
    } else {
        match spec_check_fields(register_name, defs, fields.drop_last(), applied) {
            Some(e) => Some(e),
            None => {
                let f = fields.last();
                let d = defs[f.name@];
                if !field_def_valid(d) {
                    Some((ControlErrorKind::InvalidConfiguration, field_def_message(d)))
                } else if spec_field_value(applied, d) != f.value {
                    Some(
                        (
                            ControlErrorKind::AppliedValueMismatch,
                            "device did not apply field "@ + f.name@ + " on register "@
                                + register_name + " as requested"@,
                        ),
                    )
                } else {
                    None
                }
            },
        }
    }
}

/// Whether the value read back after a field write holds every field as written.
pub fn check_applied_fields(
    register_name: &str,
    register: &DeviceRegisterValue,
    fields: &[FieldUpdate],
    applied: u32,
) -> (r: Result<(), ControlError>)
    requires
        forall|i: int|
            0 <= i < fields@.len() ==> register.fields@.contains_key((#[trigger] fields@[i]).name@)
                && !field_shift_overflows(register.fields@[fields@[i].name@]),
    ensures
        match spec_check_fields(register_name@, register.fields@, fields@, applied) {
            None => r is Ok,
            Some((kind, m)) => r matches Err(e) && error_is(e, kind, m),
        },
{
    let ghost defs = register.fields@;
    let mut i: usize = 0;
    assert(fields@.subrange(0, 0) =~= Seq::<FieldUpdate>::empty());
    while i < fields.len()
        invariant
            defs == register.fields@,
            i <= fields@.len(),
            forall|j: int|
                0 <= j < fields@.len() ==> defs.contains_key((#[trigger] fields@[j]).name@)
                    && !field_shift_overflows(defs[fields@[j].name@]),
            spec_check_fields(register_name@, defs, fields@.subrange(0, i as int), applied) is None,
        decreases fields@.len() - i,
    {
        let field = &fields[i];
        let ghost prefix = fields@.subrange(0, i + 1);
        assert(prefix.drop_last() =~= fields@.subrange(0, i as int));
        assert(prefix.last() == *field);
        assert(defs.contains_key(fields@[i as int].name@));
        let definition = match register.fields.get(field.name.as_str()) {
            Some(d) => d,
            None => {
                assert(false);
                return Ok(());
            },
        };
        match extract_field(applied, definition) {
            Ok(v) => {
                if v != field.value {
                    let mut m = String::new();
                    push_str(&mut m, "device did not apply field ");
                    push_str(&mut m, field.name.as_str());
                    push_str(&mut m, " on register ");
                    push_str(&mut m, register_name);
                    push_str(&mut m, " as requested");
                    proof {
                        lemma_check_stops(register_name@, defs, fields@, applied, i + 1);
                    }
                    return Err(ControlError::new(ControlErrorKind::AppliedValueMismatch, m));
                }
            },
            Err(e) => {
                proof {
                    lemma_check_stops(register_name@, defs, fields@, applied, i + 1);
                }
                return Err(e);
            },
        }
        i = i + 1;
    }
    assert(fields@.subrange(0, fields@.len() as int) =~= fields@);
    Ok(())
}

proof fn lemma_check_stops(
    register_name: Seq<char>,
    defs: Map<Seq<char>, FeatureFieldDefinition>,
    fields: Seq<FieldUpdate>,
    applied: u32,
    k: int,
)
    requires
        0 <= k <= fields.len(),
        spec_check_fields(register_name, defs, fields.subrange(0, k), applied) is Some,
    ensures
        spec_check_fields(register_name, defs, fields, applied) == spec_check_fields(
            register_name,
            defs,
            fields.subrange(0, k),
            applied,
        ),
    decreases fields.len() - k,
{
    if k == fields.len() {
        assert(fields.subrange(0, k) =~= fields);
    } else {
        assert(fields.subrange(0, k + 1).drop_last() =~= fields.subrange(0, k));
        lemma_check_stops(register_name, defs, fields, applied, k + 1);
    }
}

proof fn lemma_mask_form(len: u32)
    requires
        1 <= len <= 32,
    ensures
        low_bits_mask(len as nat) <= u32::MAX,
        len == 32 ==> low_bits_mask(len as nat) as u32 == 0xffff_ffffu32,
        len < 32 ==> low_bits_mask(len as nat) as u32 == ((1u32 << len) - 1) as u32,
{
    if len == 32 {
        vstd::bits::lemma_low_bits_mask_values();
    } else {
        vstd::bits::lemma_u32_pow2_no_overflow(len as nat);
        vstd::bits::lemma_u32_shl_is_mul(1, len);
        vstd::bits::lemma_low_bits_mask_unfold(len as nat);
        vstd::arithmetic::power2::lemma_pow2_pos(len as nat);
    }
}

proof fn lemma_field_value_bits(x: u32, d: FeatureFieldDefinition)
    requires
        field_def_valid(d),
        field_shift(d) < 32,
    ensures
        spec_field_value(x, d) == ((x >> (field_shift(d) as u32)) & (low_bits_mask(
            d.len as nat,
        ) as u32)),
{
    let shift = field_shift(d) as u32;
    let len = d.len;
    let shifted = x >> shift;
    vstd::bits::lemma_u32_shr_is_div(x, shift);
    lemma_mask_form(len);
    if len == 32 {
        assert(shifted & 0xffff_ffffu32 == shifted) by (bit_vector);
        vstd::arithmetic::power2::lemma2_to64();
        vstd::arithmetic::div_mod::lemma_small_mod(shifted as nat, pow2(32));
    } else {
        vstd::bits::lemma_u32_low_bits_mask_is_mod(shifted, len as nat);
        vstd::bits::lemma_u32_pow2_no_overflow(len as nat);
    }
}

/// A field written into a register reads back as written, whatever the register held: the
/// write of one field (planned from its definition, merged into the current value) leaves
/// the field holding the value and every other bit as it was, and passes the check of the
/// value read back. This holds for fields that lie within the 32-bit register and values
/// that fit in the field.
pub proof fn lemma_field_write_reads_back(
    register_name: Seq<char>,
    defs: Map<Seq<char>, FeatureFieldDefinition>,
    f: FieldUpdate,
    current: u32,
)
    requires
        defs.contains_key(f.name@),
        field_def_valid(defs[f.name@]),
        defs[f.name@].msb < 32,
        f.value & !(low_bits_mask(defs[f.name@].len as nat) as u32) == 0,
    ensures
        spec_fold_fields(register_name, defs, seq![f]) matches FieldFold::Values(w, m) && {
            let merged = (current & !m) | (w & m);
            &&& spec_field_value(merged, defs[f.name@]) == f.value
            &&& merged & !m == current & !m
            &&& spec_check_fields(register_name, defs, seq![f], merged) is None
        },
{
    let d = defs[f.name@];
    let len = d.len;
    let shift = field_shift(d) as u32;
    let v = f.value;
    lemma_mask_form(len);
    let mk = low_bits_mask(len as nat) as u32;
    assert(seq![f].drop_last() =~= Seq::<FieldUpdate>::empty());
    assert(seq![f].last() == f);
    assert(spec_fold_fields(register_name, defs, Seq::<FieldUpdate>::empty()) == FieldFold::Values(
        0,
        0,
    ));
    assert(spec_fold_fields(register_name, defs, seq![f]) == FieldFold::Values(
        0u32 | (v << shift),
        0u32 | (mk << shift),
    ));
    let w = 0u32 | (v << shift);
    let m = 0u32 | (mk << shift);
    let merged = (current & !m) | (w & m);
    assert(shift + len <= 32);
    assert(((merged >> shift) & mk) == v && merged & !m == current & !m) by (bit_vector)
        requires
            1 <= len <= 32,
            shift + len <= 32,
            len == 32 ==> mk == 0xffff_ffffu32,
            len < 32 ==> mk == ((1u32 << len) - 1) as u32,
            v & !mk == 0,
            w == 0u32 | (v << shift),
            m == 0u32 | (mk << shift),
            merged == (current & !m) | (w & m),
    ;
    lemma_field_value_bits(merged, d);
    assert(spec_check_fields(register_name, defs, seq![f].drop_last(), merged) is None);
}

} // verus!
