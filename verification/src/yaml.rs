use std::collections::BTreeMap;
use vstd::prelude::*;

use crate::discovery::io_error_text;
use crate::string_map::StringMap;
use crate::text::{parse_u32_radix, push_str, spec_parse_u32};

verus! {

broadcast use {
    vstd::std_specs::btree::group_btree_axioms,
    vstd::laws_cmp::group_laws_cmp,
};

#[verifier::external_type_specification]
#[verifier::external_body]
pub struct ExYamlError(serde_yaml::Error);

/// A bit field of a register: its most significant bit and its width.
#[derive(Clone, Copy, Debug, PartialEq, Eq, Structural)]
pub struct FeatureFieldDefinition {
    pub msb: u32,
    pub len: u32,
}

/// A register of a feature: its word offset, name, access and fields.
#[derive(Debug, PartialEq, Eq)]
pub struct FeatureRegisterDefinition {
    pub offset: u32,
    pub name: String,
    pub access: Option<String>,
    pub fields: StringMap<FeatureFieldDefinition>,
}

/// A pointer of a feature: the index of the pointer word and the registers it points at.
#[derive(Debug, PartialEq, Eq)]
pub struct FeaturePointerDefinition {
    pub index: u32,
    pub name: String,
    pub registers: Vec<FeatureRegisterDefinition>,
}

/// A feature of the feature catalog.
#[derive(Debug, PartialEq, Eq)]
pub struct FeatureDefinition {
    pub name: String,
    pub short_name: String,
    pub pointers: Vec<FeaturePointerDefinition>,
}

/// The capability flags of a device.
#[derive(Clone, Copy, Debug, PartialEq, Eq, Structural)]
pub struct DeviceCapabilities {
    pub dec_avail: bool,
    pub mult_addr: bool,
    pub string_rd: bool,
    pub fifo_rd: bool,
    pub read_rst: bool,
    pub mask_wr: bool,
    pub bit_tog: bool,
    pub bit_set: bool,
    pub bit_clear: bool,
    pub static_ip: bool,
    pub link_local_ip: bool,
    pub dhcp_ip: bool,
    pub multi_disc: bool,
}

impl Default for DeviceCapabilities {
    /// No capability.
    fn default() -> (r: DeviceCapabilities)
        ensures
            r == (DeviceCapabilities {
                dec_avail: false,
                mult_addr: false,
                string_rd: false,
                fifo_rd: false,
                read_rst: false,
                mask_wr: false,
                bit_tog: false,
                bit_set: false,
                bit_clear: false,
                static_ip: false,
                link_local_ip: false,
                dhcp_ip: false,
                multi_disc: false,
            }),
    {
        DeviceCapabilities {
            dec_avail: false,
            mult_addr: false,
            string_rd: false,
            fifo_rd: false,
            read_rst: false,
            mask_wr: false,
            bit_tog: false,
            bit_set: false,
            bit_clear: false,
            static_ip: false,
            link_local_ip: false,
            dhcp_ip: false,
            multi_disc: false,
        }
    }
}

/// Where a device was found.
#[derive(Clone, Debug, PartialEq, Eq)]
pub struct DeviceLocation {
    pub interface_name: String,
    pub interface_address: String,
    pub device_address: String,
}

impl Default for DeviceLocation {
    /// Empty names and addresses.
    fn default() -> (r: DeviceLocation)
        ensures
            r.interface_name@ == Seq::<char>::empty(),
            r.interface_address@ == Seq::<char>::empty(),
            r.device_address@ == Seq::<char>::empty(),
    {
        DeviceLocation {
            interface_name: String::new(),
            interface_address: String::new(),
            device_address: String::new(),
        }
    }
}

/// The memory map of a device.
#[derive(Clone, Copy, Debug, PartialEq, Eq, Structural)]
pub struct DeviceMemoryMap {
    pub last_static: u32,
    pub first_mutable: u32,
    pub last_mutable: u32,
}

impl Default for DeviceMemoryMap {
    /// All zero.
    fn default() -> (r: DeviceMemoryMap)
        ensures
            r == (DeviceMemoryMap { last_static: 0, first_mutable: 0, last_mutable: 0 }),
    {
        DeviceMemoryMap { last_static: 0, first_mutable: 0, last_mutable: 0 }
    }
}

/// A register of a device: its address, access, value and fields.
#[derive(Debug, PartialEq, Eq)]
pub struct DeviceRegisterValue {
    pub addr: u32,
    pub access: String,
    pub int_value: Option<u64>,
    pub str_value: Option<String>,
    pub fields: StringMap<FeatureFieldDefinition>,
}

/// The description of a device: where it is, what it can do, its memory map and its
/// registers by name.
#[derive(Debug, PartialEq, Eq)]
pub struct DeviceConfig {
    pub location: DeviceLocation,
    pub capabilities: DeviceCapabilities,
    pub memory_map: DeviceMemoryMap,
    pub registers: StringMap<DeviceRegisterValue>,
}

/// What can go wrong reading or writing device descriptions.
#[derive(Debug)]
pub enum YamlError {
    Io(std::io::Error),
    Parse(serde_yaml::Error),
    Serialize(serde_yaml::Error),
    InvalidFeatureId(String),
    NoYamlInDirectory(String),
    MultipleYamlFiles(String),
}

/// The text of a YAML error (its `Display` rendering, which serde_yaml does not pin down).
#[verifier::external_body]
fn yaml_error_text(e: &serde_yaml::Error) -> String {
    format!("{}", e)
}

impl YamlError {
    /// The human-readable text of this error. For an I/O or YAML error it is that error's text.
    pub fn message(&self) -> (r: String)
        ensures
            *self matches YamlError::InvalidFeatureId(k) ==> r@ == "invalid feature id key "@ + k@,
            *self matches YamlError::NoYamlInDirectory(p) ==> r@
                == "no YAML file found in directory "@ + p@,
            *self matches YamlError::MultipleYamlFiles(p) ==> r@
                == "multiple YAML files found in directory "@ + p@,
    {
        let mut out = String::new();
        match self {
            YamlError::Io(e) => {
                out = io_error_text(e);
            },
            YamlError::Parse(e) => {
                out = yaml_error_text(e);
            },
            YamlError::Serialize(e) => {
                out = yaml_error_text(e);
            },
            YamlError::InvalidFeatureId(k) => {
                push_str(&mut out, "invalid feature id key ");
                push_str(&mut out, k.as_str());
            },
            YamlError::NoYamlInDirectory(p) => {
                push_str(&mut out, "no YAML file found in directory ");
                push_str(&mut out, p.as_str());
            },
            YamlError::MultipleYamlFiles(p) => {
                push_str(&mut out, "multiple YAML files found in directory ");
                push_str(&mut out, p.as_str());
            },
        }
        out
    }
}

/// The text left after dropping every leading `0x`.
pub open spec fn spec_strip_hex_prefixes(s: Seq<char>) -> Seq<char>
    decreases s.len(),
{
    if s.len() >= 2 && s[0] == '0' && s[1] == 'x' {
        spec_strip_hex_prefixes(s.subrange(2, s.len() as int))
    } else {
        s
    }
}

/// `str::trim_start_matches("0x")`.
pub fn strip_hex_prefixes(s: &str) -> (r: &str)
    ensures
        r@ == spec_strip_hex_prefixes(s@),
{
    let n = s.unicode_len();
    let mut start: usize = 0;
    assert(s@.subrange(0, n as int) =~= s@);
    while n - start >= 2 && s.get_char(start) == '0' && s.get_char(start + 1) == 'x'
        invariant
            n == s@.len(),
            start <= n,
            spec_strip_hex_prefixes(s@) == spec_strip_hex_prefixes(s@.subrange(start as int, n as int)),
        decreases n - start,
    {
        let ghost rest = s@.subrange(start as int, n as int);
        assert(rest.subrange(2, rest.len() as int) =~= s@.subrange(start + 2, n as int));
        start = start + 2;
    }
    let r = s.substring_char(start, n);
    assert(spec_strip_hex_prefixes(r@) == r@);
    r
}

/// The feature id a catalog key stands for: hexadecimal, after any leading `0x`.
pub open spec fn spec_feature_id(key: Seq<char>) -> Option<u32> {
    spec_parse_u32(spec_strip_hex_prefixes(key), 16)
}

/// The catalog built from definitions keyed by their text key, a later key with the same id
/// winning; the first key (in the order given) that is no hexadecimal number where there is one.
pub open spec fn spec_catalog(raw: Seq<(String, FeatureDefinition)>) -> Result<
    Map<u32, FeatureDefinition>,
    Seq<char>,
>
    decreases raw.len(),
{
    if raw.len() == 0 {
        Ok(Map::empty())
    } else {
        match spec_catalog(raw.drop_last()) {
            Err(k) => Err(k),
            Ok(m) => match spec_feature_id(raw.last().0@) {
                Some(id) => Ok(m.insert(id, raw.last().1)),
                None => Err(raw.last().0@),
            },
        }
    }
}

/// The catalog keyed by feature id, from the definitions keyed by their text key.
pub fn feature_catalog_from_entries(raw: Vec<(String, FeatureDefinition)>) -> (r: Result<
    BTreeMap<u32, FeatureDefinition>,
    YamlError,
>)
    ensures
        match spec_catalog(raw@) {
            Ok(m) => r matches Ok(catalog) && catalog@ == m,
            Err(k) => r matches Err(YamlError::InvalidFeatureId(s)) && s@ == k,
        },
{
    let ghost raw_view = raw@;
    let mut features: BTreeMap<u32, FeatureDefinition> = BTreeMap::new();
    let mut i: usize = 0;
    let n = raw.len();
    let mut items: Vec<(String, FeatureDefinition)> = raw;
    assert(raw_view.subrange(0, 0) =~= seq![]);
    assert(items@ =~= raw_view.subrange(0, n as int));
    while i < n
        invariant
            raw_view == raw@,
            n == raw_view.len(),
            i <= n,
            items@ == raw_view.subrange(i as int, n as int),
            spec_catalog(raw_view.subrange(0, i as int)) == Ok::<
                Map<u32, FeatureDefinition>,
                Seq<char>,
            >(features@),
        decreases n - i,
    {
        let ghost prefix = raw_view.subrange(0, i + 1);
        assert(prefix.drop_last() =~= raw_view.subrange(0, i as int));
        assert(items@[0] == raw_view[i as int]);
        let (key, definition) = items.remove(0);
        assert(items@ =~= raw_view.subrange(i + 1, n as int));
        assert(prefix.last() == (key, definition));
        let trimmed = strip_hex_prefixes(key.as_str());
        match parse_u32_radix(trimmed, 16) {
            Some(id) => {
                features.insert(id, definition);
            },
            None => {
                proof {
                    assert(spec_feature_id(key@) is None);
                    assert(spec_catalog(prefix) == Err::<Map<u32, FeatureDefinition>, Seq<char>>(
                        key@,
                    ));
                    lemma_catalog_error_sticks(raw_view, i + 1);
                }
                return Err(YamlError::InvalidFeatureId(key));
            },
        }
        i = i + 1;
    }
    assert(raw_view.subrange(0, n as int) =~= raw_view);
    Ok(features)
}

proof fn lemma_catalog_error_sticks(raw: Seq<(String, FeatureDefinition)>, k: int)
    requires
        0 <= k <= raw.len(),
        spec_catalog(raw.subrange(0, k)) is Err,
    ensures
        spec_catalog(raw) == spec_catalog(raw.subrange(0, k)),
    decreases raw.len() - k,
{
    if k == raw.len() {
        assert(raw.subrange(0, k) =~= raw);
    } else {
        assert(raw.subrange(0, k + 1).drop_last() =~= raw.subrange(0, k));
        lemma_catalog_error_sticks(raw, k + 1);
    }
}

} // verus!
