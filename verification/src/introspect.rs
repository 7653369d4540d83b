use std::collections::BTreeMap;
use vstd::prelude::*;

use crate::control::{ControlError, ControlErrorKind};
use crate::device::FEATURE_TABLE_ADDR;
use crate::register_map::error_is;
use crate::string_map::StringMap;
use crate::text::{
    owned, push_decimal, push_hex_padded, push_str, spec_decimal, spec_hex_padded, str_eq,
};
use crate::yaml::{
    DeviceCapabilities, DeviceConfig, DeviceLocation, DeviceMemoryMap, DeviceRegisterValue,
    FeatureDefinition, FeatureFieldDefinition, FeaturePointerDefinition,
    FeatureRegisterDefinition,
};

verus! {

broadcast use {
    vstd::std_specs::btree::group_btree_axioms,
    vstd::laws_cmp::group_laws_cmp,
};

/// The signature in the high half of the capabilities word of every EEVideo device.
pub const CAPABILITIES_SIGNATURE: u32 = 0xE71D;

/// The capability flags of a capabilities word, one bit each.
pub open spec fn spec_capabilities(word: u32) -> DeviceCapabilities {
    DeviceCapabilities {
        dec_avail: word & 0x8000 != 0,
        mult_addr: word & 0x0800 != 0,
        string_rd: word & 0x0400 != 0,
        fifo_rd: word & 0x0200 != 0,
        read_rst: word & 0x0100 != 0,
        mask_wr: word & 0x0080 != 0,
        bit_tog: word & 0x0040 != 0,
        bit_set: word & 0x0020 != 0,
        bit_clear: word & 0x0010 != 0,
        static_ip: word & 0x0008 != 0,
        link_local_ip: word & 0x0004 != 0,
        dhcp_ip: word & 0x0002 != 0,
        multi_disc: word & 0x0001 != 0,
    }
}

/// The message for a capabilities word without the EEVideo signature.
pub open spec fn spec_signature_message(word: u32) -> Seq<char> {
    "device capabilities register does not contain the EEVideo signature: 0x"@ + spec_hex_padded(
        word as nat,
        8,
    )
}

/// The capability flags of a device, from its capabilities word; an error where the word
/// lacks the EEVideo signature.
pub fn decode_capabilities_word(word: u32) -> (r: Result<DeviceCapabilities, ControlError>)
    ensures
        word >> 16 == CAPABILITIES_SIGNATURE ==> r == Ok::<DeviceCapabilities, ControlError>(
            spec_capabilities(word),
        ),
        word >> 16 != CAPABILITIES_SIGNATURE ==> (r matches Err(e) && error_is(
            e,
            ControlErrorKind::Connection,
            spec_signature_message(word),
        )),
{
    if word >> 16 != CAPABILITIES_SIGNATURE {
        let mut m = owned("device capabilities register does not contain the EEVideo signature: 0x");
        push_hex_padded(&mut m, word as u64, 8);
        return Err(ControlError::new(ControlErrorKind::Connection, m));
    }
    Ok(
        DeviceCapabilities {
            dec_avail: word & 0x8000 != 0,
            mult_addr: word & 0x0800 != 0,
            string_rd: word & 0x0400 != 0,
            fifo_rd: word & 0x0200 != 0,
            read_rst: word & 0x0100 != 0,
            mask_wr: word & 0x0080 != 0,
            bit_tog: word & 0x0040 != 0,
            bit_set: word & 0x0020 != 0,
            bit_clear: word & 0x0010 != 0,
            static_ip: word & 0x0008 != 0,
            link_local_ip: word & 0x0004 != 0,
            dhcp_ip: word & 0x0002 != 0,
            multi_disc: word & 0x0001 != 0,
        },
    )
}

/// Each capability flag of a signed capabilities word is one bit of the word, in the EEVideo
/// layout: bit 15 decoder available, bit 11 multicast addressing, bit 10 string reads, bit 9
/// FIFO reads, bit 8 read reset, bit 7 masked writes, bit 6 bit toggle, bit 5 bit set, bit 4
/// bit clear, bit 3 static IP, bit 2 link-local IP, bit 1 DHCP, bit 0 multiple discovery.
pub proof fn lemma_capability_bits(word: u32)
    ensures
        ({
            let c = spec_capabilities(word);
            &&& c.dec_avail == ((word >> 15u32) % 2 == 1)
            &&& c.mult_addr == ((word >> 11u32) % 2 == 1)
            &&& c.string_rd == ((word >> 10u32) % 2 == 1)
            &&& c.fifo_rd == ((word >> 9u32) % 2 == 1)
            &&& c.read_rst == ((word >> 8u32) % 2 == 1)
            &&& c.mask_wr == ((word >> 7u32) % 2 == 1)
            &&& c.bit_tog == ((word >> 6u32) % 2 == 1)
            &&& c.bit_set == ((word >> 5u32) % 2 == 1)
            &&& c.bit_clear == ((word >> 4u32) % 2 == 1)
            &&& c.static_ip == ((word >> 3u32) % 2 == 1)
            &&& c.link_local_ip == ((word >> 2u32) % 2 == 1)
            &&& c.dhcp_ip == ((word >> 1u32) % 2 == 1)
            &&& c.multi_disc == (word % 2 == 1)
        }),
{
    assert(
        ((word & 0x8000 != 0) == ((word >> 15u32) % 2 == 1))
        && ((word & 0x0800 != 0) == ((word >> 11u32) % 2 == 1))
        && ((word & 0x0400 != 0) == ((word >> 10u32) % 2 == 1))
        && ((word & 0x0200 != 0) == ((word >> 9u32) % 2 == 1))
        && ((word & 0x0100 != 0) == ((word >> 8u32) % 2 == 1))
        && ((word & 0x0080 != 0) == ((word >> 7u32) % 2 == 1))
        && ((word & 0x0040 != 0) == ((word >> 6u32) % 2 == 1))
        && ((word & 0x0020 != 0) == ((word >> 5u32) % 2 == 1))
        && ((word & 0x0010 != 0) == ((word >> 4u32) % 2 == 1))
        && ((word & 0x0008 != 0) == ((word >> 3u32) % 2 == 1))
        && ((word & 0x0004 != 0) == ((word >> 2u32) % 2 == 1))
        && ((word & 0x0002 != 0) == ((word >> 1u32) % 2 == 1))
        && ((word & 0x0001 != 0) == (word % 2 == 1))
    ) by (bit_vector);
}

/// A register to read while describing a device: its name, address, access and fields.
#[derive(Debug)]
pub struct PlannedRegister {
    pub name: String,
    pub addr: u32,
    pub access: String,
    pub fields: StringMap<FeatureFieldDefinition>,
}

/// A planned register with its texts as sequences and its fields as a map.
pub struct PlannedView {
    pub name: Seq<char>,
    pub addr: u32,
    pub access: Seq<char>,
    pub fields: Map<Seq<char>, FeatureFieldDefinition>,
}

impl View for PlannedRegister {
    type V = PlannedView;

    open spec fn view(&self) -> PlannedView {
        PlannedView {
            name: self.name@,
            addr: self.addr,
            access: self.access@,
            fields: self.fields@,
        }
    }
}

/// The views of planned registers.
pub open spec fn planned_views(s: Seq<PlannedRegister>) -> Seq<PlannedView> {
    s.map_values(|p: PlannedRegister| p@)
}

/// `a + b`, or the largest `u32` where that overflows.
pub open spec fn sat_add(a: u32, b: u32) -> u32 {
    if a + b > u32::MAX {
        u32::MAX
    } else {
        (a + b) as u32
    }
}

/// Four times `offset`, or the largest `u32` where that overflows.
pub open spec fn sat_times4(offset: u32) -> u32 {
    if offset * 4 > u32::MAX {
        u32::MAX
    } else {
        (offset * 4) as u32
    }
}

/// A register of instance `instance` of a feature whose registers start at `base`: named
/// by the feature's short name, the instance number and the register's name, at the
/// register's word offset from `base` (saturating), read-only where no access is given.
pub open spec fn spec_planned(
    short_name: Seq<char>,
    instance: nat,
    base: u32,
    r: FeatureRegisterDefinition,
) -> PlannedView {
    PlannedView {
        name: short_name + spec_decimal(instance) + "_"@ + r.name@,
        addr: sat_add(base, sat_times4(r.offset)),
        access: match r.access {
            Some(a) => a@,
            None => "ro"@,
        },
        fields: r.fields@,
    }
}

/// The registers one pointer of a feature leads to; none where the device gave fewer
/// pointer words than the pointer's index.
pub open spec fn spec_plan_pointer(
    short_name: Seq<char>,
    instance: nat,
    pd: FeaturePointerDefinition,
    pointers: Seq<u32>,
) -> Seq<PlannedView> {
    if (pd.index as int) < pointers.len() {
        pd.registers@.map_values(
            |r: FeatureRegisterDefinition|
                spec_planned(short_name, instance, pointers[pd.index as int], r),
        )
    } else {
        Seq::empty()
    }
}

/// The registers of a feature instance, pointer by pointer in the definition's order.
pub open spec fn spec_plan(
    short_name: Seq<char>,
    instance: nat,
    pointer_defs: Seq<FeaturePointerDefinition>,
    pointers: Seq<u32>,
) -> Seq<PlannedView>
    decreases pointer_defs.len(),
{
    if pointer_defs.len() == 0 {
        Seq::empty()
    } else {
        spec_plan(short_name, instance, pointer_defs.drop_last(), pointers) + spec_plan_pointer(
            short_name,
            instance,
            pointer_defs.last(),
            pointers,
        )
    }
}

/// The registers to read for instance `instance` of a feature, given the pointer words
/// the device listed for it.
pub fn plan_feature_registers(definition: &FeatureDefinition, instance: usize, pointers: &[u32]) -> (r:
    Vec<PlannedRegister>)
    ensures
        planned_views(r@) == spec_plan(
            definition.short_name@,
            instance as nat,
            definition.pointers@,
            pointers@,
        ),
{
    let ghost short = definition.short_name@;
    let ghost defs = definition.pointers@;
    let mut out: Vec<PlannedRegister> = Vec::new();
    let mut i: usize = 0;
    while i < definition.pointers.len()
        invariant
            short == definition.short_name@,
            defs == definition.pointers@,
            i <= defs.len(),
            planned_views(out@) == spec_plan(short, instance as nat, defs.subrange(0, i as int), pointers@),
        decreases defs.len() - i,
    {
        let pd = &definition.pointers[i];
        let ghost before = planned_views(out@);
        let index = pd.index as usize;
        if index < pointers.len() {
            let base = pointers[index];
            let regs = &pd.registers;
            let mut j: usize = 0;
            while j < regs.len()
                invariant
                    short == definition.short_name@,
                    j <= regs@.len(),
                    (index as int) < pointers@.len(),
                    base == pointers@[index as int],
                    planned_views(out@) == before + regs@.subrange(0, j as int).map_values(
                        |r: FeatureRegisterDefinition| spec_planned(short, instance as nat, base, r),
                    ),
                decreases regs@.len() - j,
            {
                let reg = &regs[j];
                let mut name = owned(definition.short_name.as_str());
                push_decimal(&mut name, instance as u64);
                push_str(&mut name, "_");
                push_str(&mut name, reg.name.as_str());
                let times4 = if reg.offset > u32::MAX / 4 {
                    u32::MAX
                } else {
                    reg.offset * 4
                };
                let addr = base.saturating_add(times4);
                let access = match &reg.access {
                    Some(a) => a.clone(),
                    None => owned("ro"),
                };
                let ghost old_out = out@;
                out.push(PlannedRegister { name, addr, access, fields: reg.fields.copied() });
                proof {
                    assert(planned_views(out@) =~= planned_views(old_out).push(
                        spec_planned(short, instance as nat, base, regs@[j as int]),
                    ));
                    assert(regs@.subrange(0, j + 1).map_values(
                        |r: FeatureRegisterDefinition| spec_planned(short, instance as nat, base, r),
                    ) =~= regs@.subrange(0, j as int).map_values(
                        |r: FeatureRegisterDefinition| spec_planned(short, instance as nat, base, r),
                    ).push(spec_planned(short, instance as nat, base, regs@[j as int])));
                }
                j = j + 1;
            }
            proof {
                assert(regs@.subrange(0, regs@.len() as int) =~= regs@);
            }
        }
        proof {
            let sub = defs.subrange(0, i + 1);
            assert(sub.drop_last() =~= defs.subrange(0, i as int));
            assert(sub.last() == defs[i as int]);
            assert(planned_views(out@) =~= spec_plan(short, instance as nat, sub, pointers@));
        }
        i = i + 1;
    }
    proof {
        assert(defs.subrange(0, defs.len() as int) =~= defs);
    }
    out
}

/// How many times `id` occurs in `s`.
pub open spec fn count_of(s: Seq<u32>, id: u32) -> nat
    decreases s.len(),
{
    if s.len() == 0 {
        0
    } else {
        count_of(s.drop_last(), id) + if s.last() == id {
            1nat
        } else {
            0nat
        }
    }
}

fn occurrences(s: &Vec<u32>, id: u32) -> (r: usize)
    ensures
        r == count_of(s@, id),
{
    let mut n: usize = 0;
    let mut i: usize = 0;
    while i < s.len()
        invariant
            i <= s@.len(),
            n == count_of(s@.subrange(0, i as int), id),
            n <= i,
        decreases s@.len() - i,
    {
        let ghost sub = s@.subrange(0, i + 1);
        assert(sub.drop_last() =~= s@.subrange(0, i as int));
        if s[i] == id {
            n = n + 1;
        }
        i = i + 1;
    }
    assert(s@.subrange(0, s@.len() as int) =~= s@);
    n
}

/// What the walk of a device's feature table reads next.
#[derive(Clone, Copy, Debug, PartialEq, Eq, Structural)]
pub enum WalkStep {
    /// The word of the next feature: its identifier and its number of pointers.
    FeatureWord,
    /// The next pointer word of a feature, `remaining` of them still to read.
    Pointer { feature_word: u32, remaining: u32 },
    /// The value of the next planned register.
    Register,
    /// Nothing: the end of the table was reached.
    Done,
}

/// A read that the walk asks for: a register word, or a register's text.
#[derive(Clone, Copy, Debug, PartialEq, Eq, Structural)]
pub enum RegisterRead {
    Word(u32),
    Text(u32),
}

/// A described register with its texts as sequences and its fields as a map.
pub struct RegisterValueView {
    pub addr: u32,
    pub access: Seq<char>,
    pub int_value: Option<u64>,
    pub str_value: Option<Seq<char>>,
    pub fields: Map<Seq<char>, FeatureFieldDefinition>,
}

/// The view of a described register.
pub open spec fn value_view(v: DeviceRegisterValue) -> RegisterValueView {
    RegisterValueView {
        addr: v.addr,
        access: v.access@,
        int_value: v.int_value,
        str_value: match v.str_value {
            Some(s) => Some(s@),
            None => None,
        },
        fields: v.fields@,
    }
}

/// The views of described registers by name.
pub open spec fn registers_view(m: Map<Seq<char>, DeviceRegisterValue>) -> Map<
    Seq<char>,
    RegisterValueView,
> {
    m.map_values(|v: DeviceRegisterValue| value_view(v))
}

/// The state of a walk of a device's feature table.
pub struct WalkView {
    pub location: DeviceLocation,
    pub capabilities: DeviceCapabilities,
    pub table_addr: u32,
    pub step: WalkStep,
    pub seen: Seq<u32>,
    pub pointers: Seq<u32>,
    pub pending: Seq<PlannedView>,
    pub registers: Map<Seq<char>, RegisterValueView>,
    pub memory_map: DeviceMemoryMap,
}

/// The memory map that the end-of-table entry gives in its pointer words.
pub open spec fn spec_memory_map(pointers: Seq<u32>) -> DeviceMemoryMap {
    DeviceMemoryMap {
        last_static: if pointers.len() > 0 {
            pointers[0]
        } else {
            0
        },
        first_mutable: if pointers.len() > 1 {
            pointers[1]
        } else {
            0
        },
        last_mutable: if pointers.len() > 2 {
            pointers[2]
        } else {
            0
        },
    }
}

/// The message for a feature that the catalog does not define.
pub open spec fn spec_unknown_feature_message(id: u32) -> Seq<char> {
    "device referenced unknown feature id 0x"@ + spec_hex_padded(id as nat, 6)
}

/// The walk after the last pointer word of a feature: the end of the table sets the memory
/// map and ends the walk; any other feature plans the registers of its next instance.
pub open spec fn spec_finish_feature(
    w: WalkView,
    feature_word: u32,
    pointers: Seq<u32>,
    catalog: Map<u32, FeatureDefinition>,
) -> Result<WalkView, Seq<char>> {
    if feature_word >> 20 == 0xfff {
        Ok(WalkView { step: WalkStep::Done, pointers: Seq::empty(), memory_map: spec_memory_map(pointers), ..w })
    } else {
        let id = feature_word >> 8;
        if !catalog.contains_key(id) {
            Err(spec_unknown_feature_message(id))
        } else {
            let def = catalog[id];
            let plan = spec_plan(def.short_name@, count_of(w.seen, id), def.pointers@, pointers);
            Ok(
                WalkView {
                    step: if plan.len() > 0 {
                        WalkStep::Register
                    } else {
                        WalkStep::FeatureWord
                    },
                    seen: w.seen.push(id),
                    pointers: Seq::empty(),
                    pending: plan,
                    ..w
                },
            )
        }
    }
}

/// The walk after the next register of the plan was read.
pub open spec fn spec_after_register(
    w: WalkView,
    int_value: Option<u64>,
    str_value: Option<Seq<char>>,
) -> WalkView {
    let p = w.pending[0];
    let rest = w.pending.drop_first();
    WalkView {
        step: if rest.len() > 0 {
            WalkStep::Register
        } else {
            WalkStep::FeatureWord
        },
        pending: rest,
        registers: w.registers.insert(
            p.name,
            RegisterValueView {
                addr: p.addr,
                access: p.access,
                int_value,
                str_value,
                fields: p.fields,
            },
        ),
        ..w
    }
}

/// The walk after a word was read: a feature word (its low byte the number of pointer
/// words), a pointer word, or a register's value.
pub open spec fn spec_accept_word(
    w: WalkView,
    value: u32,
    catalog: Map<u32, FeatureDefinition>,
) -> Result<WalkView, Seq<char>> {
    match w.step {
        WalkStep::FeatureWord => {
            let next = WalkView { table_addr: (w.table_addr + 4) as u32, ..w };
            if value & 0xff == 0 {
                spec_finish_feature(next, value, Seq::empty(), catalog)
            } else {
                Ok(
                    WalkView {
                        step: WalkStep::Pointer { feature_word: value, remaining: value & 0xff },
                        pointers: Seq::empty(),
                        ..next
                    },
                )
            }
        },
        WalkStep::Pointer { feature_word, remaining } => {
            let next = WalkView { table_addr: (w.table_addr + 4) as u32, ..w };
            let pointers = w.pointers.push(value);
            if remaining > 1 {
                Ok(
                    WalkView {
                        step: WalkStep::Pointer { feature_word, remaining: (remaining - 1) as u32 },
                        pointers,
                        ..next
                    },
                )
            } else {
                spec_finish_feature(next, feature_word, pointers, catalog)
            }
        },
        WalkStep::Register => Ok(spec_after_register(w, Some(value as u64), None)),
        WalkStep::Done => Ok(w),
    }
}

/// The walk of a device's feature table, which builds the device's description from the
/// words it reads: feature words, their pointer words, and the registers they lead to.
#[derive(Debug)]
pub struct IntrospectionWalk {
    location: DeviceLocation,
    capabilities: DeviceCapabilities,
    table_addr: u32,
    step: WalkStep,
    seen: Vec<u32>,
    pointers: Vec<u32>,
    pending: Vec<PlannedRegister>,
    registers: StringMap<DeviceRegisterValue>,
    memory_map: DeviceMemoryMap,
}

impl View for IntrospectionWalk {
    type V = WalkView;

    closed spec fn view(&self) -> WalkView {
        WalkView {
            location: self.location,
            capabilities: self.capabilities,
            table_addr: self.table_addr,
            step: self.step,
            seen: self.seen@,
            pointers: self.pointers@,
            pending: planned_views(self.pending@),
            registers: registers_view(self.registers@),
            memory_map: self.memory_map,
        }
    }
}

/// What holds of a walk between its steps: registers are pending exactly while the walk
/// reads them, and a feature with pointers still to read has at least one.
pub open spec fn walk_wf(w: WalkView) -> bool {
    &&& (w.step == WalkStep::Register) == (w.pending.len() > 0)
    &&& w.step matches WalkStep::Pointer { remaining, .. } ==> remaining > 0
}

/// Whether a walk in the middle of the table can advance to the next table word.
pub open spec fn table_room(w: WalkView) -> bool {
    (w.step is FeatureWord || w.step is Pointer) ==> w.table_addr <= u32::MAX - 4
}

impl IntrospectionWalk {
    /// Starts the walk of a device found at `location`, from its capabilities word: an
    /// error where the word lacks the EEVideo signature.
    pub fn start(location: DeviceLocation, capabilities_word: u32) -> (r: Result<
        IntrospectionWalk,
        ControlError,
    >)
        ensures
            capabilities_word >> 16 != CAPABILITIES_SIGNATURE ==> (r matches Err(e) && error_is(
                e,
                ControlErrorKind::Connection,
                spec_signature_message(capabilities_word),
            )),
            capabilities_word >> 16 == CAPABILITIES_SIGNATURE ==> (r matches Ok(w) && w@ == (
            WalkView {
                location,
                capabilities: spec_capabilities(capabilities_word),
                table_addr: FEATURE_TABLE_ADDR,
                step: WalkStep::FeatureWord,
                seen: Seq::empty(),
                pointers: Seq::empty(),
                pending: Seq::empty(),
                registers: Map::empty(),
                memory_map: DeviceMemoryMap { last_static: 0, first_mutable: 0, last_mutable: 0 },
            })),
            r matches Ok(w) ==> walk_wf(w@),
    {
        let capabilities = match decode_capabilities_word(capabilities_word) {
            Ok(c) => c,
            Err(e) => return Err(e),
        };
        let w = IntrospectionWalk {
            location,
            capabilities,
            table_addr: FEATURE_TABLE_ADDR,
            step: WalkStep::FeatureWord,
            seen: Vec::new(),
            pointers: Vec::new(),
            pending: Vec::new(),
            registers: StringMap::new(),
            memory_map: DeviceMemoryMap { last_static: 0, first_mutable: 0, last_mutable: 0 },
        };
        assert(planned_views(w.pending@) =~= Seq::<PlannedView>::empty());
        assert(registers_view(w.registers@) =~= Map::<Seq<char>, RegisterValueView>::empty());
        Ok(w)
    }

    /// The address of the next table word.
    pub fn table_addr(&self) -> (r: u32)
        ensures
            r == self@.table_addr,
    {
        self.table_addr
    }

    /// What the walk reads next; nothing once the table has ended.
    pub fn next_read(&self) -> (r: Option<RegisterRead>)
        requires
            walk_wf(self@),
        ensures
            match self@.step {
                WalkStep::FeatureWord | WalkStep::Pointer { .. } => r == Some(
                    RegisterRead::Word(self@.table_addr),
                ),
                WalkStep::Register => r == Some(
                    if self@.pending[0].access == "string"@ {
                        RegisterRead::Text(self@.pending[0].addr)
                    } else {
                        RegisterRead::Word(self@.pending[0].addr)
                    },
                ),
                WalkStep::Done => r is None,
            },
    {
        match self.step {
            WalkStep::FeatureWord | WalkStep::Pointer { .. } => Some(
                RegisterRead::Word(self.table_addr),
            ),
            WalkStep::Register => {
                let p = &self.pending[0];
                assert(self@.pending[0] == p@);
                if str_eq(p.access.as_str(), "string") {
                    Some(RegisterRead::Text(p.addr))
                } else {
                    Some(RegisterRead::Word(p.addr))
                }
            },
            WalkStep::Done => None,
        }
    }

    fn finish_feature(
        &mut self,
        feature_word: u32,
        catalog: &BTreeMap<u32, FeatureDefinition>,
    ) -> (r: Result<(), ControlError>)
        requires
            old(self).pending@.len() == 0,
        ensures
            match spec_finish_feature(old(self)@, feature_word, old(self)@.pointers, catalog@) {
                Ok(v) => r is Ok && final(self)@ == v,
                Err(m) => r matches Err(e) && error_is(e, ControlErrorKind::Other, m),
            },
    {
        if feature_word >> 20 == 0xfff {
            let p = &self.pointers;
            let last_static = if p.len() > 0 {
                p[0]
            } else {
                0
            };
            let first_mutable = if p.len() > 1 {
                p[1]
            } else {
                0
            };
            let last_mutable = if p.len() > 2 {
                p[2]
            } else {
                0
            };
            self.memory_map = DeviceMemoryMap { last_static, first_mutable, last_mutable };
            self.pointers = Vec::new();
            self.step = WalkStep::Done;
            return Ok(());
        }
        let id = feature_word >> 8;
        let definition = match catalog.get(&id) {
            Some(d) => d,
            None => {
                let mut m = owned("device referenced unknown feature id 0x");
                push_hex_padded(&mut m, id as u64, 6);
                return Err(ControlError::new(ControlErrorKind::Other, m));
            },
        };
        let instance = occurrences(&self.seen, id);
        let plan = plan_feature_registers(definition, instance, self.pointers.as_slice());
        self.seen.push(id);
        self.pointers = Vec::new();
        self.step = if plan.len() > 0 {
            WalkStep::Register
        } else {
            WalkStep::FeatureWord
        };
        self.pending = plan;
        Ok(())
    }

    fn take_register(&mut self, int_value: Option<u64>, str_value: Option<String>)
        requires
            old(self).pending@.len() > 0,
        ensures
            final(self)@ == spec_after_register(
                old(self)@,
                int_value,
                match str_value {
                    Some(s) => Some(s@),
                    None => None,
                },
            ),
    {
        let ghost old_pending = self.pending@;
        let p = self.pending.remove(0);
        assert(planned_views(self.pending@) =~= planned_views(old_pending).drop_first());
        let ghost old_registers = self.registers@;
        let value = DeviceRegisterValue {
            addr: p.addr,
            access: p.access,
            int_value,
            str_value,
            fields: p.fields,
        };
        self.registers.insert(p.name, value);
        proof {
            assert(registers_view(self.registers@) =~= registers_view(old_registers).insert(
                old_pending[0].name@,
                value_view(value),
            ));
        }
        self.step = if self.pending.len() > 0 {
            WalkStep::Register
        } else {
            WalkStep::FeatureWord
        };
    }

    /// Takes a word that was read: the next feature word, pointer word, or register value.
    /// An error for a feature that the catalog does not define.
    pub fn accept_word(&mut self, value: u32, catalog: &BTreeMap<u32, FeatureDefinition>) -> (r:
        Result<(), ControlError>)
        requires
            walk_wf(old(self)@),
            table_room(old(self)@),
            old(self)@.step == WalkStep::Register ==> old(self)@.pending[0].access != "string"@,
            old(self)@.step != WalkStep::Done,
        ensures
            match spec_accept_word(old(self)@, value, catalog@) {
                Ok(v) => r is Ok && final(self)@ == v && walk_wf(v),
                Err(m) => r matches Err(e) && error_is(e, ControlErrorKind::Other, m),
            },
    {
        match self.step {
            WalkStep::FeatureWord => {
                self.table_addr = self.table_addr + 4;
                let count = value & 0xff;
                if count == 0 {
                    self.pointers = Vec::new();
                    assert(self.pointers@ =~= Seq::<u32>::empty());
                    self.finish_feature(value, catalog)
                } else {
                    self.pointers = Vec::new();
                    self.step = WalkStep::Pointer { feature_word: value, remaining: count };
                    assert(self@.pointers =~= Seq::<u32>::empty());
                    Ok(())
                }
            },
            WalkStep::Pointer { feature_word, remaining } => {
                self.table_addr = self.table_addr + 4;
                self.pointers.push(value);
                if remaining > 1 {
                    self.step = WalkStep::Pointer { feature_word, remaining: remaining - 1 };
                    Ok(())
                } else {
                    self.finish_feature(feature_word, catalog)
                }
            },
            WalkStep::Register => {
                self.take_register(Some(value as u64), None);
                Ok(())
            },
            WalkStep::Done => Ok(()),
        }
    }

    /// Takes the text of the next planned register, one whose access is `string`.
    pub fn accept_text(&mut self, text: String)
        requires
            walk_wf(old(self)@),
            old(self)@.step == WalkStep::Register,
            old(self)@.pending[0].access == "string"@,
        ensures
            final(self)@ == spec_after_register(old(self)@, None, Some(text@)),
            walk_wf(final(self)@),
    {
        self.take_register(None, Some(text));
    }

    /// The description the walk built, once the table has ended.
    pub fn finish(self) -> (r: DeviceConfig)
        requires
            self@.step == WalkStep::Done,
        ensures
            r.location == self@.location,
            r.capabilities == self@.capabilities,
            r.memory_map == self@.memory_map,
            registers_view(r.registers@) == self@.registers,
    {
        DeviceConfig {
            location: self.location,
            capabilities: self.capabilities,
            memory_map: self.memory_map,
            registers: self.registers,
        }
    }
}

} // verus!
