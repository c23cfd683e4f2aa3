//! The vocabulary in which an instruction set is described: settings and
//! predicates over them, register banks and classes, CPU modes and what they
//! do with instructions that have no encoding.

use vstd::prelude::*;
use crate::abi::align_up;
use crate::registers::{RegBank, RegClass};
use crate::text::str_eq;
use crate::types::Type;

verus! {

/// A boolean setting: its name, what it is for, and its default.
#[derive(Clone, Copy, Debug)]
pub struct BoolSetting {
    pub name: &'static str,
    pub comment: &'static str,
    pub default: bool,
}

/// A condition on the boolean settings of a group.
#[derive(Debug)]
pub enum PredicateNode {
    /// The setting with the given number is on.
    Setting(usize),
    /// Both conditions hold.
    And(Box<PredicateNode>, Box<PredicateNode>),
}

impl PredicateNode {
    /// Whether the condition holds of the given values of the settings. A
    /// setting that has no value counts as off.
    pub open spec fn holds(self, values: Seq<bool>) -> bool
        decreases self,
    {
        match self {
            PredicateNode::Setting(number) => number < values.len() && values[number as int],
            PredicateNode::And(left, right) => left.holds(values) && right.holds(values),
        }
    }

    /// Whether the condition speaks of settings under `count` only.
    pub open spec fn below(self, count: int) -> bool
        decreases self,
    {
        match self {
            PredicateNode::Setting(number) => number < count,
            PredicateNode::And(left, right) => left.below(count) && right.below(count),
        }
    }

    /// Whether the condition holds of the given values of the settings.
    pub fn eval(&self, values: &Vec<bool>) -> (r: bool)
        ensures
            r == self.holds(values@),
        decreases self,
    {
        match self {
            PredicateNode::Setting(number) => *number < values.len() && values[*number],
            PredicateNode::And(left, right) => left.eval(values) && right.eval(values),
        }
    }
}

/// A named condition on the settings of a group.
#[derive(Debug)]
pub struct Predicate {
    pub name: &'static str,
    pub node: PredicateNode,
}

/// A group of settings with the predicates computed from them.
#[derive(Debug)]
pub struct SettingGroup {
    pub name: &'static str,
    pub settings: Vec<BoolSetting>,
    pub predicates: Vec<Predicate>,
}

impl SettingGroup {
    /// Every predicate speaks of settings of the group.
    pub open spec fn wf(self) -> bool {
        forall|i: int|
            0 <= i < self.predicates@.len() ==> (#[trigger] self.predicates@[i]).node.below(
                self.settings@.len() as int,
            )
    }
}

/// Collects the settings and predicates of a group.
#[derive(Debug)]
pub struct SettingGroupBuilder {
    pub group: SettingGroup,
}

impl SettingGroupBuilder {
    /// A builder of the group `name`, with nothing in it.
    pub fn new(name: &'static str) -> (r: SettingGroupBuilder)
        ensures
            r.group.name == name,
            r.group.settings@.len() == 0,
            r.group.predicates@.len() == 0,
            r.group.wf(),
    {
        SettingGroupBuilder {
            group: SettingGroup { name, settings: Vec::new(), predicates: Vec::new() },
        }
    }

    /// Adds a boolean setting and gives its number.
    pub fn add_bool(&mut self, name: &'static str, comment: &'static str, default: bool) -> (r:
        usize)
        requires
            old(self).group.wf(),
        ensures
            r == old(self).group.settings@.len(),
            final(self).group.settings@ == old(self).group.settings@.push(
                (BoolSetting { name, comment, default }),
            ),
            final(self).group.predicates == old(self).group.predicates,
            final(self).group.name == old(self).group.name,
            final(self).group.wf(),
    {
        let number = self.group.settings.len();
        self.group.settings.push(BoolSetting { name, comment, default });
        proof {
            assert forall|i: int| 0 <= i < self.group.predicates@.len() implies (
            #[trigger] self.group.predicates@[i]).node.below(
                self.group.settings@.len() as int,
            ) by {
                lemma_below_more(self.group.predicates@[i].node, number as int, number + 1);
            }
        }
        number
    }

    /// Adds a predicate over the settings that the group has so far.
    pub fn add_predicate(&mut self, name: &'static str, node: PredicateNode)
        requires
            old(self).group.wf(),
            node.below(old(self).group.settings@.len() as int),
        ensures
            final(self).group.predicates@ == old(self).group.predicates@.push(
                (Predicate { name, node }),
            ),
            final(self).group.settings == old(self).group.settings,
            final(self).group.name == old(self).group.name,
            final(self).group.wf(),
    {
        self.group.predicates.push(Predicate { name, node });
    }

    /// The group that was collected.
    pub fn finish(self) -> (r: SettingGroup)
        ensures
            r == self.group,
    {
        self.group
    }
}

/// A condition on settings under a count is one on settings under any
/// greater count.
pub proof fn lemma_below_more(node: PredicateNode, count: int, more: int)
    requires
        node.below(count),
        count <= more,
    ensures
        node.below(more),
    decreases node,
{
    match node {
        PredicateNode::Setting(_) => {},
        PredicateNode::And(left, right) => {
            lemma_below_more(*left, count, more);
            lemma_below_more(*right, count, more);
        },
    }
}

/// Collects what a register bank is made of.
#[derive(Debug)]
pub struct RegBankBuilder {
    pub name: &'static str,
    pub units: u16,
    pub names: Vec<&'static str>,
    pub prefix: &'static str,
    pub pressure_tracking: Option<bool>,
}

impl RegBankBuilder {
    /// A builder of the bank `name`, whose units are named by `prefix` and
    /// their number. It has no units yet.
    pub fn new(name: &'static str, prefix: &'static str) -> (r: RegBankBuilder)
        ensures
            r.name == name,
            r.prefix == prefix,
            r.units == 0,
            r.names@.len() == 0,
            r.pressure_tracking is None,
    {
        RegBankBuilder { name, units: 0, names: Vec::new(), prefix, pressure_tracking: None }
    }

    /// The same with `units` units.
    pub fn units(self, units: u16) -> (r: RegBankBuilder)
        ensures
            r == (RegBankBuilder { units, ..self }),
    {
        RegBankBuilder { units, ..self }
    }

    /// The same with names of their own for the first units.
    pub fn names(self, names: Vec<&'static str>) -> (r: RegBankBuilder)
        ensures
            r == (RegBankBuilder { names, ..self }),
    {
        RegBankBuilder { names, ..self }
    }

    /// The same with register pressure tracked or not.
    pub fn track_pressure(self, track: bool) -> (r: RegBankBuilder)
        ensures
            r == (RegBankBuilder { pressure_tracking: Some(track), ..self }),
    {
        RegBankBuilder { pressure_tracking: Some(track), ..self }
    }
}

/// Collects what a register class is made of.
#[derive(Clone, Copy, Debug)]
pub struct RegClassBuilder {
    pub name: &'static str,
    pub bank: usize,
}

impl RegClassBuilder {
    /// A builder of the class `name` that holds all the units of a bank.
    pub fn new_toplevel(name: &'static str, bank: usize) -> (r: RegClassBuilder)
        ensures
            r.name == name,
            r.bank == bank,
    {
        RegClassBuilder { name, bank }
    }
}

/// The banks and classes of an instruction set.
#[derive(Debug)]
pub struct IsaRegs {
    pub banks: Vec<RegBank>,
    pub classes: Vec<RegClass>,
}

/// Collects the banks and classes of an instruction set.
#[derive(Debug)]
pub struct IsaRegsBuilder {
    pub banks: Vec<RegBank>,
    pub classes: Vec<RegClass>,
}

/// Whether `n` is a power of two.
pub open spec fn is_power_of_two(n: int) -> bool {
    n == 1 || n == 2 || n == 4 || n == 8 || n == 16 || n == 32 || n == 64 || n == 128 || n == 256
        || n == 512 || n == 1024 || n == 2048 || n == 4096 || n == 8192 || n == 16384 || n
        == 32768
}

/// The least power of two that is not below `n`.
pub open spec fn next_power_of_two(n: int) -> int
    recommends
        n <= 32768,
{
    if n <= 1 {
        1
    } else if n <= 2 {
        2
    } else if n <= 4 {
        4
    } else if n <= 8 {
        8
    } else if n <= 16 {
        16
    } else if n <= 32 {
        32
    } else if n <= 64 {
        64
    } else if n <= 128 {
        128
    } else if n <= 256 {
        256
    } else if n <= 512 {
        512
    } else if n <= 1024 {
        1024
    } else if n <= 2048 {
        2048
    } else if n <= 4096 {
        4096
    } else if n <= 8192 {
        8192
    } else if n <= 16384 {
        16384
    } else {
        32768
    }
}

/// The first unit of a bank of `units` units that comes behind `banks`: the
/// first free unit, rounded up to a multiple of the bank's size where that
/// is a power of two, of the next power of two where it is not.
pub open spec fn first_unit_behind(banks: Seq<RegBank>, units: u16) -> int {
    if banks.len() == 0 {
        0
    } else {
        align_up(
            banks.last().first_unit + banks.last().units,
            next_power_of_two(units as int),
        )
    }
}

/// The least power of two that is not below `n`.
fn round_to_power_of_two(n: u16) -> (r: u32)
    requires
        n <= 32768,
    ensures
        r == next_power_of_two(n as int),
        r >= 1,
{
    let mut r: u32 = 1;
    while r < n as u32
        invariant
            is_power_of_two(r as int),
            n <= 32768,
            r <= next_power_of_two(n as int),
        decreases 65536 - r,
    {
        r = r * 2;
    }
    r
}

impl IsaRegsBuilder {
    /// A builder without banks and classes.
    pub fn new() -> (r: IsaRegsBuilder)
        ensures
            r.banks@.len() == 0,
            r.classes@.len() == 0,
    {
        IsaRegsBuilder { banks: Vec::new(), classes: Vec::new() }
    }

    /// Adds a bank behind those that are there and gives its number. Its
    /// units begin at the first free unit that suits its size.
    pub fn add_bank(&mut self, builder: RegBankBuilder) -> (r: usize)
        requires
            builder.pressure_tracking is Some,
            builder.units <= 32768,
            first_unit_behind(old(self).banks@, builder.units) + builder.units <= u16::MAX,
        ensures
            r == old(self).banks@.len(),
            final(self).classes == old(self).classes,
            final(self).banks@.len() == old(self).banks@.len() + 1,
            final(self).banks@.drop_last() == old(self).banks@,
            final(self).banks@.last() == (RegBank {
                name: builder.name,
                first_unit: first_unit_behind(old(self).banks@, builder.units) as u16,
                units: builder.units,
                names: builder.names,
                prefix: builder.prefix,
                pressure_tracking: builder.pressure_tracking.unwrap(),
            }),
    {
        let number = self.banks.len();
        let first_unit: u16 = if number == 0 {
            0
        } else {
            let last = &self.banks[number - 1];
            let first_available: u32 = last.first_unit as u32 + last.units as u32;
            let align = round_to_power_of_two(builder.units);
            (((first_available + align - 1) / align) * align) as u16
        };
        let tracking = match builder.pressure_tracking {
            Some(track) => track,
            None => false,
        };
        self.banks.push(
            RegBank {
                name: builder.name,
                first_unit,
                units: builder.units,
                names: builder.names,
                prefix: builder.prefix,
                pressure_tracking: tracking,
            },
        );
        assert(self.banks@.drop_last() =~= old(self).banks@);
        number
    }

    /// Adds a class that holds all the units of one of the banks, and gives
    /// its number.
    pub fn add_class(&mut self, builder: RegClassBuilder) -> (r: usize)
        requires
            builder.bank < old(self).banks@.len(),
            builder.bank <= u8::MAX,
            old(self).classes@.len() < u8::MAX,
        ensures
            r == old(self).classes@.len(),
            final(self).banks == old(self).banks,
            final(self).classes@ == old(self).classes@.push(
                (RegClass {
                    name: builder.name,
                    index: old(self).classes@.len() as u8,
                    bank: builder.bank as u8,
                    first: old(self).banks@[builder.bank as int].first_unit,
                    count: old(self).banks@[builder.bank as int].units,
                }),
            ),
    {
        let number = self.classes.len();
        let bank = &self.banks[builder.bank];
        self.classes.push(
            RegClass {
                name: builder.name,
                index: number as u8,
                bank: builder.bank as u8,
                first: bank.first_unit,
                count: bank.units,
            },
        );
        number
    }

    /// The banks and classes that were collected.
    pub fn finish(self) -> (r: IsaRegs)
        ensures
            r.banks == self.banks,
            r.classes == self.classes,
    {
        IsaRegs { banks: self.banks, classes: self.classes }
    }
}

/// A group of instructions.
#[derive(Clone, Copy, Debug)]
pub struct InstructionGroup {
    pub name: &'static str,
    pub doc: &'static str,
}

impl InstructionGroup {
    /// The group `name`, with nothing in it.
    pub fn new(name: &'static str, doc: &'static str) -> (r: InstructionGroup)
        ensures
            r.name == name,
            r.doc == doc,
    {
        InstructionGroup { name, doc }
    }
}

/// A named way of rewriting instructions that have no encoding.
#[derive(Clone, Copy, Debug)]
pub struct TransformGroup {
    pub name: &'static str,
}

/// The ways of rewriting that are known, by number.
#[derive(Debug)]
pub struct TransformGroups {
    pub groups: Vec<TransformGroup>,
}

/// The first position from `from` on of the group `name`.
pub open spec fn group_from(groups: Seq<TransformGroup>, name: Seq<char>, from: int) -> Option<int>
    decreases groups.len() - from,
{
    if from < 0 || from >= groups.len() {
        None
    } else if groups[from].name@ == name {
        Some(from)
    } else {
        group_from(groups, name, from + 1)
    }
}

impl TransformGroups {
    /// The number of the group `name`, which must be known.
    pub fn by_name(&self, name: &str) -> (r: usize)
        requires
            group_from(self.groups@, name@, 0) is Some,
        ensures
            group_from(self.groups@, name@, 0) == Some(r as int),
            r < self.groups@.len(),
    {
        let mut i: usize = 0;
        while i < self.groups.len()
            invariant
                i <= self.groups@.len(),
                group_from(self.groups@, name@, 0) is Some,
                group_from(self.groups@, name@, 0) == group_from(self.groups@, name@, i as int),
            decreases self.groups@.len() - i,
        {
            if str_eq(self.groups[i].name, name) {
                return i;
            }
            i += 1;
        }
        i
    }
}

/// What a controlling type has to do with instructions without encoding.
#[derive(Clone, Copy, Debug, PartialEq, Eq, Structural)]
pub struct TypedLegalize {
    pub ty: Type,
    pub group: usize,
}

/// A mode of operation of the CPU, and the ways in which it rewrites
/// instructions that have no encoding: one for instructions without a
/// controlling type, one for each type that was given one, and a default
/// for the other types.
#[derive(Debug)]
pub struct CpuMode {
    pub name: &'static str,
    pub default_legalize: Option<usize>,
    pub monomorphic_legalize: Option<usize>,
    pub typed_legalize: Vec<TypedLegalize>,
}

/// The group that the first entry from `from` on gives to the type `ty`.
pub open spec fn typed_from(typed: Seq<TypedLegalize>, ty: Type, from: int) -> Option<usize>
    decreases typed.len() - from,
{
    if from < 0 || from >= typed.len() {
        None
    } else if typed[from].ty == ty {
        Some(typed[from].group)
    } else {
        typed_from(typed, ty, from + 1)
    }
}

impl CpuMode {
    /// The way in which instructions of a controlling type are rewritten:
    /// that of the type or, where it was given none, the default.
    pub open spec fn legalize_for(self, ty: Type) -> Option<usize> {
        match typed_from(self.typed_legalize@, ty, 0) {
            Some(group) => Some(group),
            None => self.default_legalize,
        }
    }

    /// The mode `name`, which rewrites nothing yet.
    pub fn new(name: &'static str) -> (r: CpuMode)
        ensures
            r.name == name,
            r.default_legalize is None,
            r.monomorphic_legalize is None,
            r.typed_legalize@.len() == 0,
    {
        CpuMode {
            name,
            default_legalize: None,
            monomorphic_legalize: None,
            typed_legalize: Vec::new(),
        }
    }

    /// Sets the way in which instructions without a controlling type are
    /// rewritten. It must not have been set before.
    pub fn legalize_monomorphic(&mut self, group: usize)
        requires
            old(self).monomorphic_legalize is None,
        ensures
            *final(self) == (CpuMode { monomorphic_legalize: Some(group), ..*old(self) }),
    {
        self.monomorphic_legalize = Some(group);
    }

    /// Sets the way in which instructions of the types that were given none
    /// are rewritten. It must not have been set before.
    pub fn legalize_default(&mut self, group: usize)
        requires
            old(self).default_legalize is None,
        ensures
            *final(self) == (CpuMode { default_legalize: Some(group), ..*old(self) }),
    {
        self.default_legalize = Some(group);
    }

    /// Sets the way in which instructions of the type `ty` are rewritten. The
    /// type must not have been given one before.
    pub fn legalize_type(&mut self, ty: Type, group: usize)
        requires
            typed_from(old(self).typed_legalize@, ty, 0) is None,
        ensures
            final(self).name == old(self).name,
            final(self).default_legalize == old(self).default_legalize,
            final(self).monomorphic_legalize == old(self).monomorphic_legalize,
            final(self).typed_legalize@ == old(self).typed_legalize@.push(
                (TypedLegalize { ty, group }),
            ),
            forall|other: Type|
                #[trigger] typed_from(final(self).typed_legalize@, other, 0) == if other == ty {
                    Some(group)
                } else {
                    typed_from(old(self).typed_legalize@, other, 0)
                },
    {
        self.typed_legalize.push(TypedLegalize { ty, group });
        proof {
            assert forall|other: Type|
                #[trigger] typed_from(self.typed_legalize@, other, 0) == if other == ty {
                    Some(group)
                } else {
                    typed_from(old(self).typed_legalize@, other, 0)
                } by {
                lemma_typed_push(old(self).typed_legalize@, TypedLegalize { ty, group }, other, 0);
            }
        }
    }
}

/// What an entry added behind the others changes: a type that had no entry
/// has the new one, if it is for that type; every other type keeps what it
/// had.
pub proof fn lemma_typed_push(typed: Seq<TypedLegalize>, entry: TypedLegalize, ty: Type, from: int)
    requires
        0 <= from <= typed.len(),
    ensures
        typed_from(typed.push(entry), ty, from) == match typed_from(typed, ty, from) {
            Some(group) => Some(group),
            None => if entry.ty == ty {
                Some(entry.group)
            } else {
                None
            },
        },
    decreases typed.len() - from,
{
    let longer = typed.push(entry);
    if from < typed.len() {
        assert(longer[from] == typed[from]);
        lemma_typed_push(typed, entry, ty, from + 1);
    } else {
        assert(longer[from] == entry);
        assert(typed_from(longer, ty, from + 1) is None);
    }
}

/// The description of an instruction set.
#[derive(Debug)]
pub struct TargetIsa {
    pub name: &'static str,
    pub instructions: InstructionGroup,
    pub settings: SettingGroup,
    pub regs: IsaRegs,
    pub cpu_modes: Vec<CpuMode>,
}

impl TargetIsa {
    /// The description made of the given parts.
    pub fn new(
        name: &'static str,
        instructions: InstructionGroup,
        settings: SettingGroup,
        regs: IsaRegs,
        cpu_modes: Vec<CpuMode>,
    ) -> (r: TargetIsa)
        ensures
            r.name == name,
            r.instructions == instructions,
            r.settings == settings,
            r.regs == regs,
            r.cpu_modes == cpu_modes,
    {
        TargetIsa { name, instructions, settings, regs, cpu_modes }
    }
}

/// What the descriptions of all instruction sets share.
#[derive(Debug)]
pub struct SharedDefinitions {
    pub settings: SettingGroup,
    pub transform_groups: TransformGroups,
}

} // verus!
