//! Register units, banks and classes, and the MIPS register file.

use vstd::prelude::*;
use vstd::string::*;
use crate::meta::define_registers;
use crate::text::{
    all_digits, append_decimal, decimal, digit_value, has_prefix, lemma_parse_decimal_round_trip,
    parse_decimal, parse_u16, starts_with, str_eq,
};

verus! {

/// An index into the architecture-wide numbering of register units.
pub type RegUnit = u16;

/// The number of register units that any set or bank may speak of.
pub const MAX_UNITS: u16 = 96;

/// A named set of consecutive register units of one bank.
#[derive(Clone, Copy, Debug)]
pub struct RegClass {
    pub name: &'static str,
    /// Position of the class in the register file's list of classes.
    pub index: u8,
    /// Position of its bank in the register file's list of banks.
    pub bank: u8,
    /// The first unit of the class.
    pub first: RegUnit,
    /// How many units the class holds.
    pub count: u16,
}

impl RegClass {
    /// The unit at `offset` from the start of the class, whether or not the
    /// class reaches that far.
    pub open spec fn spec_unit(self, offset: int) -> int {
        self.first as int + offset
    }

    /// Whether `unit` is one of the units of the class.
    pub open spec fn spec_contains(self, unit: RegUnit) -> bool {
        self.first as int <= unit as int && (unit as int) < self.first as int + self.count as int
    }

    /// The unit at `offset` from the start of the class.
    pub fn unit(&self, offset: usize) -> (r: RegUnit)
        requires
            self.spec_unit(offset as int) <= u16::MAX,
        ensures
            r as int == self.spec_unit(offset as int),
    {
        self.first + offset as u16
    }

    /// Whether `unit` is one of the units of the class.
    pub fn contains(&self, unit: RegUnit) -> (r: bool)
        ensures
            r == self.spec_contains(unit),
    {
        self.first <= unit && unit - self.first < self.count
    }
}

/// The general-purpose registers: units 0 to 31.
pub open spec fn gpr_class() -> RegClass {
    RegClass { name: "GPR", index: 0, bank: 0, first: 0, count: 32 }
}

/// The floating-point registers: units 32 to 63.
pub open spec fn fpr_class() -> RegClass {
    RegClass { name: "FPR", index: 1, bank: 1, first: 32, count: 32 }
}

/// The multiply/divide result registers `hi` and `lo`: units 64 and 65.
pub open spec fn hilo_class() -> RegClass {
    RegClass { name: "HILO", index: 2, bank: 2, first: 64, count: 2 }
}

/// The class of the general-purpose registers.
pub fn gpr() -> (r: RegClass)
    ensures
        r == gpr_class(),
{
    RegClass { name: "GPR", index: 0, bank: 0, first: 0, count: 32 }
}

/// The class of the floating-point registers.
pub fn fpr() -> (r: RegClass)
    ensures
        r == fpr_class(),
{
    RegClass { name: "FPR", index: 1, bank: 1, first: 32, count: 32 }
}

/// The class of the `hi` and `lo` registers.
pub fn hilo() -> (r: RegClass)
    ensures
        r == hilo_class(),
{
    RegClass { name: "HILO", index: 2, bank: 2, first: 64, count: 2 }
}

/// A bank of registers: consecutive units of one kind, and how they are
/// named. The first units carry the names of the list; the others are named by
/// the prefix followed by their offset in the bank.
#[derive(Clone, Debug)]
pub struct RegBank {
    pub name: &'static str,
    /// The first unit of the bank.
    pub first_unit: RegUnit,
    /// How many units the bank holds.
    pub units: u16,
    /// The names of the first units.
    pub names: Vec<&'static str>,
    /// What the names of the other units begin with.
    pub prefix: &'static str,
    /// Whether register pressure is tracked for the bank.
    pub pressure_tracking: bool,
}

/// What a bank is to the naming of registers.
pub struct BankModel {
    pub first_unit: RegUnit,
    pub units: u16,
    pub names: Seq<Seq<char>>,
    pub prefix: Seq<char>,
}

impl View for RegBank {
    type V = BankModel;

    open spec fn view(&self) -> BankModel {
        BankModel {
            first_unit: self.first_unit,
            units: self.units,
            names: self.names@.map_values(|s: &'static str| s@),
            prefix: self.prefix@,
        }
    }
}

/// The first position from `from` on at which `names` holds `name`.
pub open spec fn position_from(names: Seq<Seq<char>>, name: Seq<char>, from: int) -> Option<int>
    decreases names.len() - from,
{
    if from < 0 || from >= names.len() {
        None
    } else if names[from] == name {
        Some(from)
    } else {
        position_from(names, name, from + 1)
    }
}

impl BankModel {
    /// The units of the bank can be numbered, and none of its names is left
    /// without a unit.
    pub open spec fn wf(self) -> bool {
        self.first_unit + self.units <= u16::MAX && self.names.len() <= self.units
    }

    /// Whether `unit` is one of the units of the bank.
    pub open spec fn contains(self, unit: RegUnit) -> bool {
        self.first_unit <= unit && unit < self.first_unit + self.units
    }

    /// The name of the unit at `offset` in the bank.
    pub open spec fn label(self, offset: int) -> Seq<char> {
        if 0 <= offset < self.names.len() {
            self.names[offset]
        } else {
            self.prefix + decimal(offset as nat)
        }
    }

    /// The offset in the bank that `name` stands for: the position of the
    /// name in the list of names or, for a name that is not in the list, the
    /// number that follows the prefix.
    pub open spec fn offset_of(self, name: Seq<char>) -> Option<int> {
        match position_from(self.names, name, 0) {
            Some(at) => Some(at),
            None => if has_prefix(name, self.prefix) {
                match parse_u16(name.skip(self.prefix.len() as int)) {
                    Some(number) => Some(number as int),
                    None => None,
                }
            } else {
                None
            },
        }
    }

    /// The unit of the bank that `name` stands for.
    pub open spec fn parse(self, name: Seq<char>) -> Option<RegUnit> {
        match self.offset_of(name) {
            Some(offset) => if offset < self.units {
                Some((offset + self.first_unit) as u16)
            } else {
                None
            },
            None => None,
        }
    }
}

/// The unit that `name` stands for in the first bank, from `from` on, in
/// which it stands for one.
pub open spec fn parse_from(banks: Seq<BankModel>, name: Seq<char>, from: int) -> Option<RegUnit>
    decreases banks.len() - from,
{
    if from < 0 || from >= banks.len() {
        None
    } else if banks[from].parse(name) is Some {
        banks[from].parse(name)
    } else {
        parse_from(banks, name, from + 1)
    }
}

/// The first bank, from `from` on, that holds `unit`.
pub open spec fn bank_from(banks: Seq<BankModel>, unit: RegUnit, from: int) -> Option<int>
    decreases banks.len() - from,
{
    if from < 0 || from >= banks.len() {
        None
    } else if banks[from].contains(unit) {
        Some(from)
    } else {
        bank_from(banks, unit, from + 1)
    }
}

/// The name of a unit: that which its bank gives it, or `INVALID` and the
/// unit's number where no bank holds it.
pub open spec fn unit_label(banks: Seq<BankModel>, unit: RegUnit) -> Seq<char> {
    match bank_from(banks, unit, 0) {
        Some(at) => banks[at].label(unit - banks[at].first_unit),
        None => seq!['I', 'N', 'V', 'A', 'L', 'I', 'D'] + decimal(unit as nat),
    }
}

/// How a unit is shown: a percent sign and its name.
pub open spec fn unit_display(banks: Seq<BankModel>, unit: RegUnit) -> Seq<char> {
    seq!['%'] + unit_label(banks, unit)
}

impl RegBank {
    /// Whether `unit` is one of the units of the bank.
    pub fn contains(&self, unit: RegUnit) -> (r: bool)
        ensures
            r == self@.contains(unit),
    {
        self.first_unit <= unit && unit - self.first_unit < self.units
    }

    /// The position of `name` in the list of names.
    fn position(&self, name: &str) -> (r: Option<usize>)
        ensures
            r matches Some(at) ==> position_from(self@.names, name@, 0) == Some(at as int) && at
                < self@.names.len(),
            r is None ==> position_from(self@.names, name@, 0) is None,
    {
        let mut i: usize = 0;
        while i < self.names.len()
            invariant
                i <= self.names@.len(),
                position_from(self@.names, name@, 0) == position_from(self@.names, name@, i as int),
            decreases self.names@.len() - i,
        {
            if str_eq(self.names[i], name) {
                return Some(i);
            }
            i += 1;
        }
        None
    }

    /// The unit of the bank that `name` stands for.
    pub fn parse_regunit(&self, name: &str) -> (r: Option<RegUnit>)
        requires
            self@.wf(),
        ensures
            r == self@.parse(name@),
    {
        let offset: Option<u16> = match self.position(name) {
            Some(at) => Some(at as u16),
            None => {
                // Try a regular prefixed name.
                if starts_with(name, self.prefix) {
                    parse_decimal(name, self.prefix.unicode_len())
                } else {
                    None
                }
            },
        };
        match offset {
            Some(offset) => if offset < self.units {
                Some(offset + self.first_unit)
            } else {
                None
            },
            None => None,
        }
    }

    /// Appends to `out` how `unit`, one of the bank, is shown.
    pub fn write_regunit(&self, out: &mut String, unit: RegUnit)
        requires
            self@.contains(unit),
        ensures
            final(out)@ == old(out)@ + seq!['%'] + self@.label(unit - self.first_unit),
    {
        let offset = unit - self.first_unit;
        proof {
            reveal_strlit("%");
        }
        out.append("%");
        assert(out@ =~= old(out)@ + seq!['%']);
        if (offset as usize) < self.names.len() {
            out.append(self.names[offset as usize]);
        } else {
            out.append(self.prefix);
            append_decimal(out, offset);
            assert(final(out)@ =~= old(out)@ + seq!['%'] + (self.prefix@ + decimal(offset as nat)));
        }
    }
}

/// The register file of an architecture: its banks and its classes.
#[derive(Clone, Debug)]
pub struct RegInfo {
    pub banks: Vec<RegBank>,
    pub classes: Vec<RegClass>,
}

impl View for RegInfo {
    type V = Seq<BankModel>;

    /// The banks, as the naming of registers sees them.
    open spec fn view(&self) -> Seq<BankModel> {
        self.banks@.map_values(|b: RegBank| b@)
    }
}

/// Whether every bank is well formed.
pub open spec fn banks_wf(banks: Seq<BankModel>) -> bool {
    forall|i: int| 0 <= i < banks.len() ==> (#[trigger] banks[i]).wf()
}

impl RegInfo {
    /// The first bank that holds `unit`.
    pub fn bank_containing_regunit(&self, unit: RegUnit) -> (r: Option<usize>)
        ensures
            r matches Some(at) ==> bank_from(self@, unit, 0) == Some(at as int) && at
                < self.banks@.len() && self@[at as int].contains(unit),
            r is None ==> bank_from(self@, unit, 0) is None,
    {
        let mut i: usize = 0;
        while i < self.banks.len()
            invariant
                i <= self.banks@.len(),
                bank_from(self@, unit, 0) == bank_from(self@, unit, i as int),
            decreases self.banks@.len() - i,
        {
            if self.banks[i].contains(unit) {
                return Some(i);
            }
            i += 1;
        }
        None
    }

    /// The unit that `name` stands for: that of the first bank in which it
    /// stands for one.
    pub fn parse_regunit(&self, name: &str) -> (r: Option<RegUnit>)
        requires
            banks_wf(self@),
        ensures
            r == parse_from(self@, name@, 0),
    {
        let mut i: usize = 0;
        while i < self.banks.len()
            invariant
                i <= self.banks@.len(),
                banks_wf(self@),
                parse_from(self@, name@, 0) == parse_from(self@, name@, i as int),
            decreases self.banks@.len() - i,
        {
            assert(self@[i as int].wf());
            let found = self.banks[i].parse_regunit(name);
            if found.is_some() {
                return found;
            }
            i += 1;
        }
        None
    }

    /// How `unit` is shown: a percent sign and its name, or `%INVALID` and
    /// its number where no bank holds it.
    pub fn display_regunit(&self, unit: RegUnit) -> (r: String)
        ensures
            r@ == unit_display(self@, unit),
    {
        let mut out = String::new();
        match self.bank_containing_regunit(unit) {
            Some(at) => {
                self.banks[at].write_regunit(&mut out, unit);
                assert(out@ =~= unit_display(self@, unit));
            },
            None => {
                proof {
                    reveal_strlit("%INVALID");
                }
                out.append("%INVALID");
                append_decimal(&mut out, unit);
                assert(out@ =~= unit_display(self@, unit));
            },
        }
        out
    }
}

/// The names of the general-purpose registers, by number.
pub open spec fn gpr_names() -> Seq<Seq<char>> {
    seq![
        "zero"@,
        "at"@,
        "v0"@,
        "v1"@,
        "a0"@,
        "a1"@,
        "a2"@,
        "a3"@,
        "a4"@,
        "a5"@,
        "a6"@,
        "a7"@,
        "t4"@,
        "t5"@,
        "t6"@,
        "t7"@,
        "s0"@,
        "s1"@,
        "s2"@,
        "s3"@,
        "s4"@,
        "s5"@,
        "s6"@,
        "s7"@,
        "t8"@,
        "t9"@,
        "k0"@,
        "k1"@,
        "gp"@,
        "sp"@,
        "s8"@,
        "ra"@,
    ]
}

/// The banks of MIPS: 32 general-purpose registers with names of their own,
/// 32 floating-point registers `f0` to `f31`, and `hi` and `lo`.
pub open spec fn mips_banks() -> Seq<BankModel> {
    seq![
        BankModel { first_unit: 0, units: 32, names: gpr_names(), prefix: Seq::empty() },
        BankModel { first_unit: 32, units: 32, names: Seq::empty(), prefix: seq!['f'] },
        BankModel { first_unit: 64, units: 2, names: seq!["hi"@, "lo"@], prefix: Seq::empty() },
    ]
}

/// The register file of MIPS, made from its description.
pub fn info() -> (r: RegInfo)
    ensures
        r@ == mips_banks(),
        banks_wf(r@),
        r.banks@[0].name@ == "IntRegs"@,
        r.banks@[1].name@ == "FloatRegs"@,
        r.banks@[2].name@ == "HiLoRegs"@,
        r.banks@[0].pressure_tracking,
        r.banks@[1].pressure_tracking,
        !r.banks@[2].pressure_tracking,
        r.classes@ == seq![gpr_class(), fpr_class(), hilo_class()],
{
    let regs = define_registers();
    let r = RegInfo { banks: regs.banks, classes: regs.classes };
    proof {
        lemma_gpr_names_differ();
        assert(r@[0].wf() && r@[1].wf() && r@[2].wf());
    }
    r
}

/// A name that differs from every name of a list has no position in it.
pub proof fn lemma_position_none(names: Seq<Seq<char>>, name: Seq<char>, from: int)
    requires
        0 <= from,
        forall|j: int| from <= j < names.len() ==> #[trigger] names[j] != name,
    ensures
        position_from(names, name, from) is None,
    decreases names.len() - from,
{
    if from < names.len() {
        lemma_position_none(names, name, from + 1);
    }
}

/// A name that stands at `at` in a list, and nowhere before, has the position
/// `at`.
pub proof fn lemma_position_found(names: Seq<Seq<char>>, at: int, from: int)
    requires
        0 <= from <= at < names.len(),
        forall|j: int| from <= j < at ==> #[trigger] names[j] != names[at],
    ensures
        position_from(names, names[at], from) == Some(at),
    decreases at - from,
{
    if from < at {
        lemma_position_found(names, at, from + 1);
    }
}

/// The position of a name in a list, where it has one, is a position of the
/// list at which the name stands.
pub proof fn lemma_position_in_range(names: Seq<Seq<char>>, name: Seq<char>, from: int)
    requires
        0 <= from,
    ensures
        position_from(names, name, from) matches Some(at) ==> from <= at < names.len() && names[at]
            == name,
    decreases names.len() - from,
{
    if from < names.len() && names[from] != name {
        lemma_position_in_range(names, name, from + 1);
    }
}

/// A unit that a name stands for lies in one of the banks.
pub proof fn lemma_parsed_unit_is_in_a_bank(banks: Seq<BankModel>, name: Seq<char>, from: int)
    requires
        banks_wf(banks),
        0 <= from,
        parse_from(banks, name, from) is Some,
    ensures
        exists|at: int|
            0 <= at < banks.len() && (#[trigger] banks[at]).contains(
                parse_from(banks, name, from).unwrap(),
            ),
    decreases banks.len() - from,
{
    if from < banks.len() {
        if banks[from].parse(name) is Some {
            assert(banks[from].wf());
            lemma_position_in_range(banks[from].names, name, 0);
        } else {
            lemma_parsed_unit_is_in_a_bank(banks, name, from + 1);
        }
    }
}

/// A unit that lies in none of the banks has no bank.
pub proof fn lemma_no_bank(banks: Seq<BankModel>, unit: RegUnit, from: int)
    requires
        0 <= from,
        forall|at: int| 0 <= at < banks.len() ==> !(#[trigger] banks[at]).contains(unit),
    ensures
        bank_from(banks, unit, from) is None,
    decreases banks.len() - from,
{
    if from < banks.len() {
        lemma_no_bank(banks, unit, from + 1);
    }
}

/// A unit outside every bank is shown as `%INVALID` followed by its number,
/// and no name stands for it.
pub proof fn lemma_unit_outside_banks(banks: Seq<BankModel>, unit: RegUnit)
    requires
        banks_wf(banks),
        forall|at: int| 0 <= at < banks.len() ==> !(#[trigger] banks[at]).contains(unit),
    ensures
        unit_display(banks, unit) == seq!['%'] + (seq!['I', 'N', 'V', 'A', 'L', 'I', 'D'] + decimal(
            unit as nat,
        )),
        forall|name: Seq<char>| parse_from(banks, name, 0) != Some(unit),
{
    lemma_no_bank(banks, unit, 0);
    assert forall|name: Seq<char>| parse_from(banks, name, 0) != Some(unit) by {
        if parse_from(banks, name, 0) is Some {
            lemma_parsed_unit_is_in_a_bank(banks, name, 0);
        }
    }
}

/// The names of the general-purpose registers have two letters or more, none
/// begins with `f`, `h`, `l`, a digit or a plus sign, and no two of them are
/// the same.
proof fn lemma_gpr_names_differ()
    ensures
        gpr_names().len() == 32,
        forall|i: int|
            0 <= i < 32 ==> {
                let name = #[trigger] gpr_names()[i];
                name.len() >= 2 && name[0] != 'f' && name[0] != 'h' && name[0] != 'l' && name[0]
                    != '+' && digit_value(name[0]) is None
            },
        forall|i: int, j: int|
            0 <= i < j < 32 ==> #[trigger] gpr_names()[i] != #[trigger] gpr_names()[j],
{
    reveal_strlit("zero");
    reveal_strlit("at");
    reveal_strlit("v0");
    reveal_strlit("v1");
    reveal_strlit("a0");
    reveal_strlit("a1");
    reveal_strlit("a2");
    reveal_strlit("a3");
    reveal_strlit("a4");
    reveal_strlit("a5");
    reveal_strlit("a6");
    reveal_strlit("a7");
    reveal_strlit("t4");
    reveal_strlit("t5");
    reveal_strlit("t6");
    reveal_strlit("t7");
    reveal_strlit("s0");
    reveal_strlit("s1");
    reveal_strlit("s2");
    reveal_strlit("s3");
    reveal_strlit("s4");
    reveal_strlit("s5");
    reveal_strlit("s6");
    reveal_strlit("s7");
    reveal_strlit("t8");
    reveal_strlit("t9");
    reveal_strlit("k0");
    reveal_strlit("k1");
    reveal_strlit("gp");
    reveal_strlit("sp");
    reveal_strlit("s8");
    reveal_strlit("ra");
    let names = gpr_names();
    assert forall|i: int, j: int| 0 <= i < j < 32 implies #[trigger] names[i]
        != #[trigger] names[j] by {
        if names[i] == names[j] {
            assert(names[i][0] == names[j][0]);
            assert(names[i][1] == names[j][1]);
        }
    }
}

/// On MIPS, a name and the unit it belongs to determine each other: the name
/// of every unit of a bank stands for that unit.
pub proof fn lemma_mips_names_round_trip(unit: RegUnit)
    requires
        unit < 66,
    ensures
        parse_from(mips_banks(), unit_label(mips_banks(), unit), 0) == Some(unit),
{
    let banks = mips_banks();
    let name = unit_label(banks, unit);
    let nothing = Seq::<char>::empty();
    lemma_gpr_names_differ();
    reveal_strlit("hi");
    reveal_strlit("lo");
    assert(name.take(0) =~= nothing);
    assert(name.skip(0) =~= name);
    if unit < 32 {
        assert(bank_from(banks, unit, 0) == Some(0int));
        assert(name == gpr_names()[unit as int]);
        lemma_position_found(gpr_names(), unit as int, 0);
    } else {
        // No general-purpose register has such a name, nor is it a number.
        assert(bank_from(banks, unit, 1) == bank_from(banks, unit, 0));
        assert(bank_from(banks, unit, 2) == bank_from(banks, unit, 1) || unit < 64);
        let first = if unit < 64 {
            'f'
        } else if unit == 64 {
            'h'
        } else {
            'l'
        };
        assert(name[0] == first && name.len() >= 1) by {
            if unit < 64 {
                assert(name == seq!['f'] + decimal((unit - 32) as nat));
            }
        }
        assert forall|j: int| 0 <= j < gpr_names().len() implies #[trigger] gpr_names()[j]
            != name by {
            assert(gpr_names()[j][0] != first);
        }
        lemma_position_none(gpr_names(), name, 0);
        assert(!all_digits(name)) by {
            assert(digit_value(name[0]) is None);
        }
        assert(parse_u16(name) is None);
        assert(banks[0].parse(name) is None);
        assert(parse_from(banks, name, 0) == parse_from(banks, name, 1));
        let no_names = Seq::<Seq<char>>::empty();
        assert(position_from(no_names, name, 0) is None);
        if unit < 64 {
            let number = (unit - 32) as u16;
            assert(name.take(1) =~= seq!['f']);
            assert(name.skip(1) =~= decimal(number as nat));
            lemma_parse_decimal_round_trip(number);
            assert(banks[1].parse(name) == Some(unit));
        } else {
            assert(name.take(1)[0] == name[0]);
            assert(!has_prefix(name, seq!['f']));
            assert(banks[1].parse(name) is None);
            assert(parse_from(banks, name, 1) == parse_from(banks, name, 2));
            let names = seq!["hi"@, "lo"@];
            assert(names[0][0] != names[1][0]);
            lemma_position_found(names, unit - 64, 0);
            assert(banks[2].parse(name) == Some(unit));
        }
    }
}

} // verus!
