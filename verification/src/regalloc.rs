//! The set of register units that are free for allocation.

use vstd::prelude::*;
use crate::ir::Value;
use crate::registers::{RegClass, RegUnit, MAX_UNITS};

verus! {

/// Whether bit number `bit` of `word` is set.
pub open spec fn bit_is_set(word: u32, bit: u32) -> bool {
    (word >> bit) & 1 == 1
}

/// Clearing one bit of a word leaves the other bits as they were.
proof fn lemma_clear_bit(word: u32, bit: u32, other: u32)
    requires
        bit < 32,
        other < 32,
    ensures
        bit_is_set(word & !(1u32 << bit), other) == (bit_is_set(word, other) && other != bit),
{
    assert(((word & !(1u32 << bit)) >> other) & 1 == 1 <==> (((word >> other) & 1 == 1) && other
        != bit)) by (bit_vector)
        requires
            bit < 32,
            other < 32,
    ;
}

/// Setting one bit of a word leaves the other bits as they were.
proof fn lemma_set_bit(word: u32, bit: u32, other: u32)
    requires
        bit < 32,
        other < 32,
    ensures
        bit_is_set(word | (1u32 << bit), other) == (bit_is_set(word, other) || other == bit),
{
    assert(((word | (1u32 << bit)) >> other) & 1 == 1 <==> (((word >> other) & 1 == 1) || other
        == bit)) by (bit_vector)
        requires
            bit < 32,
            other < 32,
    ;
}

/// Every bit of the word of all ones is set.
proof fn lemma_all_ones(bit: u32)
    requires
        bit < 32,
    ensures
        bit_is_set(0xffff_ffffu32, bit),
{
    assert((0xffff_ffffu32 >> bit) & 1 == 1) by (bit_vector)
        requires
            bit < 32,
    ;
}

/// A set of register units, one bit for each of the units that the
/// architecture may number.
#[derive(Clone, Copy, Debug)]
pub struct RegisterSet {
    avail: [u32; 3],
}

impl View for RegisterSet {
    type V = Set<RegUnit>;

    /// The units that are in the set.
    closed spec fn view(&self) -> Set<RegUnit> {
        Set::new(|unit: RegUnit| self.holds(unit))
    }
}

impl RegisterSet {
    /// Whether the bit of `unit` is set.
    closed spec fn holds(self, unit: RegUnit) -> bool {
        unit < MAX_UNITS && bit_is_set(self.avail[unit as int / 32], (unit % 32) as u32)
    }

    /// The set holds units under the architecture's bound only.
    pub proof fn lemma_bounded(self, unit: RegUnit)
        requires
            self@.contains(unit),
        ensures
            unit < MAX_UNITS,
    {
    }

    /// The set of all units.
    pub fn new() -> (r: RegisterSet)
        ensures
            r@ =~= Set::new(|unit: RegUnit| unit < MAX_UNITS),
    {
        let r = RegisterSet { avail: [0xffff_ffff, 0xffff_ffff, 0xffff_ffff] };
        proof {
            assert forall|unit: RegUnit| unit < MAX_UNITS implies r.holds(unit) by {
                lemma_all_ones((unit % 32) as u32);
            }
        }
        r
    }

    /// Whether `reg`, a unit of the class `rc`, is in the set.
    pub fn is_avail(&self, rc: RegClass, reg: RegUnit) -> (r: bool)
        requires
            reg < MAX_UNITS,
        ensures
            r == self@.contains(reg),
    {
        let word = self.avail[(reg / 32) as usize];
        let bit: u32 = (reg % 32) as u32;
        (word >> bit) & 1 == 1
    }

    /// Takes `reg`, a unit of the class `rc` that is in the set, out of it.
    pub fn take(&mut self, rc: RegClass, reg: RegUnit)
        requires
            reg < MAX_UNITS,
            old(self)@.contains(reg),
        ensures
            final(self)@ =~= old(self)@.remove(reg),
    {
        let idx = (reg / 32) as usize;
        let bit: u32 = (reg % 32) as u32;
        let word = self.avail[idx];
        self.avail[idx] = word & !(1u32 << bit);
        proof {
            assert forall|unit: RegUnit| final(self).holds(unit) == (old(self).holds(unit) && unit
                != reg) by {
                if unit < MAX_UNITS && unit / 32 == reg / 32 {
                    lemma_clear_bit(word, bit, (unit % 32) as u32);
                }
            }
        }
    }

    /// Puts `reg`, a unit of the class `rc` that is not in the set, back.
    pub fn free(&mut self, rc: RegClass, reg: RegUnit)
        requires
            reg < MAX_UNITS,
            !old(self)@.contains(reg),
        ensures
            final(self)@ =~= old(self)@.insert(reg),
    {
        let idx = (reg / 32) as usize;
        let bit: u32 = (reg % 32) as u32;
        let word = self.avail[idx];
        self.avail[idx] = word | (1u32 << bit);
        proof {
            assert forall|unit: RegUnit| final(self).holds(unit) == (old(self).holds(unit) || unit
                == reg) by {
                if unit < MAX_UNITS && unit / 32 == reg / 32 {
                    lemma_set_bit(word, bit, (unit % 32) as u32);
                }
            }
        }
    }
}

/// A value that is, for the time being, held in another register than its
/// own.
#[derive(Clone, Copy, Debug, PartialEq, Eq, Structural)]
pub struct Diversion {
    pub value: Value,
    pub to: RegUnit,
}

/// The values that are held in other registers than their own. Where a value
/// was diverted more than once, the last diversion counts.
#[derive(Debug)]
pub struct RegDiversions {
    pub current: Vec<Diversion>,
}

/// The register that the last diversion of `value` among the first `upto`
/// sends it to.
pub open spec fn diverted_to(current: Seq<Diversion>, value: Value, upto: int) -> Option<RegUnit>
    decreases upto,
{
    if upto <= 0 || upto > current.len() {
        None
    } else if current[upto - 1].value == value {
        Some(current[upto - 1].to)
    } else {
        diverted_to(current, value, upto - 1)
    }
}

/// The register that holds `value`: the one it was last diverted to, or its
/// own.
pub open spec fn register_of(current: Seq<Diversion>, locations: Seq<RegUnit>, value: Value)
    -> RegUnit {
    match diverted_to(current, value, current.len() as int) {
        Some(unit) => unit,
        None => locations[value as int],
    }
}

impl RegDiversions {
    /// No diversions.
    pub fn new() -> (r: RegDiversions)
        ensures
            r.current@ == Seq::<Diversion>::empty(),
    {
        RegDiversions { current: Vec::new() }
    }

    /// Notes that `value` is held in `to` from now on.
    pub fn divert(&mut self, value: Value, to: RegUnit)
        ensures
            final(self).current@ == old(self).current@.push((Diversion { value, to })),
    {
        self.current.push(Diversion { value, to });
    }

    /// The register that holds `value`.
    pub fn reg(&self, value: Value, locations: &Vec<RegUnit>) -> (r: RegUnit)
        requires
            value < locations@.len(),
        ensures
            r == register_of(self.current@, locations@, value),
    {
        let mut i = self.current.len();
        while i > 0
            invariant
                i <= self.current@.len(),
                diverted_to(self.current@, value, self.current@.len() as int) == diverted_to(
                    self.current@,
                    value,
                    i as int,
                ),
            decreases i,
        {
            if self.current[i - 1].value == value {
                return self.current[i - 1].to;
            }
            i -= 1;
        }
        locations[value as usize]
    }
}

} // verus!
