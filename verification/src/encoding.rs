//! Encodings: the recipes, what each asks of an instruction, and the tables
//! that map a controlling type and an opcode to the encodings to try, best
//! first.

use vstd::prelude::*;
use vstd::string::*;
use crate::ir::{Encoding, InstructionData, Opcode};
use crate::predicates::{is_signed_int, signed_int_fits};
use crate::settings::Flags;
use crate::text::{append_hex2, hex2};
use crate::types::Type;

verus! {

/// The recipe of the register layout with a shift amount of zero.
pub const RECIPE_R: u16 = 0;

/// The recipe of the register layout with a shift amount from an immediate.
pub const RECIPE_RSHAMT: u16 = 1;

/// The recipe of the immediate layout.
pub const RECIPE_I: u16 = 2;

/// The recipe of the immediate layout for REGIMM branches.
pub const RECIPE_IREGIMM: u16 = 3;

/// The recipe of the jump layout.
pub const RECIPE_J: u16 = 4;

/// The recipe of the no-operation.
pub const RECIPE_NOP: u16 = 5;

/// How many recipes there are.
pub const NUM_RECIPES: u16 = 6;

/// What to do with an instruction that has no encoding.
#[derive(Clone, Copy, Debug, PartialEq, Eq, Structural)]
pub enum Legalize {
    /// Break it into instructions on narrower types.
    Narrow,
    /// Expand it into simpler instructions.
    Expand,
}

/// Whether an instruction has the shape that a recipe lays out, with
/// immediates that fit their fields: sixteen signed bits for the immediate
/// layout, twenty-eight signed bits in steps of four for a jump.
pub open spec fn recipe_accepts(recipe: u16, inst: InstructionData) -> bool {
    match inst {
        InstructionData::NullAry { .. } => recipe == RECIPE_NOP,
        InstructionData::Binary { .. } => recipe == RECIPE_R,
        InstructionData::BinaryImm { imm, .. } => recipe == RECIPE_RSHAMT || (recipe == RECIPE_I
            && signed_int_fits(imm as int, 16, 0)),
        InstructionData::Branch { offset, .. } => recipe == RECIPE_IREGIMM && signed_int_fits(
            offset as int,
            16,
            0,
        ),
        InstructionData::Jump { offset, .. } => recipe == RECIPE_J && signed_int_fits(
            offset as int,
            28,
            2,
        ),
        InstructionData::Call { .. } => recipe == RECIPE_J,
    }
}

/// Whether an instruction has the shape that a recipe lays out.
pub fn recipe_predicate(recipe: u16, inst: &InstructionData) -> (r: bool)
    ensures
        r == recipe_accepts(recipe, *inst),
{
    match inst {
        InstructionData::NullAry { .. } => recipe == RECIPE_NOP,
        InstructionData::Binary { .. } => recipe == RECIPE_R,
        InstructionData::BinaryImm { imm, .. } => recipe == RECIPE_RSHAMT || (recipe == RECIPE_I
            && is_signed_int(*imm, 16, 0)),
        InstructionData::Branch { offset, .. } => recipe == RECIPE_IREGIMM && is_signed_int(
            *offset,
            16,
            0,
        ),
        InstructionData::Jump { offset, .. } => recipe == RECIPE_J && is_signed_int(*offset, 28, 2),
        InstructionData::Call { .. } => recipe == RECIPE_J,
    }
}

/// An encoding to try: its recipe and bits, and the number of the setting
/// predicate that must hold for it, if there is one.
#[derive(Clone, Copy, Debug, PartialEq, Eq, Structural)]
pub struct Candidate {
    pub recipe: u16,
    pub bits: u16,
    pub isa_predicate: Option<u8>,
}

impl Candidate {
    /// Whether the candidate is legal for an instruction under the settings:
    /// the recipe accepts the instruction, and the setting predicate holds.
    pub open spec fn accepts(self, inst: InstructionData, flags: Flags) -> bool {
        recipe_accepts(self.recipe, inst) && (self.isa_predicate matches Some(number)
            ==> flags.spec_predicate(number))
    }

    /// The encoding that the candidate stands for.
    pub open spec fn encoding(self) -> Encoding {
        Encoding { recipe: self.recipe, bits: self.bits }
    }

    /// Whether the candidate is legal for an instruction under the settings.
    pub fn is_legal(&self, inst: &InstructionData, flags: &Flags) -> (r: bool)
        ensures
            r == self.accepts(*inst, *flags),
    {
        recipe_predicate(self.recipe, inst) && match self.isa_predicate {
            Some(number) => flags.predicate(number),
            None => true,
        }
    }
}

/// The encodings of the candidates from `from` on that are legal for an
/// instruction under the settings, in the order of the candidates.
pub open spec fn accepted_from(
    candidates: Seq<Candidate>,
    from: int,
    inst: InstructionData,
    flags: Flags,
) -> Seq<Encoding>
    decreases candidates.len() - from,
{
    if from < 0 || from >= candidates.len() {
        Seq::empty()
    } else if candidates[from].accepts(inst, flags) {
        seq![candidates[from].encoding()] + accepted_from(candidates, from + 1, inst, flags)
    } else {
        accepted_from(candidates, from + 1, inst, flags)
    }
}

/// Every legal encoding of an instruction has a recipe that accepts the
/// instruction: none is handed out for an immediate that does not fit its
/// field.
pub proof fn lemma_legal_encodings_are_accepted(
    candidates: Seq<Candidate>,
    from: int,
    inst: InstructionData,
    flags: Flags,
    k: int,
)
    requires
        0 <= from,
        0 <= k < accepted_from(candidates, from, inst, flags).len(),
    ensures
        recipe_accepts(accepted_from(candidates, from, inst, flags)[k].recipe, inst),
    decreases candidates.len() - from,
{
    if from < candidates.len() {
        if candidates[from].accepts(inst, flags) {
            if k > 0 {
                lemma_legal_encodings_are_accepted(candidates, from + 1, inst, flags, k - 1);
            }
        } else {
            lemma_legal_encodings_are_accepted(candidates, from + 1, inst, flags, k);
        }
    }
}

/// The candidates of one opcode, best first.
#[derive(Clone, Debug)]
pub struct Level2Entry {
    pub opcode: Opcode,
    pub candidates: Vec<Candidate>,
}

/// The opcodes that have encodings under one controlling type, and what to
/// do with an instruction of that type that has none.
#[derive(Clone, Debug)]
pub struct Level1Entry {
    pub ty: Type,
    pub legalize: Legalize,
    pub level2: Vec<Level2Entry>,
}

/// The encoding tables of one mode of the CPU.
#[derive(Clone, Debug)]
pub struct CpuMode {
    pub name: &'static str,
    pub level1: Vec<Level1Entry>,
    /// What to do with an instruction whose controlling type has no entry.
    pub default_legalize: Legalize,
}

/// The first entry from `from` on for the type `ty`.
pub open spec fn level1_from(level1: Seq<Level1Entry>, ty: Type, from: int) -> Option<int>
    decreases level1.len() - from,
{
    if from < 0 || from >= level1.len() {
        None
    } else if level1[from].ty == ty {
        Some(from)
    } else {
        level1_from(level1, ty, from + 1)
    }
}

/// The first entry from `from` on for the opcode `opcode`.
pub open spec fn level2_from(level2: Seq<Level2Entry>, opcode: Opcode, from: int) -> Option<int>
    decreases level2.len() - from,
{
    if from < 0 || from >= level2.len() {
        None
    } else if level2[from].opcode == opcode {
        Some(from)
    } else {
        level2_from(level2, opcode, from + 1)
    }
}

impl CpuMode {
    /// The candidates for an opcode under a controlling type: those of the
    /// first entry for the type and, in it, of the first entry for the
    /// opcode; none where either is missing.
    pub open spec fn spec_candidates(self, ty: Type, opcode: Opcode) -> Seq<Candidate> {
        match level1_from(self.level1@, ty, 0) {
            Some(i) => match level2_from(self.level1@[i].level2@, opcode, 0) {
                Some(j) => self.level1@[i].level2@[j].candidates@,
                None => Seq::empty(),
            },
            None => Seq::empty(),
        }
    }

    /// What to do with an instruction of a controlling type that has no
    /// encoding: what the entry of the type says, or the default where the
    /// type has no entry.
    pub open spec fn spec_legalize(self, ty: Type) -> Legalize {
        match level1_from(self.level1@, ty, 0) {
            Some(i) => self.level1@[i].legalize,
            None => self.default_legalize,
        }
    }

    /// The legal encodings of an instruction with a controlling type under
    /// the settings, best first.
    pub open spec fn legal_encodings(self, ty: Type, inst: InstructionData, flags: Flags) -> Seq<
        Encoding,
    > {
        accepted_from(self.spec_candidates(ty, inst.spec_opcode()), 0, inst, flags)
    }

    /// The position of the first entry for the type `ty`.
    fn find_level1(&self, ty: Type) -> (r: Option<usize>)
        ensures
            r matches Some(i) ==> level1_from(self.level1@, ty, 0) == Some(i as int) && i
                < self.level1@.len(),
            r is None ==> level1_from(self.level1@, ty, 0) is None,
    {
        let mut i: usize = 0;
        while i < self.level1.len()
            invariant
                i <= self.level1@.len(),
                level1_from(self.level1@, ty, 0) == level1_from(self.level1@, ty, i as int),
            decreases self.level1@.len() - i,
        {
            if self.level1[i].ty == ty {
                return Some(i);
            }
            i += 1;
        }
        None
    }
}

impl Level1Entry {
    /// The position of the first entry for the opcode `opcode`.
    fn find_level2(&self, opcode: Opcode) -> (r: Option<usize>)
        ensures
            r matches Some(j) ==> level2_from(self.level2@, opcode, 0) == Some(j as int) && j
                < self.level2@.len(),
            r is None ==> level2_from(self.level2@, opcode, 0) is None,
    {
        let mut j: usize = 0;
        while j < self.level2.len()
            invariant
                j <= self.level2@.len(),
                level2_from(self.level2@, opcode, 0) == level2_from(self.level2@, opcode, j as int),
            decreases self.level2@.len() - j,
        {
            if self.level2[j].opcode == opcode {
                return Some(j);
            }
            j += 1;
        }
        None
    }
}

/// The legal encodings of one instruction, handed out one at a time: no
/// candidate is looked at before it is asked for.
#[derive(Debug)]
pub struct Encodings<'a> {
    candidates: Option<&'a Vec<Candidate>>,
    next: usize,
    inst: InstructionData,
    flags: Flags,
    legalize: Legalize,
}

impl<'a> Encodings<'a> {
    /// The candidates that the encodings are taken from.
    pub closed spec fn candidates(self) -> Seq<Candidate> {
        match self.candidates {
            Some(list) => list@,
            None => Seq::empty(),
        }
    }

    /// The encodings that are still to come, best first.
    pub closed spec fn remaining(self) -> Seq<Encoding> {
        accepted_from(self.candidates(), self.next as int, self.inst, self.flags)
    }

    /// What to do with the instruction where no encoding is legal.
    pub closed spec fn spec_legalize(self) -> Legalize {
        self.legalize
    }

    /// What to do with the instruction where no encoding is legal.
    pub fn legalize(&self) -> (r: Legalize)
        ensures
            r == self.spec_legalize(),
    {
        self.legalize
    }

    /// Hands out the next legal encoding, if one is left.
    pub fn next(&mut self) -> (r: Option<Encoding>)
        ensures
            old(self).remaining().len() == 0 ==> r is None && final(self).remaining().len() == 0,
            old(self).remaining().len() > 0 ==> r == Some(old(self).remaining()[0])
                && final(self).remaining() == old(self).remaining().skip(1),
            final(self).spec_legalize() == old(self).spec_legalize(),
    {
        let list = match self.candidates {
            Some(list) => list,
            None => {
                return None;
            },
        };
        while self.next < list.len()
            invariant
                self.candidates == Some(list),
                self.inst == old(self).inst,
                self.flags == old(self).flags,
                self.legalize == old(self).legalize,
                self.remaining() == old(self).remaining(),
            decreases list@.len() - self.next,
        {
            let candidate = list[self.next];
            self.next += 1;
            if candidate.is_legal(&self.inst, &self.flags) {
                assert(final(self).remaining() =~= old(self).remaining().skip(1));
                return Some(Encoding::new(candidate.recipe, candidate.bits));
            }
        }
        None
    }
}

/// Looks up the encodings of an instruction with a controlling type in the
/// tables of a CPU mode. Nothing is tested yet: the encodings are found as
/// they are asked for.
pub fn lookup_enclist<'a>(
    ctrl_type: Type,
    inst: &InstructionData,
    mode: &'a CpuMode,
    flags: &Flags,
) -> (r: Encodings<'a>)
    ensures
        r.remaining() == mode.legal_encodings(ctrl_type, *inst, *flags),
        r.spec_legalize() == mode.spec_legalize(ctrl_type),
{
    match mode.find_level1(ctrl_type) {
        Some(i) => {
            let entry = &mode.level1[i];
            let candidates = match entry.find_level2(inst.opcode()) {
                Some(j) => Some(&entry.level2[j].candidates),
                None => None,
            };
            Encodings { candidates, next: 0, inst: *inst, flags: *flags, legalize: entry.legalize }
        },
        None => Encodings {
            candidates: None,
            next: 0,
            inst: *inst,
            flags: *flags,
            legalize: mode.default_legalize,
        },
    }
}

/// What is known of the recipes: their names, and which of them leave a delay
/// slot behind.
#[derive(Clone, Debug)]
pub struct EncInfo {
    pub names: Vec<&'static str>,
}

/// Whether the instructions of a recipe are followed by a delay slot: the
/// branches and the jumps are.
pub open spec fn recipe_has_delay_slot(recipe: u16) -> bool {
    recipe == RECIPE_IREGIMM || recipe == RECIPE_J
}

/// The names of the recipes, by number.
pub open spec fn recipe_names() -> Seq<Seq<char>> {
    seq![
        seq!['R'],
        seq!['R', 's', 'h', 'a', 'm', 't'],
        seq!['I'],
        seq!['I', 'r', 'e', 'g', 'i', 'm', 'm'],
        seq!['J'],
        seq!['N', 'o', 'p'],
    ]
}

/// How an encoding is shown: the name of its recipe, a number sign, and its
/// bits in hexadecimal digits, two at least.
pub open spec fn encoding_display(enc: Encoding) -> Seq<char> {
    recipe_names()[enc.recipe as int] + seq!['#'] + hex2(enc.bits as nat)
}

impl EncInfo {
    /// The names are those of the MIPS recipes.
    pub open spec fn wf(self) -> bool {
        self.names@.map_values(|s: &'static str| s@) == recipe_names()
    }

    /// Whether the instructions of an encoding are followed by a delay slot.
    pub fn has_delay_slot(&self, enc: Encoding) -> (r: bool)
        ensures
            r == recipe_has_delay_slot(enc.recipe),
    {
        enc.recipe == RECIPE_IREGIMM || enc.recipe == RECIPE_J
    }

    /// How an encoding of one of the recipes is shown.
    pub fn display(&self, enc: Encoding) -> (r: String)
        requires
            self.wf(),
            enc.recipe < NUM_RECIPES,
        ensures
            r@ == encoding_display(enc),
    {
        let mut out = String::new();
        assert(self.names@.map_values(|s: &'static str| s@).len() == 6);
        assert(self.names@.map_values(|s: &'static str| s@)[enc.recipe as int]
            == self.names@[enc.recipe as int]@);
        out.append(self.names[enc.recipe as usize]);
        proof {
            reveal_strlit("#");
        }
        out.append("#");
        append_hex2(&mut out, enc.bits);
        assert(out@ =~= encoding_display(enc));
        out
    }
}

/// What is known of the MIPS recipes.
pub fn enc_info() -> (r: EncInfo)
    ensures
        r.wf(),
{
    let names = vec!["R", "Rshamt", "I", "Iregimm", "J", "Nop"];
    proof {
        reveal_strlit("R");
        reveal_strlit("Rshamt");
        reveal_strlit("I");
        reveal_strlit("Iregimm");
        reveal_strlit("J");
        reveal_strlit("Nop");
        let views = names@.map_values(|s: &'static str| s@);
        assert(views[0] =~= recipe_names()[0]);
        assert(views[1] =~= recipe_names()[1]);
        assert(views[2] =~= recipe_names()[2]);
        assert(views[3] =~= recipe_names()[3]);
        assert(views[4] =~= recipe_names()[4]);
        assert(views[5] =~= recipe_names()[5]);
        assert(views =~= recipe_names());
    }
    EncInfo { names }
}

} // verus!
