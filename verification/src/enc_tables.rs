//! The encoding tables of MIPS, for 32-bit and for 64-bit operation.
//!
//! Encoding bits hold the opcode in their low six bits and the function code
//! in the six bits above:
//!
//! ```text
//!   addu   R  000000 / 100001      daddu   R  000000 / 101101
//!   mul    R  011100 / 000010      gsmult  R  011100 / 010000
//!   sll    R  000000 / 000000      gsdmult R  011100 / 010001
//!   addiu  I  001001               dsll    R  000000 / 111000
//!   bltz   I  000001, rt 00000     daddiu  I  011001
//!   bgez   I  000001, rt 00001
//!   j      J  000010               jal     J  000011
//! ```
//!
//! `gsmult` and `gsdmult` belong to the Loongson EXT instructions and are
//! tried only where the settings allow their use.

use vstd::prelude::*;
use crate::encoding::{
    Candidate, CpuMode, Legalize, Level1Entry, Level2Entry, level1_from, level2_from, RECIPE_I,
    RECIPE_IREGIMM, RECIPE_J, RECIPE_NOP, RECIPE_R, RECIPE_RSHAMT,
};
use crate::ir::Opcode;
use crate::settings::PRED_USE_LEXT;
use crate::types::{float32, float64, int32, int64, invalid, LaneKind, Type};

verus! {

/// A candidate that no setting stands in the way of.
pub open spec fn plain(recipe: u16, bits: u16) -> Candidate {
    Candidate { recipe, bits, isa_predicate: None }
}

/// A candidate that is tried only where the Loongson EXT instructions are in
/// use.
pub open spec fn with_lext(recipe: u16, bits: u16) -> Candidate {
    Candidate { recipe, bits, isa_predicate: Some(PRED_USE_LEXT) }
}

/// The candidates of the instructions without a controlling type.
pub open spec fn untyped_candidates(opcode: Opcode) -> Seq<Candidate> {
    match opcode {
        Opcode::Nop => seq![plain(RECIPE_NOP, 0x000)],
        Opcode::Jump => seq![plain(RECIPE_J, 0x002)],
        Opcode::Call => seq![plain(RECIPE_J, 0x003)],
        _ => Seq::empty(),
    }
}

/// The candidates of the instructions on 32-bit integers.
pub open spec fn word_candidates(opcode: Opcode) -> Seq<Candidate> {
    match opcode {
        Opcode::Iadd => seq![plain(RECIPE_R, 0x840)],
        Opcode::Imul => seq![with_lext(RECIPE_R, 0x41c), plain(RECIPE_R, 0x09c)],
        Opcode::IaddImm => seq![plain(RECIPE_I, 0x009)],
        Opcode::IshlImm => seq![plain(RECIPE_RSHAMT, 0x000)],
        Opcode::BranchLtz => seq![plain(RECIPE_IREGIMM, 0x001)],
        Opcode::BranchGez => seq![plain(RECIPE_IREGIMM, 0x041)],
        _ => Seq::empty(),
    }
}

/// The candidates of the instructions on 64-bit integers.
pub open spec fn doubleword_candidates(opcode: Opcode) -> Seq<Candidate> {
    match opcode {
        Opcode::Iadd => seq![plain(RECIPE_R, 0xb40)],
        Opcode::Imul => seq![with_lext(RECIPE_R, 0x45c)],
        Opcode::IaddImm => seq![plain(RECIPE_I, 0x019)],
        Opcode::IshlImm => seq![plain(RECIPE_RSHAMT, 0xe00)],
        Opcode::BranchLtz => seq![plain(RECIPE_IREGIMM, 0x001)],
        Opcode::BranchGez => seq![plain(RECIPE_IREGIMM, 0x041)],
        _ => Seq::empty(),
    }
}

/// The 32-bit integer type.
pub open spec fn word_type() -> Type {
    Type { kind: LaneKind::Int, lane_bits: 32, lanes: 1 }
}

/// The 64-bit integer type.
pub open spec fn doubleword_type() -> Type {
    Type { kind: LaneKind::Int, lane_bits: 64, lanes: 1 }
}

/// The type that stands for no controlling type.
pub open spec fn no_type() -> Type {
    Type { kind: LaneKind::Int, lane_bits: 0, lanes: 0 }
}

/// The candidates that MIPS has for an opcode under a controlling type, in
/// 32-bit operation or, where `wide` is set, 64-bit operation: 64-bit
/// integers have candidates in 64-bit operation only.
pub open spec fn mips_candidates(wide: bool, ty: Type, opcode: Opcode) -> Seq<Candidate> {
    if ty == no_type() {
        untyped_candidates(opcode)
    } else if ty == word_type() {
        word_candidates(opcode)
    } else if wide && ty == doubleword_type() {
        doubleword_candidates(opcode)
    } else {
        Seq::empty()
    }
}

/// Whether instructions with the controlling type `ty` are expanded where
/// they have no encoding: those on 32-bit integers, on floating-point scalars
/// and, in 64-bit operation, on 64-bit integers.
pub open spec fn type_expands(wide: bool, ty: Type) -> bool {
    ||| ty == word_type()
    ||| ty == (Type { kind: LaneKind::Float, lane_bits: 32, lanes: 1 })
    ||| ty == (Type { kind: LaneKind::Float, lane_bits: 64, lanes: 1 })
    ||| wide && ty == doubleword_type()
}

/// Whether instructions of a controlling type, or without one, are expanded
/// where they have no encoding.
pub open spec fn mips_expands(wide: bool, ty: Type) -> bool {
    ty == no_type() || type_expands(wide, ty)
}

/// What MIPS does with an instruction of a controlling type that has no
/// encoding: expand it, or narrow it where the type is not one of those that
/// are expanded.
pub open spec fn mips_legalize(wide: bool, ty: Type) -> Legalize {
    if mips_expands(wide, ty) {
        Legalize::Expand
    } else {
        Legalize::Narrow
    }
}

/// Whether the tables of a mode hold what MIPS has, for every controlling
/// type and every opcode.
pub open spec fn is_mips_mode(mode: CpuMode, wide: bool) -> bool {
    &&& forall|ty: Type, opcode: Opcode| #[trigger]
        mode.spec_candidates(ty, opcode) == mips_candidates(wide, ty, opcode)
    &&& forall|ty: Type| #[trigger] mode.spec_legalize(ty) == mips_legalize(wide, ty)
}

fn candidate(recipe: u16, bits: u16) -> (r: Candidate)
    ensures
        r == plain(recipe, bits),
{
    Candidate { recipe, bits, isa_predicate: None }
}

fn lext_candidate(recipe: u16, bits: u16) -> (r: Candidate)
    ensures
        r == with_lext(recipe, bits),
{
    Candidate { recipe, bits, isa_predicate: Some(PRED_USE_LEXT) }
}

/// The table of the instructions without a controlling type.
fn untyped_entry() -> (r: Level1Entry)
    ensures
        r.ty == no_type(),
        r.legalize == Legalize::Expand,
        forall|opcode: Opcode|
            untyped_candidates(opcode) == match #[trigger] level2_from(r.level2@, opcode, 0) {
                Some(j) => r.level2@[j].candidates@,
                None => Seq::empty(),
            },
{
    let level2 = vec![
        Level2Entry { opcode: Opcode::Nop, candidates: vec![candidate(RECIPE_NOP, 0x000)] },
        Level2Entry { opcode: Opcode::Jump, candidates: vec![candidate(RECIPE_J, 0x002)] },
        Level2Entry { opcode: Opcode::Call, candidates: vec![candidate(RECIPE_J, 0x003)] },
    ];
    proof {
        reveal_with_fuel(level2_from, 4);
        assert forall|opcode: Opcode|
            untyped_candidates(opcode) == match #[trigger] level2_from(level2@, opcode, 0) {
                Some(j) => level2@[j].candidates@,
                None => Seq::empty(),
            } by {
            match level2_from(level2@, opcode, 0) {
                Some(j) => {
                    assert(level2@[j].candidates@ =~= untyped_candidates(opcode));
                },
                None => {},
            }
        }
    }
    Level1Entry { ty: invalid(), legalize: Legalize::Expand, level2 }
}

/// The table of the instructions on 32-bit integers.
fn word_entry() -> (r: Level1Entry)
    ensures
        r.ty == word_type(),
        r.legalize == Legalize::Expand,
        forall|opcode: Opcode|
            word_candidates(opcode) == match #[trigger] level2_from(r.level2@, opcode, 0) {
                Some(j) => r.level2@[j].candidates@,
                None => Seq::empty(),
            },
{
    let level2 = vec![
        Level2Entry { opcode: Opcode::Iadd, candidates: vec![candidate(RECIPE_R, 0x840)] },
        Level2Entry {
            opcode: Opcode::Imul,
            candidates: vec![lext_candidate(RECIPE_R, 0x41c), candidate(RECIPE_R, 0x09c)],
        },
        Level2Entry { opcode: Opcode::IaddImm, candidates: vec![candidate(RECIPE_I, 0x009)] },
        Level2Entry { opcode: Opcode::IshlImm, candidates: vec![candidate(RECIPE_RSHAMT, 0x000)] },
        Level2Entry {
            opcode: Opcode::BranchLtz,
            candidates: vec![candidate(RECIPE_IREGIMM, 0x001)],
        },
        Level2Entry {
            opcode: Opcode::BranchGez,
            candidates: vec![candidate(RECIPE_IREGIMM, 0x041)],
        },
    ];
    proof {
        reveal_with_fuel(level2_from, 7);
        assert forall|opcode: Opcode|
            word_candidates(opcode) == match #[trigger] level2_from(level2@, opcode, 0) {
                Some(j) => level2@[j].candidates@,
                None => Seq::empty(),
            } by {
            match level2_from(level2@, opcode, 0) {
                Some(j) => {
                    assert(level2@[j].candidates@ =~= word_candidates(opcode));
                },
                None => {},
            }
        }
    }
    Level1Entry { ty: int32(), legalize: Legalize::Expand, level2 }
}

/// The table of the instructions on 64-bit integers.
fn doubleword_entry() -> (r: Level1Entry)
    ensures
        r.ty == doubleword_type(),
        r.legalize == Legalize::Expand,
        forall|opcode: Opcode|
            doubleword_candidates(opcode) == match #[trigger] level2_from(r.level2@, opcode, 0) {
                Some(j) => r.level2@[j].candidates@,
                None => Seq::empty(),
            },
{
    let level2 = vec![
        Level2Entry { opcode: Opcode::Iadd, candidates: vec![candidate(RECIPE_R, 0xb40)] },
        Level2Entry { opcode: Opcode::Imul, candidates: vec![lext_candidate(RECIPE_R, 0x45c)] },
        Level2Entry { opcode: Opcode::IaddImm, candidates: vec![candidate(RECIPE_I, 0x019)] },
        Level2Entry { opcode: Opcode::IshlImm, candidates: vec![candidate(RECIPE_RSHAMT, 0xe00)] },
        Level2Entry {
            opcode: Opcode::BranchLtz,
            candidates: vec![candidate(RECIPE_IREGIMM, 0x001)],
        },
        Level2Entry {
            opcode: Opcode::BranchGez,
            candidates: vec![candidate(RECIPE_IREGIMM, 0x041)],
        },
    ];
    proof {
        reveal_with_fuel(level2_from, 7);
        assert forall|opcode: Opcode|
            doubleword_candidates(opcode) == match #[trigger] level2_from(level2@, opcode, 0) {
                Some(j) => level2@[j].candidates@,
                None => Seq::empty(),
            } by {
            match level2_from(level2@, opcode, 0) {
                Some(j) => {
                    assert(level2@[j].candidates@ =~= doubleword_candidates(opcode));
                },
                None => {},
            }
        }
    }
    Level1Entry { ty: int64(), legalize: Legalize::Expand, level2 }
}

/// The table of a type that has no encodings, but whose instructions are
/// expanded.
fn empty_entry(ty: Type) -> (r: Level1Entry)
    ensures
        r.ty == ty,
        r.legalize == Legalize::Expand,
        r.level2@.len() == 0,
{
    Level1Entry { ty, legalize: Legalize::Expand, level2: Vec::new() }
}

/// The encoding tables of 32-bit operation.
pub fn mips32() -> (r: CpuMode)
    ensures
        is_mips_mode(r, false),
{
    let level1 = vec![
        untyped_entry(),
        word_entry(),
        empty_entry(float32()),
        empty_entry(float64()),
    ];
    let r = CpuMode { name: "MIPS32", level1, default_legalize: Legalize::Narrow };
    proof {
        reveal_with_fuel(level1_from, 5);
    }
    r
}

/// The encoding tables of 64-bit operation.
pub fn mips64() -> (r: CpuMode)
    ensures
        is_mips_mode(r, true),
{
    let level1 = vec![
        untyped_entry(),
        word_entry(),
        doubleword_entry(),
        empty_entry(float32()),
        empty_entry(float64()),
    ];
    let r = CpuMode { name: "MIPS64", level1, default_legalize: Legalize::Narrow };
    proof {
        reveal_with_fuel(level1_from, 6);
    }
    r
}

} // verus!
