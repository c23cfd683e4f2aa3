//! Emitting binary MIPS machine code.
//!
//! Every instruction is one 32-bit word in one of three layouts:
//!
//! ```text
//!   R:  opcode(6) rs(5) rt(5) rd(5) shamt(5) funct(6)
//!   I:  opcode(6) rs(5) rt(5) immediate(16)
//!   J:  opcode(6) target(26)
//! ```
//!
//! The encoding bits of an instruction hold its opcode in the low six bits
//! and its function code in the six bits above them.

use vstd::prelude::*;
use crate::encoding::{recipe_accepts, recipe_predicate, RECIPE_I, RECIPE_R, RECIPE_RSHAMT};
use crate::ir::{Function, Inst, InstructionData};
use crate::predicates::signed_int_fits;
use crate::regalloc::{register_of, Diversion, RegDiversions};
use crate::registers::RegUnit;
use vstd::arithmetic::power2::lemma2_to64;

verus! {

/// The kinds of relocation that emitted code may ask for.
#[derive(Clone, Copy, Debug, PartialEq, Eq, Structural)]
pub enum Reloc {
    /// The 26-bit target field of a jump or a call.
    Jump26,
}

/// A place in the code that the linker must fill in.
#[derive(Clone, Copy, Debug, PartialEq, Eq, Structural)]
pub struct RelocRecord {
    /// Offset of the instruction in the code.
    pub offset: usize,
    /// What is to be filled in.
    pub kind: Reloc,
    /// Number of the external name that is referred to.
    pub target: u32,
    /// A constant to add to the address of the name.
    pub addend: i64,
}

/// Where machine code goes: bytes are appended, never changed, and the
/// relocations are noted beside them.
#[derive(Debug)]
pub struct CodeSink {
    pub data: Vec<u8>,
    pub relocs: Vec<RelocRecord>,
}

/// The four bytes of a word, lowest first.
pub open spec fn word_bytes(word: u32) -> Seq<u8> {
    seq![
        (word & 0xff) as u8,
        ((word >> 8) & 0xff) as u8,
        ((word >> 16) & 0xff) as u8,
        ((word >> 24) & 0xff) as u8,
    ]
}

impl CodeSink {
    /// An empty sink.
    pub fn new() -> (r: CodeSink)
        ensures
            r.data@ == Seq::<u8>::empty(),
            r.relocs@ == Seq::<RelocRecord>::empty(),
    {
        CodeSink { data: Vec::new(), relocs: Vec::new() }
    }

    /// How many bytes have been written.
    pub fn offset(&self) -> (r: usize)
        ensures
            r == self.data@.len(),
    {
        self.data.len()
    }

    /// Appends one word, lowest byte first.
    pub fn put4(&mut self, word: u32)
        ensures
            final(self).data@ == old(self).data@ + word_bytes(word),
            final(self).relocs@ == old(self).relocs@,
    {
        assert((word & 0xff) <= 0xff && ((word >> 8) & 0xff) <= 0xff && ((word >> 16) & 0xff)
            <= 0xff && ((word >> 24) & 0xff) <= 0xff) by (bit_vector);
        self.data.push((word & 0xff) as u8);
        self.data.push(((word >> 8) & 0xff) as u8);
        self.data.push(((word >> 16) & 0xff) as u8);
        self.data.push(((word >> 24) & 0xff) as u8);
        assert(final(self).data@ =~= old(self).data@ + word_bytes(word));
    }

    /// Notes that the instruction about to be written refers to an external
    /// name: the record holds the current offset.
    pub fn reloc_external(&mut self, kind: Reloc, target: u32, addend: i64)
        ensures
            final(self).data@ == old(self).data@,
            final(self).relocs@ == old(self).relocs@.push(
                (RelocRecord { offset: old(self).data@.len() as usize, kind, target, addend }),
            ),
    {
        let offset = self.data.len();
        self.relocs.push(RelocRecord { offset, kind, target, addend });
    }
}

/// The opcode held in encoding bits: their low six bits.
pub open spec fn opcode_of(bits: u16) -> u32 {
    (bits & 0x3f) as u32
}

/// The function code held in encoding bits: the six bits above the opcode.
pub open spec fn funct_of(bits: u16) -> u32 {
    ((bits >> 6) & 0x3f) as u32
}

/// The number of a register within its bank, as instruction words hold it:
/// the low five bits of the unit.
pub open spec fn reg_field(unit: RegUnit) -> u32 {
    (unit & 0x1f) as u32
}

/// A word of the register layout.
pub open spec fn r_word(opcode: u32, shamt: u32, funct: u32, rs: u32, rt: u32, rd: u32) -> u32 {
    funct | (shamt << 6) | (rd << 11) | (rt << 16) | (rs << 21) | (opcode << 26)
}

/// A word of the immediate layout: the immediate is held in two's complement
/// in the low sixteen bits.
pub open spec fn i_word(opcode: u32, rs: u32, rt: u32, imm: i64) -> u32 {
    ((imm & 0xffff) as u32) | (rt << 16) | (rs << 21) | (opcode << 26)
}

/// A word of the jump layout: the byte offset is held without its two low
/// bits, which are zero, in two's complement in the low twenty-six bits.
pub open spec fn j_word(opcode: u32, imm: i64) -> u32 {
    (((imm >> 2) & 0x03ff_ffff) as u32) | (opcode << 26)
}

/// The immediate that a word of the immediate layout holds: its low sixteen
/// bits, read as a signed number.
pub open spec fn spec_immediate_of(word: u32) -> int {
    let low = (word & 0xffff) as int;
    if low >= 0x8000 {
        low - 0x1_0000
    } else {
        low
    }
}

/// The byte offset that a word of the jump layout holds: its low twenty-six
/// bits, read as a signed number, times four.
pub open spec fn spec_target_of(word: u32) -> int {
    let low = (word & 0x03ff_ffff) as int;
    if low >= 0x0200_0000 {
        4 * (low - 0x0400_0000)
    } else {
        4 * low
    }
}

/// Splits encoding bits into opcode and function code.
pub fn decompose_bits(bits: u16) -> (r: (u32, u32))
    ensures
        r.0 == opcode_of(bits),
        r.1 == funct_of(bits),
        r.0 < 64,
        r.1 < 64,
{
    let opcode = bits & 0x3f;
    let funct = (bits >> 6) & 0x3f;
    assert(bits & 0x3f < 64 && (bits >> 6) & 0x3f < 64) by (bit_vector);
    (opcode as u32, funct as u32)
}

/// Splits the encoding bits of a REGIMM instruction, which hold the `rt` field
/// in the place of the function code.
pub fn decompose_bits_regimm(bits: u16) -> (r: (u32, u32))
    ensures
        r.0 == opcode_of(bits),
        r.1 == funct_of(bits),
        r.0 < 64,
        r.1 < 64,
{
    decompose_bits(bits)
}

/// Writes a no-operation: the word of all zeros.
pub fn put_nop(sink: &mut CodeSink)
    ensures
        final(sink).data@ == old(sink).data@ + word_bytes(0),
        final(sink).relocs@ == old(sink).relocs@,
{
    sink.put4(0);
}

/// The number of a register within its bank.
fn reg_number(unit: RegUnit) -> (r: u32)
    ensures
        r == reg_field(unit),
        r < 32,
{
    assert(unit & 0x1f < 32) by (bit_vector);
    (unit & 0x1f) as u32
}

/// Writes a register-layout instruction with a shift amount of zero.
pub fn put_r(bits: u16, rs: RegUnit, rt: RegUnit, rd: RegUnit, sink: &mut CodeSink)
    ensures
        final(sink).data@ == old(sink).data@ + word_bytes(
            r_word(opcode_of(bits), 0, funct_of(bits), reg_field(rs), reg_field(rt), reg_field(rd)),
        ),
        final(sink).relocs@ == old(sink).relocs@,
{
    let (opcode, funct) = decompose_bits(bits);
    let rs = reg_number(rs);
    let rt = reg_number(rt);
    let rd = reg_number(rd);

    internal_put_r(opcode, 0, funct, rs, rt, rd, sink);
}

/// Writes a register-layout instruction whose shift amount is the low five
/// bits of `shamt`; the `rs` field is zero.
pub fn put_rshamt(bits: u16, rt: RegUnit, rd: RegUnit, shamt: i64, sink: &mut CodeSink)
    ensures
        final(sink).data@ == old(sink).data@ + word_bytes(
            r_word(
                opcode_of(bits),
                (shamt & 0x1f) as u32,
                funct_of(bits),
                0,
                reg_field(rt),
                reg_field(rd),
            ),
        ),
        final(sink).relocs@ == old(sink).relocs@,
{
    let (opcode, funct) = decompose_bits(bits);
    assert(0 <= shamt & 0x1f < 32) by (bit_vector);
    let shamt = (shamt & 0x1f) as u32;
    let rt = reg_number(rt);
    let rd = reg_number(rd);

    internal_put_r(opcode, shamt, funct, 0, rt, rd, sink);
}

/// Writes the register-layout word made of the given fields.
pub fn internal_put_r(
    opcode: u32,
    shamt: u32,
    funct: u32,
    rs: u32,
    rt: u32,
    rd: u32,
    sink: &mut CodeSink,
)
    ensures
        final(sink).data@ == old(sink).data@ + word_bytes(
            r_word(opcode, shamt, funct, rs, rt, rd),
        ),
        final(sink).relocs@ == old(sink).relocs@,
{
    let mut i = funct;
    i |= shamt << 6;
    i |= rd << 11;
    i |= rt << 16;
    i |= rs << 21;
    i |= opcode << 26;

    sink.put4(i);
}

/// Writes an immediate-layout instruction.
pub fn put_i(bits: u16, rs: RegUnit, rt: RegUnit, imm: i64, sink: &mut CodeSink)
    requires
        signed_int_fits(imm as int, 16, 0),
    ensures
        final(sink).data@ == old(sink).data@ + word_bytes(
            i_word(opcode_of(bits), reg_field(rs), reg_field(rt), imm),
        ),
        final(sink).relocs@ == old(sink).relocs@,
{
    let (opcode, _funct) = decompose_bits(bits);
    let rs = reg_number(rs);
    let rt = reg_number(rt);

    internal_put_i(opcode, rs, rt, imm, sink);
}

/// Writes an immediate-layout REGIMM instruction, whose `rt` field comes from
/// the encoding bits.
pub fn put_i_regimm(bits: u16, rs: RegUnit, imm: i64, sink: &mut CodeSink)
    requires
        signed_int_fits(imm as int, 16, 0),
    ensures
        final(sink).data@ == old(sink).data@ + word_bytes(
            i_word(opcode_of(bits), reg_field(rs), funct_of(bits), imm),
        ),
        final(sink).relocs@ == old(sink).relocs@,
{
    let (opcode, rt) = decompose_bits_regimm(bits);
    let rs = reg_number(rs);

    internal_put_i(opcode, rs, rt, imm, sink);
}

/// Writes the immediate-layout word made of the given fields.
pub fn internal_put_i(opcode: u32, rs: u32, rt: u32, imm: i64, sink: &mut CodeSink)
    requires
        signed_int_fits(imm as int, 16, 0),
    ensures
        final(sink).data@ == old(sink).data@ + word_bytes(i_word(opcode, rs, rt, imm)),
        final(sink).relocs@ == old(sink).relocs@,
{
    assert(0 <= imm & 0xffff <= 0xffff) by (bit_vector);
    let imm = (imm & 0xffff) as u32;

    let mut i = imm;
    i |= rt << 16;
    i |= rs << 21;
    i |= opcode << 26;

    sink.put4(i);
}

/// Writes a jump-layout instruction whose target is `imm` bytes away.
pub fn put_j(bits: u16, imm: i64, sink: &mut CodeSink)
    requires
        signed_int_fits(imm as int, 28, 2),
    ensures
        final(sink).data@ == old(sink).data@ + word_bytes(j_word(opcode_of(bits), imm)),
        final(sink).relocs@ == old(sink).relocs@,
{
    let (opcode, _funct) = decompose_bits(bits);

    assert(0 <= (imm >> 2) & 0x03ff_ffff <= 0x03ff_ffff) by (bit_vector);
    let imm = ((imm >> 2) & 0x03ff_ffff) as u32;

    let mut i = imm;
    i |= opcode << 26;

    sink.put4(i);
}

/// The immediate that a word of the immediate layout holds.
pub fn immediate_of(word: u32) -> (r: i64)
    ensures
        r == spec_immediate_of(word),
{
    assert(word & 0xffff <= 0xffff) by (bit_vector);
    let low = (word & 0xffff) as i64;
    if low >= 0x8000 {
        low - 0x1_0000
    } else {
        low
    }
}

/// An immediate that fits sixteen signed bits is read back unchanged from the
/// word it was packed into, whatever the other fields hold.
pub proof fn lemma_immediate_round_trips(opcode: u32, rs: u32, rt: u32, imm: i64)
    requires
        signed_int_fits(imm as int, 16, 0),
    ensures
        spec_immediate_of(i_word(opcode, rs, rt, imm)) == imm,
{
    lemma2_to64();
    let word = i_word(opcode, rs, rt, imm);
    assert(-0x8000 <= imm < 0x8000);
    assert((word & 0xffff) == (imm & 0xffff) as u32 && (imm >= 0 ==> (imm & 0xffff) == imm) && (imm
        < 0 ==> (imm & 0xffff) == imm + 0x1_0000)) by (bit_vector)
        requires
            word == ((imm & 0xffff) as u32) | (rt << 16) | (rs << 21) | (opcode << 26),
            -0x8000 <= imm < 0x8000,
    ;
}

/// The fields of a register-layout word are read back unchanged where each
/// fits its width.
pub proof fn lemma_register_fields_round_trip(
    opcode: u32,
    shamt: u32,
    funct: u32,
    rs: u32,
    rt: u32,
    rd: u32,
)
    requires
        opcode < 64,
        shamt < 32,
        funct < 64,
        rs < 32,
        rt < 32,
        rd < 32,
    ensures
        ({
            let word = r_word(opcode, shamt, funct, rs, rt, rd);
            &&& word >> 26 == opcode
            &&& (word >> 21) & 0x1f == rs
            &&& (word >> 16) & 0x1f == rt
            &&& (word >> 11) & 0x1f == rd
            &&& (word >> 6) & 0x1f == shamt
            &&& word & 0x3f == funct
        }),
{
    let word = r_word(opcode, shamt, funct, rs, rt, rd);
    assert(word >> 26 == opcode && (word >> 21) & 0x1f == rs && (word >> 16) & 0x1f == rt && (word
        >> 11) & 0x1f == rd && (word >> 6) & 0x1f == shamt && word & 0x3f == funct) by (bit_vector)
        requires
            word == funct | (shamt << 6) | (rd << 11) | (rt << 16) | (rs << 21) | (opcode << 26),
            opcode < 64,
            shamt < 32,
            funct < 64,
            rs < 32,
            rt < 32,
            rd < 32,
    ;
}

/// A byte offset that fits twenty-eight signed bits and is a multiple of four
/// is read back unchanged from the jump word it was packed into, and so is
/// the opcode.
pub proof fn lemma_jump_target_round_trips(opcode: u32, imm: i64)
    requires
        opcode < 64,
        signed_int_fits(imm as int, 28, 2),
    ensures
        spec_target_of(j_word(opcode, imm)) == imm,
        j_word(opcode, imm) >> 26 == opcode,
{
    lemma2_to64();
    let word = j_word(opcode, imm);
    let field = (imm >> 2) & 0x03ff_ffff;
    assert(-0x0800_0000 <= imm < 0x0800_0000);
    assert(imm as int % 4 == 0);
    assert(imm & 3 == 0) by (bit_vector)
        requires
            imm % 4 == 0,
    ;
    assert(word >> 26 == opcode && (word & 0x03ff_ffff) == field as u32 && 0 <= field
        <= 0x03ff_ffff && (imm >= 0 ==> 4 * field == imm && field < 0x0200_0000) && (imm < 0 ==> 4
        * (field - 0x0400_0000) == imm && field >= 0x0200_0000)) by (bit_vector)
        requires
            word == (((imm >> 2) & 0x03ff_ffff) as u32) | (opcode << 26),
            field == (imm >> 2) & 0x03ff_ffff,
            -0x0800_0000 <= imm < 0x0800_0000,
            imm & 3 == 0,
            opcode < 64,
    ;
}

/// Whether an instruction can be emitted: it has an encoding whose recipe
/// accepts it, and it defines a value where the recipe writes a register.
pub open spec fn emittable(inst: Inst) -> bool {
    inst.encoding matches Some(enc) && recipe_accepts(enc.recipe, inst.data) && (enc.recipe
        == RECIPE_R || enc.recipe == RECIPE_RSHAMT || enc.recipe == RECIPE_I
        ==> inst.result is Some)
}

/// Whether an instruction can be emitted.
pub fn can_emit(inst: &Inst) -> (r: bool)
    ensures
        r == emittable(*inst),
{
    match inst.encoding {
        Some(enc) => recipe_predicate(enc.recipe, &inst.data) && (inst.result.is_some() || !(
        enc.recipe == RECIPE_R || enc.recipe == RECIPE_RSHAMT || enc.recipe == RECIPE_I)),
        None => false,
    }
}

/// The word of an instruction that can be emitted, with its values in the
/// registers that the diversions and the locations say.
///
/// The register layout takes `rs` and `rt` from the two operands and `rd`
/// from the result; with a shift amount it takes `rt` from the operand. The
/// immediate layout takes `rs` from the operand and `rt` from the result; a
/// REGIMM branch takes `rt` from its encoding bits. A call has a target of
/// zero, which the linker fills in.
pub open spec fn inst_word(inst: Inst, current: Seq<Diversion>, locations: Seq<RegUnit>) -> u32 {
    let bits = inst.encoding.unwrap().bits;
    let recipe = inst.encoding.unwrap().recipe;
    let result = reg_field(register_of(current, locations, inst.result.unwrap()));
    match inst.data {
        InstructionData::NullAry { .. } => 0,
        InstructionData::Binary { lhs, rhs, .. } => r_word(
            opcode_of(bits),
            0,
            funct_of(bits),
            reg_field(register_of(current, locations, lhs)),
            reg_field(register_of(current, locations, rhs)),
            result,
        ),
        InstructionData::BinaryImm { arg, imm, .. } => if recipe == RECIPE_RSHAMT {
            r_word(
                opcode_of(bits),
                (imm & 0x1f) as u32,
                funct_of(bits),
                0,
                reg_field(register_of(current, locations, arg)),
                result,
            )
        } else {
            i_word(opcode_of(bits), reg_field(register_of(current, locations, arg)), result, imm)
        },
        InstructionData::Branch { arg, offset, .. } => i_word(
            opcode_of(bits),
            reg_field(register_of(current, locations, arg)),
            funct_of(bits),
            offset,
        ),
        InstructionData::Jump { offset, .. } => j_word(opcode_of(bits), offset),
        InstructionData::Call { .. } => j_word(opcode_of(bits), 0),
    }
}

/// The relocations that an instruction asks for when it is emitted at
/// `offset`: a call asks for its target.
pub open spec fn inst_relocs(inst: Inst, offset: int) -> Seq<RelocRecord> {
    match inst.data {
        InstructionData::Call { func_ref, .. } => seq![
            RelocRecord {
                offset: offset as usize,
                kind: Reloc::Jump26,
                target: func_ref,
                addend: 0,
            },
        ],
        _ => Seq::empty(),
    }
}

/// Emits the instruction at `at`: one word, and before it the relocation
/// that it asks for.
pub fn emit_inst(func: &Function, at: usize, divert: &RegDiversions, sink: &mut CodeSink)
    requires
        func.wf(),
        at < func.insts@.len(),
        emittable(func.insts@[at as int]),
    ensures
        final(sink).data@ == old(sink).data@ + word_bytes(
            inst_word(func.insts@[at as int], divert.current@, func.locations@),
        ),
        final(sink).relocs@ == old(sink).relocs@ + inst_relocs(
            func.insts@[at as int],
            old(sink).data@.len() as int,
        ),
{
    let inst = func.insts[at];
    let bits = match inst.encoding {
        Some(enc) => enc.bits,
        None => 0,
    };
    proof {
        lemma2_to64();
    }
    match inst.data {
        InstructionData::NullAry { .. } => {
            put_nop(sink);
        },
        InstructionData::Binary { lhs, rhs, .. } => {
            let rs = divert.reg(lhs, &func.locations);
            let rt = divert.reg(rhs, &func.locations);
            let rd = divert.reg(result_of(&inst), &func.locations);
            put_r(bits, rs, rt, rd, sink);
        },
        InstructionData::BinaryImm { arg, imm, .. } => {
            let operand = divert.reg(arg, &func.locations);
            let result = divert.reg(result_of(&inst), &func.locations);
            if is_recipe(&inst, RECIPE_RSHAMT) {
                put_rshamt(bits, operand, result, imm, sink);
            } else {
                put_i(bits, operand, result, imm, sink);
            }
        },
        InstructionData::Branch { arg, offset, .. } => {
            let rs = divert.reg(arg, &func.locations);
            put_i_regimm(bits, rs, offset, sink);
        },
        InstructionData::Jump { offset, .. } => {
            put_j(bits, offset, sink);
        },
        InstructionData::Call { func_ref, .. } => {
            sink.reloc_external(Reloc::Jump26, func_ref, 0);
            assert(signed_int_fits(0, 28, 2));
            put_j(bits, 0, sink);
        },
    }
    assert(final(sink).relocs@ =~= old(sink).relocs@ + inst_relocs(
        func.insts@[at as int],
        old(sink).data@.len() as int,
    ));
}

/// The value that an instruction defines.
fn result_of(inst: &Inst) -> (r: u32)
    requires
        inst.result is Some,
    ensures
        Some(r) == inst.result,
{
    match inst.result {
        Some(v) => v,
        None => 0,
    }
}

/// Whether the encoding of an instruction has the given recipe.
fn is_recipe(inst: &Inst, recipe: u16) -> (r: bool)
    ensures
        r == (inst.encoding matches Some(enc) && enc.recipe == recipe),
{
    match inst.encoding {
        Some(enc) => enc.recipe == recipe,
        None => false,
    }
}

/// The code of the first `n` instructions.
pub open spec fn code_upto(insts: Seq<Inst>, locations: Seq<RegUnit>, n: int) -> Seq<u8>
    decreases n,
{
    if n <= 0 {
        Seq::empty()
    } else {
        code_upto(insts, locations, n - 1) + word_bytes(
            inst_word(insts[n - 1], Seq::empty(), locations),
        )
    }
}

/// The relocations of the first `n` instructions, where the code begins at
/// `base`: each instruction takes four bytes.
pub open spec fn relocs_upto(insts: Seq<Inst>, base: int, n: int) -> Seq<RelocRecord>
    decreases n,
{
    if n <= 0 {
        Seq::empty()
    } else {
        relocs_upto(insts, base, n - 1) + inst_relocs(insts[n - 1], base + 4 * (n - 1))
    }
}

/// The code of `n` instructions takes four bytes each.
pub proof fn lemma_code_len(insts: Seq<Inst>, locations: Seq<RegUnit>, n: int)
    requires
        0 <= n,
    ensures
        code_upto(insts, locations, n).len() == 4 * n,
    decreases n,
{
    if n > 0 {
        lemma_code_len(insts, locations, n - 1);
    }
}

/// Whether every instruction can be emitted.
pub open spec fn all_emittable(insts: Seq<Inst>) -> bool {
    forall|i: int| 0 <= i < insts.len() ==> emittable(#[trigger] insts[i])
}

/// Emits the instructions of a function in program order, each value in its
/// own register.
pub fn emit_function(func: &Function, sink: &mut CodeSink)
    requires
        func.wf(),
        all_emittable(func.insts@),
    ensures
        final(sink).data@ == old(sink).data@ + code_upto(
            func.insts@,
            func.locations@,
            func.insts@.len() as int,
        ),
        final(sink).relocs@ == old(sink).relocs@ + relocs_upto(
            func.insts@,
            old(sink).data@.len() as int,
            func.insts@.len() as int,
        ),
{
    let divert = RegDiversions::new();
    let mut at: usize = 0;
    assert(sink.data@ =~= old(sink).data@ + code_upto(func.insts@, func.locations@, 0));
    assert(sink.relocs@ =~= old(sink).relocs@ + relocs_upto(
        func.insts@,
        old(sink).data@.len() as int,
        0,
    ));
    while at < func.insts.len()
        invariant
            at <= func.insts@.len(),
            func.wf(),
            all_emittable(func.insts@),
            divert.current@ == Seq::<Diversion>::empty(),
            sink.data@ == old(sink).data@ + code_upto(func.insts@, func.locations@, at as int),
            sink.relocs@ == old(sink).relocs@ + relocs_upto(
                func.insts@,
                old(sink).data@.len() as int,
                at as int,
            ),
        decreases func.insts@.len() - at,
    {
        proof {
            lemma_code_len(func.insts@, func.locations@, at as int);
        }
        let ghost before = sink.data@;
        let ghost relocs_before = sink.relocs@;
        emit_inst(func, at, &divert, sink);
        at += 1;
        assert(sink.data@ =~= old(sink).data@ + code_upto(func.insts@, func.locations@, at as int));
        assert(sink.relocs@ =~= old(sink).relocs@ + relocs_upto(
            func.insts@,
            old(sink).data@.len() as int,
            at as int,
        ));
    }
}

} // verus!
