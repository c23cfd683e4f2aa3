//! The MIPS instruction set architecture, as the code generator sees it.

use vstd::prelude::*;
use target_lexicon::Triple;
use crate::abi;
use crate::abi::{is_reserved, legalized_list, signature_fits};
use crate::binemit;
use crate::binemit::{
    all_emittable, code_upto, emittable, inst_relocs, inst_word, relocs_upto, word_bytes,
    CodeSink,
};
use crate::enc_tables::{
    doubleword_type, is_mips_mode, mips32, mips64, mips_candidates, mips_legalize, no_type,
    word_type,
};
use crate::encoding::{
    accepted_from, enc_info, lookup_enclist, recipe_has_delay_slot, CpuMode, EncInfo, Encodings,
    Legalize, RECIPE_I, RECIPE_NOP,
};
use crate::ir::{Encoding, Function, Inst, InstructionData, Opcode, Signature};
use crate::predicates::signed_int_fits;
use crate::regalloc::{RegDiversions, RegisterSet};
use crate::registers::{
    banks_wf, fpr_class, gpr_class, info, mips_banks, RegClass, RegInfo, RegUnit, MAX_UNITS,
};
use crate::settings::{Builder, Flags, SharedFlags};
use crate::triple::{pointer_bits, triple_pointer_bits};
use crate::types::{invalid, LaneKind, Type};

verus! {

/// A MIPS target: the triple it was made for, its settings, and the encoding
/// tables of its mode of operation.
pub struct Isa {
    triple: Triple,
    shared_flags: SharedFlags,
    isa_flags: Flags,
    pointer_bits: u8,
    cpumode: CpuMode,
}

/// Collects what a MIPS target is made of.
pub struct IsaBuilder {
    pub triple: Triple,
    pub setup: Builder,
}

/// A builder of MIPS targets for `triple`, with the settings at their
/// defaults.
pub fn isa_builder(triple: Triple) -> (r: IsaBuilder)
    ensures
        r.triple == triple,
        r.setup == (Builder { supports_lext: false, enable_lext: true }),
{
    IsaBuilder { triple, setup: Builder::new() }
}

/// The number of bits of a pointer of the triple, where MIPS has a mode of
/// operation for it: 32 or 64.
pub open spec fn mode_bits(triple: Triple) -> Option<u8> {
    match triple_pointer_bits(triple) {
        Some(bits) => if bits == 32 || bits == 64 {
            Some(bits)
        } else {
            None
        },
        None => None,
    }
}

/// Makes the MIPS target for a triple whose pointers have 32 or 64 bits.
pub fn isa_constructor(triple: Triple, shared_flags: SharedFlags, builder: Builder) -> (r: Isa)
    requires
        mode_bits(triple) is Some,
    ensures
        r.wf(),
        r.spec_triple() == triple,
        r.spec_pointer_bits() == mode_bits(triple).unwrap(),
        r.spec_shared_flags() == shared_flags,
        r.spec_isa_flags().supports_lext == builder.supports_lext,
        r.spec_isa_flags().enable_lext == builder.enable_lext,
{
    let bits = match pointer_bits(&triple) {
        Some(bits) => bits,
        None => 0,
    };
    let cpumode = if bits == 32 {
        mips32()
    } else {
        mips64()
    };
    Isa {
        triple,
        isa_flags: Flags::new(&shared_flags, builder),
        shared_flags,
        pointer_bits: bits,
        cpumode,
    }
}

impl IsaBuilder {
    /// Makes the target, where MIPS has a mode of operation for the pointers
    /// of the triple.
    pub fn finish(self, shared_flags: SharedFlags) -> (r: Option<Isa>)
        ensures
            r is Some == mode_bits(self.triple) is Some,
            r matches Some(isa) ==> {
                &&& isa.wf()
                &&& isa.spec_triple() == self.triple
                &&& isa.spec_pointer_bits() == mode_bits(self.triple).unwrap()
                &&& isa.spec_shared_flags() == shared_flags
                &&& isa.spec_isa_flags().supports_lext == self.setup.supports_lext
                &&& isa.spec_isa_flags().enable_lext == self.setup.enable_lext
            },
    {
        let supported = match pointer_bits(&self.triple) {
            Some(bits) => bits == 32 || bits == 64,
            None => false,
        };
        if supported {
            Some(isa_constructor(self.triple, shared_flags, self.setup))
        } else {
            None
        }
    }
}

/// The no-operation that fills a delay slot, with its encoding.
pub open spec fn nop_inst() -> Inst {
    Inst {
        data: InstructionData::NullAry { opcode: Opcode::Nop },
        result: None,
        encoding: Some(Encoding { recipe: RECIPE_NOP, bits: 0 }),
    }
}

/// Whether an instruction is followed by a delay slot: it has an encoding,
/// and the encoding is that of a branch or a jump.
pub open spec fn has_delay_slot(inst: Inst) -> bool {
    inst.encoding matches Some(enc) && recipe_has_delay_slot(enc.recipe)
}

/// Whether every instruction with a delay slot is followed, right after it,
/// by the no-operation.
pub open spec fn delay_slots_filled(insts: Seq<Inst>) -> bool {
    forall|i: int|
        0 <= i < insts.len() && has_delay_slot(#[trigger] insts[i]) ==> i + 1 < insts.len()
            && insts[i + 1] == nop_inst()
}

/// The instructions with a no-operation put in behind each one that has a
/// delay slot.
pub open spec fn with_delay_slots(insts: Seq<Inst>) -> Seq<Inst>
    decreases insts.len(),
{
    if insts.len() == 0 {
        Seq::empty()
    } else if has_delay_slot(insts.last()) {
        with_delay_slots(insts.drop_last()).push(insts.last()).push(nop_inst())
    } else {
        with_delay_slots(insts.drop_last()).push(insts.last())
    }
}

/// Once the no-operations are put in, every delay slot is filled.
pub proof fn lemma_delay_slots_filled(insts: Seq<Inst>)
    ensures
        delay_slots_filled(with_delay_slots(insts)),
    decreases insts.len(),
{
    if insts.len() > 0 {
        lemma_delay_slots_filled(insts.drop_last());
    }
}

/// Adding a constant is laid out by the immediate recipe alone, with the
/// bits of `addiu` for 32-bit integers and, in 64-bit operation, of `daddiu`
/// for 64-bit integers, and only where the constant fits sixteen signed bits:
/// with any other constant the instruction has no legal encoding.
pub proof fn lemma_add_immediate_encodings(
    wide: bool,
    ty: Type,
    inst: InstructionData,
    flags: Flags,
)
    requires
        inst matches InstructionData::BinaryImm { opcode, .. } && opcode == Opcode::IaddImm,
    ensures
        accepted_from(mips_candidates(wide, ty, Opcode::IaddImm), 0, inst, flags) == if
            !signed_int_fits(inst->BinaryImm_imm as int, 16, 0) {
            Seq::<Encoding>::empty()
        } else if ty == word_type() {
            seq![Encoding { recipe: RECIPE_I, bits: 0x09 }]
        } else if wide && ty == doubleword_type() {
            seq![Encoding { recipe: RECIPE_I, bits: 0x19 }]
        } else {
            Seq::<Encoding>::empty()
        },
{
    reveal_with_fuel(accepted_from, 2);
    let found = accepted_from(mips_candidates(wide, ty, Opcode::IaddImm), 0, inst, flags);
    if !signed_int_fits(inst->BinaryImm_imm as int, 16, 0) {
        assert(found =~= Seq::<Encoding>::empty());
    } else if ty == word_type() {
        assert(found =~= seq![Encoding { recipe: RECIPE_I, bits: 0x09 }]);
    } else if wide && ty == doubleword_type() {
        assert(found =~= seq![Encoding { recipe: RECIPE_I, bits: 0x19 }]);
    } else {
        assert(found =~= Seq::<Encoding>::empty());
    }
}

impl Isa {
    /// The target is consistent: its mode of operation is that of the
    /// triple's pointers, its tables are those of MIPS for that mode, and the
    /// predicates of its settings are computed.
    pub closed spec fn wf(self) -> bool {
        &&& mode_bits(self.triple) == Some(self.pointer_bits)
        &&& is_mips_mode(self.cpumode, self.pointer_bits == 64)
        &&& self.isa_flags.wf()
    }

    /// The triple that the target was made for.
    pub closed spec fn spec_triple(self) -> Triple {
        self.triple
    }

    /// The number of bits of a pointer.
    pub closed spec fn spec_pointer_bits(self) -> u8 {
        self.pointer_bits
    }

    /// The shared settings.
    pub closed spec fn spec_shared_flags(self) -> SharedFlags {
        self.shared_flags
    }

    /// The MIPS settings.
    pub closed spec fn spec_isa_flags(self) -> Flags {
        self.isa_flags
    }

    /// A consistent target works on pointers of 32 or 64 bits, and its
    /// settings are consistent.
    pub proof fn lemma_wf(self)
        requires
            self.wf(),
        ensures
            self.spec_pointer_bits() == 32 || self.spec_pointer_bits() == 64,
            mode_bits(self.spec_triple()) == Some(self.spec_pointer_bits()),
            self.spec_isa_flags().wf(),
    {
    }

    /// The legal encodings of an instruction with a controlling type on this
    /// target, best first.
    pub open spec fn spec_legal_encodings(self, inst: InstructionData, ctrl_typevar: Type) -> Seq<
        Encoding,
    > {
        accepted_from(
            mips_candidates(self.spec_pointer_bits() == 64, ctrl_typevar, inst.spec_opcode()),
            0,
            inst,
            self.spec_isa_flags(),
        )
    }

    /// The name of the architecture.
    pub fn name(&self) -> (r: &'static str)
        ensures
            r@ == "mips"@,
    {
        "mips"
    }

    /// The triple that the target was made for.
    pub fn triple(&self) -> (r: &Triple)
        ensures
            *r == self.spec_triple(),
    {
        &self.triple
    }

    /// Whether branches and jumps are followed by a delay slot: on MIPS they
    /// are.
    pub fn has_delay_slot(&self) -> (r: bool)
        ensures
            r,
    {
        true
    }

    /// The shared settings.
    pub fn flags(&self) -> (r: &SharedFlags)
        ensures
            *r == self.spec_shared_flags(),
    {
        &self.shared_flags
    }

    /// The MIPS settings.
    pub fn isa_flags(&self) -> (r: &Flags)
        ensures
            *r == self.spec_isa_flags(),
    {
        &self.isa_flags
    }

    /// The number of bits of a pointer.
    pub fn pointer_bits(&self) -> (r: u8)
        ensures
            r == self.spec_pointer_bits(),
    {
        self.pointer_bits
    }

    /// The register file.
    pub fn register_info(&self) -> (r: RegInfo)
        ensures
            r@ == mips_banks(),
            banks_wf(r@),
    {
        info()
    }

    /// What is known of the recipes.
    pub fn encoding_info(&self) -> (r: EncInfo)
        ensures
            r.wf(),
    {
        enc_info()
    }

    /// The legal encodings of an instruction with a controlling type, best
    /// first, to be asked for one at a time.
    pub fn legal_encodings<'a>(
        &'a self,
        func: &'a Function,
        inst: &'a InstructionData,
        ctrl_typevar: Type,
    ) -> (r: Encodings<'a>)
        requires
            self.wf(),
        ensures
            r.remaining() == self.spec_legal_encodings(*inst, ctrl_typevar),
            r.spec_legalize() == mips_legalize(self.spec_pointer_bits() == 64, ctrl_typevar),
    {
        lookup_enclist(ctrl_typevar, inst, &self.cpumode, &self.isa_flags)
    }

    /// The best legal encoding of an instruction with a controlling type or,
    /// where it has none, what to do with the instruction instead.
    pub fn encode(&self, func: &Function, inst: &InstructionData, ctrl_typevar: Type) -> (r: Result<
        Encoding,
        Legalize,
    >)
        requires
            self.wf(),
        ensures
            r == if self.spec_legal_encodings(*inst, ctrl_typevar).len() > 0 {
                Ok::<Encoding, Legalize>(self.spec_legal_encodings(*inst, ctrl_typevar)[0])
            } else {
                Err::<Encoding, Legalize>(
                    mips_legalize(self.spec_pointer_bits() == 64, ctrl_typevar),
                )
            },
    {
        let mut encodings = self.legal_encodings(func, inst, ctrl_typevar);
        match encodings.next() {
            Some(enc) => Ok(enc),
            None => Err(encodings.legalize()),
        }
    }

    /// Legalizes `sig` for this target.
    pub fn legalize_signature(&self, sig: &mut Signature, current: bool)
        requires
            self.wf(),
            signature_fits(self.spec_pointer_bits(), *old(sig)),
        ensures
            final(sig).params@ == legalized_list(
                self.spec_pointer_bits(),
                false,
                old(sig).params@,
                current,
            ),
            final(sig).returns@ == legalized_list(
                self.spec_pointer_bits(),
                true,
                old(sig).returns@,
                current,
            ),
    {
        abi::legalize_signature(sig, &self.triple, &self.isa_flags, current)
    }

    /// The register class for a type that appears in a legalized signature.
    pub fn regclass_for_abi_type(&self, ty: Type) -> (r: RegClass)
        ensures
            r == if ty.kind == LaneKind::Float {
                fpr_class()
            } else {
                gpr_class()
            },
    {
        abi::regclass_for_abi_type(ty)
    }

    /// The units that the values of `func` may be allocated to.
    pub fn allocatable_registers(&self, func: &Function) -> (regs: RegisterSet)
        ensures
            regs@ =~= Set::new(|unit: RegUnit| unit < MAX_UNITS && !is_reserved(unit)),
    {
        abi::allocatable_registers(func, &self.isa_flags)
    }

    /// Emits the instruction at `at`.
    pub fn emit_inst(&self, func: &Function, at: usize, divert: &RegDiversions, sink: &mut CodeSink)
        requires
            func.wf(),
            at < func.insts@.len(),
            emittable(func.insts@[at as int]),
        ensures
            final(sink).data@ == old(sink).data@ + word_bytes(
                inst_word(func.insts@[at as int], divert.current@, func.locations@),
            ),
            final(sink).relocs@ == old(sink).relocs@ + inst_relocs(
                func.insts@[at as int],
                old(sink).data@.len() as int,
            ),
    {
        binemit::emit_inst(func, at, divert, sink)
    }

    /// Emits the instructions of `func` in program order.
    pub fn emit_function_to_memory(&self, func: &Function, sink: &mut CodeSink)
        requires
            func.wf(),
            all_emittable(func.insts@),
        ensures
            final(sink).data@ == old(sink).data@ + code_upto(
                func.insts@,
                func.locations@,
                func.insts@.len() as int,
            ),
            final(sink).relocs@ == old(sink).relocs@ + relocs_upto(
                func.insts@,
                old(sink).data@.len() as int,
                func.insts@.len() as int,
            ),
    {
        binemit::emit_function(func, sink)
    }

    /// Fills the delay slot of the instruction at `at`: a no-operation, with
    /// its encoding, is put in right behind it.
    pub fn fill_delay_slot_for_inst(
        &self,
        func: &mut Function,
        at: usize,
        divert: &RegDiversions,
        encinfo: &EncInfo,
    )
        requires
            self.wf(),
            old(func).wf(),
            at < old(func).insts@.len(),
        ensures
            final(func).wf(),
            final(func).insts@ == old(func).insts@.insert(at + 1, nop_inst()),
            final(func).value_types@ == old(func).value_types@,
            final(func).locations@ == old(func).locations@,
            final(func).signature == old(func).signature,
    {
        let data = InstructionData::NullAry { opcode: Opcode::Nop };
        proof {
            let candidates = mips_candidates(self.pointer_bits == 64, no_type(), Opcode::Nop);
            reveal_with_fuel(accepted_from, 2);
            assert(accepted_from(candidates, 0, data, self.isa_flags) =~= seq![
                Encoding { recipe: RECIPE_NOP, bits: 0 },
            ]);
        }
        let encoding = match self.encode(func, &data, invalid()) {
            Ok(enc) => Some(enc),
            Err(_) => None,
        };
        let len = func.insts.len();
        func.insts.insert(at + 1, Inst { data, result: None, encoding });
        proof {
            let before = old(func).insts@;
            let after = func.insts@;
            assert forall|i: int| 0 <= i < after.len() implies {
                let inst = #[trigger] after[i];
                &&& inst.data.args_below(func.value_types@.len() as int)
                &&& (inst.result matches Some(v) ==> v < func.value_types@.len())
            } by {
                if i <= at {
                    assert(after[i] == before[i]);
                } else if i > at + 1 {
                    assert(after[i] == before[i - 1]);
                }
            }
        }
    }

    /// Fills every delay slot of `func`: behind each branch and each jump a
    /// no-operation is put in, and nothing else changes. After that, every
    /// instruction with a delay slot is followed by a no-operation.
    pub fn fill_delay_slots(&self, func: &mut Function, divert: &RegDiversions, encinfo: &EncInfo)
        requires
            self.wf(),
            old(func).wf(),
        ensures
            final(func).wf(),
            final(func).insts@ == with_delay_slots(old(func).insts@),
            delay_slots_filled(final(func).insts@),
            final(func).value_types@ == old(func).value_types@,
            final(func).locations@ == old(func).locations@,
            final(func).signature == old(func).signature,
    {
        let mut at: usize = 0;
        let ghost mut done: int = 0;
        let ghost before = old(func).insts@;
        assert(before.take(0) =~= Seq::<Inst>::empty());
        assert(func.insts@ =~= with_delay_slots(before.take(0)) + before.skip(0));
        while at < func.insts.len()
            invariant
                self.wf(),
                func.wf(),
                0 <= done <= before.len(),
                before == old(func).insts@,
                at == with_delay_slots(before.take(done)).len(),
                func.insts@ == with_delay_slots(before.take(done)) + before.skip(done),
                func.value_types@ == old(func).value_types@,
                func.locations@ == old(func).locations@,
                func.signature == old(func).signature,
            decreases before.len() - done,
        {
            let ghost filled = with_delay_slots(before.take(done));
            assert(done < before.len());
            assert(func.insts@[at as int] == before[done]);
            let inst = func.insts[at];
            let slot = match inst.encoding {
                Some(enc) => encinfo.has_delay_slot(enc),
                None => false,
            };
            proof {
                assert(before.take(done + 1).drop_last() =~= before.take(done));
                assert(before.take(done + 1).last() == before[done]);
            }
            if slot {
                self.fill_delay_slot_for_inst(func, at, divert, encinfo);
                assert(func.insts@ =~= with_delay_slots(before.take(done + 1)) + before.skip(
                    done + 1,
                ));
                let len = func.insts.len();
                at += 2;
            } else {
                assert(func.insts@ =~= with_delay_slots(before.take(done + 1)) + before.skip(
                    done + 1,
                ));
                at += 1;
            }
            proof {
                done = done + 1;
            }
        }
        proof {
            assert(before.take(done) =~= before);
            assert(func.insts@ =~= with_delay_slots(before));
            lemma_delay_slots_filled(before);
        }
    }
}

} // verus!
