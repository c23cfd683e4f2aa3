use mips_backend::binemit::{
    can_emit, decompose_bits, decompose_bits_regimm, emit_function, emit_inst, immediate_of,
    internal_put_i, internal_put_r, put_i, put_i_regimm, put_j, put_nop, put_r, put_rshamt,
    CodeSink, Reloc, RelocRecord,
};
use mips_backend::ir::{Encoding, Function, Inst, InstructionData, Opcode};
use mips_backend::predicates::is_signed_int;
use mips_backend::regalloc::RegDiversions;
use mips_backend::types;

fn word(sink: &CodeSink, at: usize) -> u32 {
    let b = &sink.data[4 * at..4 * at + 4];
    u32::from_le_bytes([b[0], b[1], b[2], b[3]])
}

#[test]
fn encoding_bits_hold_opcode_and_function() {
    assert_eq!(decompose_bits(0x840), (0, 0x21));
    assert_eq!(decompose_bits(0x09c), (0x1c, 0x02));
    assert_eq!(decompose_bits(0x019), (0x19, 0));
    assert_eq!(decompose_bits(0xffff), (0x3f, 0x3f));
    assert_eq!(decompose_bits_regimm(0x041), (1, 1));
}

#[test]
fn register_layout_words() {
    let mut sink = CodeSink::new();
    // addu $v0, $a0, $a1
    put_r(0x840, 4, 5, 2, &mut sink);
    assert_eq!(word(&sink, 0), 0x0085_1021);
    assert_eq!(sink.data, vec![0x21, 0x10, 0x85, 0x00]);
    // Floating-point units are numbered within their bank.
    put_r(0x840, 32 + 4, 32 + 5, 32 + 2, &mut sink);
    assert_eq!(word(&sink, 1), 0x0085_1021);
    // sll $v0, $a0, 3
    put_rshamt(0x000, 4, 2, 3, &mut sink);
    assert_eq!(word(&sink, 2), 0x0004_10c0);
    // The shift amount is cut to five bits.
    put_rshamt(0x000, 4, 2, 32 + 3, &mut sink);
    assert_eq!(word(&sink, 3), 0x0004_10c0);
    put_rshamt(0xe00, 4, 2, -1, &mut sink);
    assert_eq!(word(&sink, 4), 0x0004_17f8);
    internal_put_r(0x1c, 0, 0x02, 4, 5, 2, &mut sink);
    assert_eq!(word(&sink, 5), 0x7085_1002);
    put_nop(&mut sink);
    assert_eq!(word(&sink, 6), 0);
    assert_eq!(sink.offset(), 28);
    assert!(sink.relocs.is_empty());
}

#[test]
fn immediate_layout_words() {
    let mut sink = CodeSink::new();
    // addiu $v0, $a0, -10
    put_i(0x009, 4, 2, -10, &mut sink);
    assert_eq!(word(&sink, 0), 0x2482_fff6);
    // daddiu $v0, $a0, 10
    put_i(0x019, 4, 2, 10, &mut sink);
    assert_eq!(word(&sink, 1), 0x6482_000a);
    // bgez $a0, 4
    put_i_regimm(0x041, 4, 4, &mut sink);
    assert_eq!(word(&sink, 2), 0x0481_0004);
    // bltz $a0, -4
    put_i_regimm(0x001, 4, -4, &mut sink);
    assert_eq!(word(&sink, 3), 0x0480_fffc);
    internal_put_i(0x09, 4, 2, 32767, &mut sink);
    assert_eq!(word(&sink, 4), 0x2482_7fff);
    internal_put_i(0x09, 4, 2, -32768, &mut sink);
    assert_eq!(word(&sink, 5), 0x2482_8000);
}

#[test]
fn jump_layout_words() {
    let mut sink = CodeSink::new();
    put_j(0x002, 8, &mut sink);
    assert_eq!(word(&sink, 0), 0x0800_0002);
    put_j(0x003, 0, &mut sink);
    assert_eq!(word(&sink, 1), 0x0c00_0000);
    // A negative offset stays within the target field.
    put_j(0x002, -4, &mut sink);
    assert_eq!(word(&sink, 2), 0x0bff_ffff);
    put_j(0x002, (1 << 27) - 4, &mut sink);
    assert_eq!(word(&sink, 3), 0x09ff_ffff);
    put_j(0x002, -(1 << 27), &mut sink);
    assert_eq!(word(&sink, 4), 0x0a00_0000);
}

#[test]
fn every_immediate_round_trips() {
    for imm in -32768i64..=32767 {
        assert!(is_signed_int(imm, 16, 0));
        let mut sink = CodeSink::new();
        put_i(0x019, 31, 17, imm, &mut sink);
        let w = word(&sink, 0);
        assert_eq!(immediate_of(w), imm);
        assert_eq!(w >> 16, (0x19 << 10) | (31 << 5) | 17);
    }
}

#[test]
fn signed_ranges() {
    assert!(!is_signed_int(32768, 16, 0));
    assert!(!is_signed_int(-32769, 16, 0));
    assert!(is_signed_int(32767, 16, 0));
    assert!(is_signed_int(-32768, 16, 0));
    assert!(is_signed_int(0, 1, 0));
    assert!(is_signed_int(-1, 1, 0));
    assert!(!is_signed_int(1, 1, 0));
    assert!(is_signed_int((1 << 27) - 4, 28, 2));
    assert!(!is_signed_int((1 << 27) - 3, 28, 2));
    assert!(!is_signed_int(1 << 27, 28, 2));
    assert!(is_signed_int(-(1 << 27), 28, 2));
    assert!(!is_signed_int(-(1 << 27) - 4, 28, 2));
    assert!(is_signed_int(-8, 28, 2));
    assert!(!is_signed_int(-6, 28, 2));
    assert!(is_signed_int(i64::MAX, 64, 0));
    assert!(is_signed_int(i64::MIN, 64, 0));
    assert!(is_signed_int(i64::MIN, 64, 63));
    assert!(is_signed_int(0, 64, 63));
    assert!(!is_signed_int(i64::MAX, 64, 1));
    assert!(!is_signed_int(i64::MAX, 63, 0));
    assert!(is_signed_int((1 << 62) - 1, 63, 0));
}

#[test]
fn instructions_into_words() {
    let mut func = Function::new();
    let a = func.make_value(types::int32(), 4);
    let b = func.make_value(types::int32(), 5);
    let c = func.make_value(types::int32(), 2);
    let add = InstructionData::Binary { opcode: Opcode::Iadd, lhs: a, rhs: b };
    let shl = InstructionData::BinaryImm { opcode: Opcode::IshlImm, arg: a, imm: 3 };
    let add_imm = InstructionData::BinaryImm { opcode: Opcode::IaddImm, arg: a, imm: -10 };
    let bgez = InstructionData::Branch { opcode: Opcode::BranchGez, arg: a, offset: 4 };
    let jump = InstructionData::Jump { opcode: Opcode::Jump, offset: 8 };
    let call = InstructionData::Call { opcode: Opcode::Call, func_ref: 9 };
    let nop = InstructionData::NullAry { opcode: Opcode::Nop };
    let list = [
        (add, Some(c), Encoding::new(0, 0x840)),
        (shl, Some(c), Encoding::new(1, 0x000)),
        (add_imm, Some(c), Encoding::new(2, 0x009)),
        (bgez, None, Encoding::new(3, 0x041)),
        (jump, None, Encoding::new(4, 0x002)),
        (call, None, Encoding::new(4, 0x003)),
        (nop, None, Encoding::new(5, 0x000)),
    ];
    for (data, result, enc) in list {
        let at = func.append_inst(data, result);
        func.insts[at].encoding = Some(enc);
    }
    let expected =
        [0x0085_1021u32, 0x0004_10c0, 0x2482_fff6, 0x0481_0004, 0x0800_0002, 0x0c00_0000, 0];

    let mut sink = CodeSink::new();
    emit_function(&func, &mut sink);
    assert_eq!(sink.data.len(), 28);
    for (i, w) in expected.iter().enumerate() {
        assert_eq!(word(&sink, i), *w, "instruction {}", i);
    }
    assert_eq!(
        sink.relocs,
        vec![RelocRecord { offset: 20, kind: Reloc::Jump26, target: 9, addend: 0 }]
    );

    // One at a time, with a value held elsewhere for the moment.
    let mut divert = RegDiversions::new();
    divert.divert(a, 6);
    divert.divert(a, 7);
    assert_eq!(divert.reg(a, &func.locations), 7);
    assert_eq!(divert.reg(b, &func.locations), 5);
    let mut sink = CodeSink::new();
    emit_inst(&func, 0, &divert, &mut sink);
    assert_eq!(word(&sink, 0), 0x00e5_1021);
    emit_inst(&func, 5, &divert, &mut sink);
    assert_eq!(sink.relocs[0].offset, 4);
}

#[test]
fn what_can_be_emitted() {
    let add = InstructionData::Binary { opcode: Opcode::Iadd, lhs: 0, rhs: 1 };
    let imm = InstructionData::BinaryImm { opcode: Opcode::IaddImm, arg: 0, imm: 40000 };
    let jump = InstructionData::Jump { opcode: Opcode::Jump, offset: 8 };
    let with = |data, result, encoding| Inst { data, result, encoding };
    assert!(can_emit(&with(add, Some(2), Some(Encoding::new(0, 0x840)))));
    // No encoding, no result, or a recipe for another shape.
    assert!(!can_emit(&with(add, Some(2), None)));
    assert!(!can_emit(&with(add, None, Some(Encoding::new(0, 0x840)))));
    assert!(!can_emit(&with(add, Some(2), Some(Encoding::new(2, 0x009)))));
    assert!(!can_emit(&with(add, Some(2), Some(Encoding::new(6, 0)))));
    // An immediate that does not fit sixteen bits fits the shift recipe only.
    assert!(!can_emit(&with(imm, Some(2), Some(Encoding::new(2, 0x009)))));
    assert!(can_emit(&with(imm, Some(2), Some(Encoding::new(1, 0x000)))));
    assert!(can_emit(&with(jump, None, Some(Encoding::new(4, 0x002)))));
    assert!(!can_emit(&with(jump, None, Some(Encoding::new(3, 0x001)))));

    let mut func = Function::new();
    assert!(func.is_wf());
    func.make_value(types::int32(), 4);
    func.insts.push(with(add, None, None));
    assert!(!func.is_wf());
    func.make_value(types::int32(), 5);
    assert!(func.is_wf());
    func.insts[0].result = Some(2);
    assert!(!func.is_wf());
    func.make_value(types::int32(), 2);
    assert!(func.is_wf());
    func.locations.pop();
    assert!(!func.is_wf());
}
