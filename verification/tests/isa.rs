use mips_backend::encoding::{EncInfo, Legalize};
use mips_backend::ir::{Encoding, Function, Inst, InstructionData, Opcode};
use mips_backend::isa::{isa_builder, Isa};
use mips_backend::regalloc::RegDiversions;
use mips_backend::settings;
use mips_backend::types;
use std::str::FromStr;
use target_lexicon::Triple;

fn encstr(isa: &Isa, enc: Result<Encoding, Legalize>) -> String {
    match enc {
        Ok(e) => isa.encoding_info().display(e),
        Err(_) => "no encoding".to_string(),
    }
}

fn make_isa(triple: &str) -> Isa {
    let shared_builder = settings::builder();
    let shared_flags = settings::SharedFlags::new(shared_builder);
    isa_builder(Triple::from_str(triple).unwrap()).finish(shared_flags).unwrap()
}

fn make_lext_isa(triple: &str) -> Isa {
    let shared_flags = settings::SharedFlags::new(settings::builder());
    let mut builder = isa_builder(Triple::from_str(triple).unwrap());
    builder.setup.enable("supports_lext").unwrap();
    builder.finish(shared_flags).unwrap()
}

#[test]
fn test_64bitenc() {
    let isa = make_isa("mips64el");

    let mut func = Function::new();
    let arg64 = func.make_value(types::int64(), 4);
    let arg32 = func.make_value(types::int32(), 5);

    // Try to encode iadd_imm.i64 v1, -10.
    let inst64 = InstructionData::BinaryImm { opcode: Opcode::IaddImm, arg: arg64, imm: -10 };

    // DADDIU is I/0b011001
    assert_eq!(encstr(&isa, isa.encode(&func, &inst64, types::int64())), "I#19");

    // Try to encode iadd_imm.i64 v1, -32769.
    let inst64_large =
        InstructionData::BinaryImm { opcode: Opcode::IaddImm, arg: arg64, imm: -32769 };

    // Immediate is out of range for DADDIU.
    assert!(isa.encode(&func, &inst64_large, types::int64()).is_err());

    // Create an iadd_imm.i32 which is encodable in MIPS64.
    let inst32 = InstructionData::BinaryImm { opcode: Opcode::IaddImm, arg: arg32, imm: 10 };

    // ADDIU is I/0b001001
    assert_eq!(encstr(&isa, isa.encode(&func, &inst32, types::int32())), "I#09");
}

#[test]
fn immediates_at_the_boundary() {
    let isa = make_isa("mips64el");
    let mut func = Function::new();
    let arg = func.make_value(types::int64(), 4);
    let cases = [(32767i64, true), (-32768, true), (32768, false), (-32769, false), (0, true)];
    for (imm, legal) in cases {
        let inst = InstructionData::BinaryImm { opcode: Opcode::IaddImm, arg, imm };
        let enc = isa.encode(&func, &inst, types::int64());
        if legal {
            assert_eq!(enc, Ok(Encoding { recipe: 2, bits: 0x19 }));
        } else {
            assert_eq!(enc, Err(Legalize::Expand));
        }
    }
}

#[test]
fn the_mode_follows_the_pointer_width() {
    let wide = make_isa("mips64el");
    assert_eq!(wide.pointer_bits(), 64);
    assert_eq!(wide.name(), "mips");
    assert!(wide.has_delay_slot());
    assert_eq!(wide.triple(), &Triple::from_str("mips64el").unwrap());
    let narrow = make_isa("mipsel");
    assert_eq!(narrow.pointer_bits(), 32);
    assert_eq!(make_isa("mips").pointer_bits(), 32);
    assert_eq!(make_isa("mips64").pointer_bits(), 64);

    let mut func = Function::new();
    let arg = func.make_value(types::int64(), 4);
    let inst = InstructionData::BinaryImm { opcode: Opcode::IaddImm, arg, imm: 1 };
    // 64-bit integers have encodings in 64-bit operation only.
    assert_eq!(encstr(&wide, wide.encode(&func, &inst, types::int64())), "I#19");
    assert_eq!(narrow.encode(&func, &inst, types::int64()), Err(Legalize::Narrow));
    assert_eq!(encstr(&narrow, narrow.encode(&func, &inst, types::int32())), "I#09");
}

#[test]
fn no_mode_without_a_suitable_pointer_width() {
    let shared_flags = settings::SharedFlags::new(settings::builder());
    assert!(isa_builder(Triple::unknown()).finish(shared_flags).is_none());
    let avr = Triple::from_str("avr-unknown-unknown").unwrap();
    assert!(isa_builder(avr).finish(shared_flags).is_none());
}

#[test]
fn settings_gate_the_candidates() {
    let plain = make_isa("mipsel");
    let lext = make_lext_isa("mipsel");
    assert!(!plain.isa_flags().use_lext());
    assert!(lext.isa_flags().use_lext());
    assert!(!plain.flags().is_pic);

    let mut func = Function::new();
    let a = func.make_value(types::int32(), 4);
    let b = func.make_value(types::int32(), 5);
    let mul = InstructionData::Binary { opcode: Opcode::Imul, lhs: a, rhs: b };

    // Without the extension only the plain multiply is legal.
    let mut encodings = plain.legal_encodings(&func, &mul, types::int32());
    assert_eq!(encodings.next(), Some(Encoding { recipe: 0, bits: 0x09c }));
    assert_eq!(encodings.next(), None);
    assert_eq!(encodings.next(), None);
    assert_eq!(encodings.legalize(), Legalize::Expand);

    // With it, the extension's multiply comes first.
    let mut encodings = lext.legal_encodings(&func, &mul, types::int32());
    assert_eq!(encodings.next(), Some(Encoding { recipe: 0, bits: 0x41c }));
    assert_eq!(encodings.next(), Some(Encoding { recipe: 0, bits: 0x09c }));
    assert_eq!(encodings.next(), None);

    // The 64-bit multiply exists with the extension only.
    let plain = make_isa("mips64el");
    let lext = make_lext_isa("mips64el");
    assert_eq!(plain.encode(&func, &mul, types::int64()), Err(Legalize::Expand));
    assert_eq!(encstr(&lext, lext.encode(&func, &mul, types::int64())), "R#45c");
}

#[test]
fn every_opcode_in_both_modes() {
    let narrow = make_isa("mipsel");
    let wide = make_isa("mips64el");
    let mut func = Function::new();
    let a = func.make_value(types::int32(), 4);
    let b = func.make_value(types::int32(), 5);
    let none = types::invalid();
    let i32t = types::int32();
    let i64t = types::int64();

    let nop = InstructionData::NullAry { opcode: Opcode::Nop };
    let add = InstructionData::Binary { opcode: Opcode::Iadd, lhs: a, rhs: b };
    let shl = InstructionData::BinaryImm { opcode: Opcode::IshlImm, arg: a, imm: 3 };
    let bltz = InstructionData::Branch { opcode: Opcode::BranchLtz, arg: a, offset: -4 };
    let bgez = InstructionData::Branch { opcode: Opcode::BranchGez, arg: a, offset: 4 };
    let far = InstructionData::Branch { opcode: Opcode::BranchGez, arg: a, offset: 40000 };
    let jump = InstructionData::Jump { opcode: Opcode::Jump, offset: 64 };
    let odd = InstructionData::Jump { opcode: Opcode::Jump, offset: 66 };
    let long = InstructionData::Jump { opcode: Opcode::Jump, offset: 1 << 27 };
    let call = InstructionData::Call { opcode: Opcode::Call, func_ref: 7 };

    for isa in [&narrow, &wide] {
        assert_eq!(encstr(isa, isa.encode(&func, &nop, none)), "Nop#00");
        assert_eq!(encstr(isa, isa.encode(&func, &add, i32t)), "R#840");
        assert_eq!(encstr(isa, isa.encode(&func, &shl, i32t)), "Rshamt#00");
        assert_eq!(encstr(isa, isa.encode(&func, &bltz, i32t)), "Iregimm#01");
        assert_eq!(encstr(isa, isa.encode(&func, &bgez, i32t)), "Iregimm#41");
        assert_eq!(isa.encode(&func, &far, i32t), Err(Legalize::Expand));
        assert_eq!(encstr(isa, isa.encode(&func, &jump, none)), "J#02");
        assert_eq!(isa.encode(&func, &odd, none), Err(Legalize::Expand));
        assert_eq!(isa.encode(&func, &long, none), Err(Legalize::Expand));
        assert_eq!(encstr(isa, isa.encode(&func, &call, none)), "J#03");
        // An opcode under the wrong controlling type has no candidates.
        assert_eq!(isa.encode(&func, &add, none), Err(Legalize::Expand));
        assert_eq!(isa.encode(&func, &jump, i32t), Err(Legalize::Expand));
        // Floating-point types are expanded, others are narrowed.
        assert_eq!(isa.encode(&func, &add, types::float32()), Err(Legalize::Expand));
        assert_eq!(isa.encode(&func, &add, types::float64()), Err(Legalize::Expand));
        assert_eq!(isa.encode(&func, &add, types::int16()), Err(Legalize::Narrow));
        assert_eq!(isa.encode(&func, &add, types::int128()), Err(Legalize::Narrow));
    }
    assert_eq!(encstr(&wide, wide.encode(&func, &add, i64t)), "R#b40");
    assert_eq!(encstr(&wide, wide.encode(&func, &shl, i64t)), "Rshamt#e00");
    assert_eq!(encstr(&wide, wide.encode(&func, &bltz, i64t)), "Iregimm#01");
    assert_eq!(narrow.encode(&func, &add, i64t), Err(Legalize::Narrow));
}

fn has_slot(info: &EncInfo, inst: &Inst) -> bool {
    match inst.encoding {
        Some(enc) => info.has_delay_slot(enc),
        None => false,
    }
}

#[test]
fn delay_slots_are_filled() {
    let isa = make_isa("mips64el");
    let info = isa.encoding_info();
    let mut func = Function::new();
    let a = func.make_value(types::int32(), 4);
    let b = func.make_value(types::int32(), 5);
    let c = func.make_value(types::int32(), 2);
    let none = types::invalid();
    let stream = [
        (InstructionData::Binary { opcode: Opcode::Iadd, lhs: a, rhs: b }, Some(c), types::int32()),
        (InstructionData::Branch { opcode: Opcode::BranchLtz, arg: c, offset: 2 }, None, types::int32()),
        (InstructionData::Jump { opcode: Opcode::Jump, offset: 16 }, None, none),
        (InstructionData::Call { opcode: Opcode::Call, func_ref: 1 }, None, none),
        (InstructionData::NullAry { opcode: Opcode::Nop }, None, none),
        (InstructionData::Jump { opcode: Opcode::Jump, offset: -16 }, None, none),
    ];
    for (data, result, ty) in stream {
        let at = func.append_inst(data, result);
        func.insts[at].encoding = isa.encode(&func, &data, ty).ok();
        assert!(func.insts[at].encoding.is_some());
    }
    let before = func.insts.clone();
    isa.fill_delay_slots(&mut func, &RegDiversions::new(), &info);

    let nop = Inst {
        data: InstructionData::NullAry { opcode: Opcode::Nop },
        result: None,
        encoding: Some(Encoding { recipe: 5, bits: 0 }),
    };
    let expected = vec![
        before[0], before[1], nop, before[2], nop, before[3], nop, before[4], before[5], nop,
    ];
    assert_eq!(func.insts, expected);
    for (i, inst) in func.insts.iter().enumerate() {
        if has_slot(&info, inst) {
            assert_eq!(func.insts[i + 1], nop);
        }
    }
}

#[test]
fn one_delay_slot() {
    let isa = make_isa("mipsel");
    let info = isa.encoding_info();
    let mut func = Function::new();
    let jump = InstructionData::Jump { opcode: Opcode::Jump, offset: 8 };
    let at = func.append_inst(jump, None);
    func.insts[at].encoding = isa.encode(&func, &jump, types::invalid()).ok();
    let first = func.insts[0];
    isa.fill_delay_slot_for_inst(&mut func, 0, &RegDiversions::new(), &info);
    assert_eq!(func.insts.len(), 2);
    assert_eq!(func.insts[0], first);
    assert_eq!(func.insts[1].data, InstructionData::NullAry { opcode: Opcode::Nop });
    assert_eq!(info.display(func.insts[1].encoding.unwrap()), "Nop#00");
    assert!(!has_slot(&info, &func.insts[1]));

    // A function without branches is left alone.
    let mut quiet = Function::new();
    quiet.append_inst(InstructionData::NullAry { opcode: Opcode::Nop }, None);
    let before = quiet.insts.clone();
    isa.fill_delay_slots(&mut quiet, &RegDiversions::new(), &info);
    assert_eq!(quiet.insts, before);
}
