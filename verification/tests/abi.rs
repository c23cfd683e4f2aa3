use mips_backend::abi::{
    allocatable_registers, fits_args, fits_signature, legalize_args, legalize_signature,
    legalize_signature_for, regclass_for_abi_type, try_legalize_signature, ArgAction, Args,
    ValueConversion,
};
use mips_backend::ir::{
    AbiParam, ArgumentExtension, ArgumentLoc, ArgumentPurpose, Function, Signature,
};
use mips_backend::isa::isa_builder;
use mips_backend::registers::{fpr, gpr, hilo};
use mips_backend::settings;
use mips_backend::types::{self, LaneKind, Type};
use std::str::FromStr;
use target_lexicon::Triple;

fn flags() -> settings::Flags {
    settings::Flags::new(&settings::SharedFlags::new(settings::builder()), settings::Builder::new())
}

fn locations(params: &[AbiParam]) -> Vec<ArgumentLoc> {
    params.iter().map(|p| p.location).collect()
}

fn legalized(bits: u8, is_for_return: bool, types: &[Type]) -> Vec<AbiParam> {
    let mut params: Vec<AbiParam> = types.iter().map(|t| AbiParam::new(*t)).collect();
    let mut args = Args::new(bits, is_for_return);
    legalize_args(&mut params, &mut args);
    params
}

#[test]
fn nine_integer_parameters() {
    let mut sig = Signature::new();
    for _ in 0..9 {
        sig.params.push(AbiParam::new(types::int64()));
    }
    let triple = Triple::from_str("mips64el").unwrap();
    legalize_signature(&mut sig, &triple, &flags(), false);
    assert_eq!(sig.params.len(), 9);
    for i in 0..8 {
        assert_eq!(sig.params[i].location, ArgumentLoc::Reg(4 + i as u16));
        assert_eq!(sig.params[i].value_type, types::int64());
    }
    assert_eq!(sig.params[8].location, ArgumentLoc::Stack(0));
    assert!(sig.returns.is_empty());
}

#[test]
fn registers_by_kind_and_role() {
    let f = types::float64();
    let i = types::int64();
    // Parameters: a0.. and f12.., on one cursor.
    let params = legalized(64, false, &[i, f, i, f]);
    assert_eq!(
        locations(&params),
        vec![
            ArgumentLoc::Reg(4),
            ArgumentLoc::Reg(32 + 12 + 1),
            ArgumentLoc::Reg(6),
            ArgumentLoc::Reg(32 + 12 + 3),
        ]
    );
    // Return values: v0, v1, then the stack.
    let rets = legalized(64, true, &[i, i, i]);
    assert_eq!(
        locations(&rets),
        vec![ArgumentLoc::Reg(2), ArgumentLoc::Reg(3), ArgumentLoc::Stack(0)]
    );
    // A floating-point return value takes two slots.
    let rets = legalized(64, true, &[f, f, i]);
    assert_eq!(
        locations(&rets),
        vec![ArgumentLoc::Reg(32), ArgumentLoc::Stack(0), ArgumentLoc::Stack(8)]
    );
    let rets = legalized(32, true, &[types::int32(), types::float32(), types::float32()]);
    assert_eq!(
        locations(&rets),
        vec![ArgumentLoc::Reg(2), ArgumentLoc::Reg(33), ArgumentLoc::Stack(0)]
    );
}

#[test]
fn stack_slots_rise_without_overlap() {
    let mut list = Vec::new();
    for k in 0..40 {
        list.push(match k % 4 {
            0 => types::int32(),
            1 => types::int64(),
            2 => types::float64(),
            _ => types::int128(),
        });
    }
    for (bits, bytes) in [(32u8, 4i32), (64, 8)] {
        let params = legalized(bits, false, &list);
        let mut last: Option<i32> = None;
        let mut slots = 0;
        for p in &params {
            assert!(p.location != ArgumentLoc::Unassigned);
            if let ArgumentLoc::Stack(at) = p.location {
                assert!(at >= 0);
                assert_eq!(at % bytes, 0);
                if let Some(before) = last {
                    assert!(before + bytes <= at);
                }
                last = Some(at);
                slots += 1;
            }
        }
        assert!(slots > 20);
    }
}

#[test]
fn legalization_follows_the_types() {
    let list = [types::int32(), types::int64(), types::float32(), types::int8(), types::int128()];
    let mut first: Vec<AbiParam> = list.iter().map(|t| AbiParam::new(*t).sext()).collect();
    let mut second: Vec<AbiParam> = list.iter().map(|t| AbiParam::new(*t).sext()).collect();
    for p in second.iter_mut() {
        p.purpose = ArgumentPurpose::CalleeSaved;
    }
    let mut a = Args::new(32, false);
    let mut b = Args::new(32, false);
    legalize_args(&mut first, &mut a);
    legalize_args(&mut second, &mut b);
    assert_eq!(locations(&first), locations(&second));
    assert_eq!(a, b);
    assert_eq!(first.len(), 1 + 2 + 1 + 1 + 4);
    assert!(second.iter().all(|p| p.purpose == ArgumentPurpose::CalleeSaved));
}

#[test]
fn wide_integers_land_on_pairs() {
    // One register is taken, so the pair skips a1.
    let params = legalized(32, false, &[types::int32(), types::int64()]);
    assert_eq!(
        locations(&params),
        vec![ArgumentLoc::Reg(4), ArgumentLoc::Reg(6), ArgumentLoc::Reg(7)]
    );
    assert_eq!(params[1].value_type, types::int32());
    assert_eq!(params[2].value_type, types::int32());

    // Seven registers are taken: the pair goes to the stack.
    let mut list = vec![types::int32(); 7];
    list.push(types::int64());
    list.push(types::int32());
    let params = legalized(32, false, &list);
    assert_eq!(params.len(), 10);
    assert_eq!(params[6].location, ArgumentLoc::Reg(10));
    assert_eq!(params[7].location, ArgumentLoc::Stack(0));
    assert_eq!(params[8].location, ArgumentLoc::Stack(4));
    assert_eq!(params[9].location, ArgumentLoc::Stack(8));

    // The stack cursor is rounded up to two pointers.
    let mut list = vec![types::int32(); 9];
    list.push(types::int64());
    let params = legalized(32, false, &list);
    assert_eq!(params[8].location, ArgumentLoc::Stack(0));
    assert_eq!(params[9].location, ArgumentLoc::Stack(8));
    assert_eq!(params[10].location, ArgumentLoc::Stack(12));

    // Four registers in a row on the 64-bit target for two 128-bit values.
    let params = legalized(64, false, &[types::int64(), types::int128(), types::int128()]);
    assert_eq!(
        locations(&params),
        vec![
            ArgumentLoc::Reg(4),
            ArgumentLoc::Reg(6),
            ArgumentLoc::Reg(7),
            ArgumentLoc::Reg(8),
            ArgumentLoc::Reg(9),
        ]
    );
}

#[test]
fn the_assigner_step_by_step() {
    let mut args = Args::new(32, false);
    assert_eq!(args.pointer_bits, 32);
    assert_eq!(args.pointer_bytes, 4);
    assert_eq!(args.pointer_type, types::int32());
    assert_eq!(args.reg_limit, 8);
    assert_eq!((args.regs, args.offset), (0, 0));
    assert_eq!(Args::new(64, true).reg_limit, 2);
    assert_eq!(Args::new(64, true).pointer_bytes, 8);

    let vector = Type { kind: LaneKind::Int, lane_bits: 32, lanes: 4 };
    assert_eq!(
        args.assign(&AbiParam::new(vector)),
        ArgAction::Convert(ValueConversion::VectorSplit)
    );
    assert_eq!((args.regs, args.offset), (0, 0));

    let small = AbiParam::new(types::int8());
    assert_eq!(args.assign(&small), ArgAction::Assign(ArgumentLoc::Reg(4)));
    assert_eq!(
        args.assign(&small.uext()),
        ArgAction::Convert(ValueConversion::Uext(types::int32()))
    );
    assert_eq!(
        args.assign(&small.sext()),
        ArgAction::Convert(ValueConversion::Sext(types::int32()))
    );
    assert_eq!(args.regs, 1);

    // A wide integer aligns both cursors; a wide float does not split.
    args.offset = 4;
    assert_eq!(
        args.assign(&AbiParam::new(types::int64())),
        ArgAction::Convert(ValueConversion::IntSplit)
    );
    assert_eq!((args.regs, args.offset), (2, 8));
    assert_eq!(
        args.assign(&AbiParam::new(types::float64())),
        ArgAction::Assign(ArgumentLoc::Reg(32 + 12 + 2))
    );
    // A boolean wider than a register is split like an integer.
    let wide_bool = Type { kind: LaneKind::Bool, lane_bits: 64, lanes: 1 };
    assert_eq!(
        args.assign(&AbiParam::new(wide_bool)),
        ArgAction::Convert(ValueConversion::IntSplit)
    );
    assert_eq!((args.regs, args.offset), (4, 8));

    args.regs = 8;
    assert_eq!(args.assign(&small), ArgAction::Assign(ArgumentLoc::Stack(8)));
    assert_eq!((args.regs, args.offset), (8, 12));
}

#[test]
fn conversions_and_types() {
    assert!(ValueConversion::IntSplit.is_split());
    assert!(ValueConversion::VectorSplit.is_split());
    assert!(!ValueConversion::Uext(types::int32()).is_split());
    assert_eq!(ValueConversion::IntSplit.apply(types::int64()), types::int32());
    let vector = Type { kind: LaneKind::Float, lane_bits: 32, lanes: 4 };
    let half = Type { kind: LaneKind::Float, lane_bits: 32, lanes: 2 };
    assert_eq!(ValueConversion::VectorSplit.apply(vector), half);
    assert_eq!(ValueConversion::Sext(types::int64()).apply(types::int8()), types::int64());
    assert_eq!(vector.bits(), 128);
    assert!(vector.is_vector() && vector.is_float() && !vector.is_int() && !vector.is_bool());
    assert!(types::bool1().is_bool());
    assert_eq!(types::int16().bits(), 16);
    assert_eq!(Type::integer(64), Some(types::int64()));
    assert_eq!(Type::integer(128), Some(types::int128()));
    assert_eq!(Type::integer(24), None);
    assert_eq!(Type::integer(0), None);
    assert_eq!(types::float64().half(), types::float32());
}

#[test]
fn vectors_and_extensions_in_a_list() {
    let vector = Type { kind: LaneKind::Int, lane_bits: 32, lanes: 2 };
    let mut params = vec![
        AbiParam::new(vector),
        AbiParam::new(types::int8()).uext(),
        AbiParam::new(types::int16()),
        AbiParam::special_reg(types::int64(), ArgumentPurpose::FramePointer, 30),
    ];
    let mut args = Args::new(64, false);
    legalize_args(&mut params, &mut args);
    assert_eq!(params.len(), 5);
    assert_eq!(params[0].value_type, types::int32());
    assert_eq!(params[1].value_type, types::int32());
    assert_eq!(params[2].value_type, types::int64());
    assert_eq!(params[2].extension, ArgumentExtension::Uext);
    assert_eq!(params[3].value_type, types::int16());
    assert_eq!(
        locations(&params),
        vec![
            ArgumentLoc::Reg(4),
            ArgumentLoc::Reg(5),
            ArgumentLoc::Reg(6),
            ArgumentLoc::Reg(7),
            ArgumentLoc::Reg(30),
        ]
    );
    assert_eq!(args.regs, 4);
    assert!(ArgumentLoc::Reg(4).is_assigned());
    assert!(!ArgumentLoc::Unassigned.is_assigned());
}

#[test]
fn the_link_register_of_the_current_function() {
    let mut sig = Signature::new();
    sig.params.push(AbiParam::new(types::int32()));
    sig.returns.push(AbiParam::new(types::float32()));
    let triple = Triple::from_str("mipsel").unwrap();
    legalize_signature(&mut sig, &triple, &flags(), true);
    let link = AbiParam::special_reg(types::int32(), ArgumentPurpose::Link, 31);
    assert_eq!(sig.params.len(), 2);
    assert_eq!(sig.params[0].location, ArgumentLoc::Reg(4));
    assert_eq!(sig.params[1], link);
    assert_eq!(sig.returns.len(), 2);
    assert_eq!(sig.returns[0].location, ArgumentLoc::Reg(32));
    assert_eq!(sig.returns[1], link);

    let mut wide = Signature::new();
    legalize_signature_for(&mut wide, 64, true);
    let link = AbiParam::special_reg(types::int64(), ArgumentPurpose::Link, 31);
    assert_eq!(wide.params, vec![link]);
    assert_eq!(wide.returns, vec![link]);

    // Through the target, whose mode comes from the triple.
    let shared = settings::SharedFlags::new(settings::builder());
    let isa = isa_builder(Triple::from_str("mips64el").unwrap()).finish(shared).unwrap();
    let mut sig = Signature::new();
    sig.params.push(AbiParam::new(types::int128()));
    isa.legalize_signature(&mut sig, false);
    assert_eq!(locations(&sig.params), vec![ArgumentLoc::Reg(4), ArgumentLoc::Reg(5)]);
    assert_eq!(sig.params[0].value_type, types::int64());
}

#[test]
fn classes_for_types() {
    assert_eq!(regclass_for_abi_type(types::float32()).name, "FPR");
    assert_eq!(regclass_for_abi_type(types::float64()).first, fpr().first);
    assert_eq!(regclass_for_abi_type(types::int32()).name, "GPR");
    assert_eq!(regclass_for_abi_type(types::bool1()).first, gpr().first);
}

#[test]
fn reserved_registers_are_not_allocatable() {
    let regs = allocatable_registers(&Function::new(), &flags());
    for unit in 0..96u16 {
        let reserved = [0u16, 1, 26, 27, 28, 29].contains(&unit);
        assert_eq!(regs.is_avail(gpr(), unit), !reserved, "unit {}", unit);
    }
    assert!(regs.is_avail(gpr(), 31));
    assert!(regs.is_avail(gpr(), 30));
    assert!(regs.is_avail(fpr(), 32));
    assert!(regs.is_avail(hilo(), 64));
}

#[test]
fn the_stack_has_an_end() {
    let small = AbiParam::new(types::int32());
    let mut args = Args::new(32, false);
    args.regs = 8;
    // The last slot that fits ends at the largest signed offset.
    args.offset = i32::MAX as u32 - 4;
    assert!(args.fits(&small));
    assert!(fits_args(&vec![small], &args));
    assert!(!fits_args(&vec![small, small], &args));
    assert_eq!(args.assign(&small), ArgAction::Assign(ArgumentLoc::Stack(i32::MAX - 4)));
    assert_eq!(args.offset, i32::MAX as u32);
    assert!(!args.fits(&small));
    assert!(!fits_args(&vec![small], &args));
    // What needs no stack slot fits all the same.
    let assigned = AbiParam::special_reg(types::int32(), ArgumentPurpose::Link, 31);
    assert!(fits_args(&vec![assigned], &args));
    assert!(fits_args(&vec![], &args));
    assert!(args.fits(&AbiParam::new(types::int64())));
    assert!(args.fits(&AbiParam::new(types::int8()).sext()));
    // A wide value is aligned first, and its halves may not fit.
    assert!(!fits_args(&vec![AbiParam::new(types::int64())], &args));
    args.offset = i32::MAX as u32 - 15;
    assert!(fits_args(&vec![AbiParam::new(types::int64())], &args));
    args.offset = i32::MAX as u32 - 14;
    assert!(!fits_args(&vec![AbiParam::new(types::int64())], &args));
    // With registers left the stack does not matter.
    args.regs = 7;
    args.offset = i32::MAX as u32;
    assert!(fits_args(&vec![small], &args));
    assert!(!fits_args(&vec![small, small], &args));
    // A type that does not exist fits nowhere.
    let odd = Type { kind: LaneKind::Int, lane_bits: 24, lanes: 1 };
    assert!(!fits_args(&vec![AbiParam::new(odd)], &Args::new(32, false)));
    assert!(!odd.is_wf());
    assert!(!types::invalid().is_wf());
    assert!(types::bool1().is_wf());
    assert!(!Type { kind: LaneKind::Float, lane_bits: 16, lanes: 1 }.is_wf());
    assert!(!Type { kind: LaneKind::Int, lane_bits: 8, lanes: 3 }.is_wf());
    assert!(Type { kind: LaneKind::Bool, lane_bits: 1, lanes: 256 }.is_wf());
}

#[test]
fn signatures_that_cannot_be_legalized_stay() {
    let mut sig = Signature::new();
    sig.params.push(AbiParam::new(types::int64()));
    sig.returns.push(AbiParam::new(types::int32()));
    let before = sig.clone();
    // No pointer width is known for this triple.
    assert!(!try_legalize_signature(&mut sig, &Triple::unknown(), &flags(), true));
    assert_eq!(sig.params, before.params);
    assert_eq!(sig.returns, before.returns);

    let triple = Triple::from_str("mipsel").unwrap();
    let odd = Type { kind: LaneKind::Int, lane_bits: 24, lanes: 1 };
    sig.returns.push(AbiParam::new(odd));
    assert!(!fits_signature(&sig, 32));
    assert!(!try_legalize_signature(&mut sig, &triple, &flags(), true));
    assert_eq!(sig.params, before.params);
    sig.returns.pop();

    assert!(fits_signature(&sig, 32));
    assert!(try_legalize_signature(&mut sig, &triple, &flags(), true));
    assert_eq!(
        locations(&sig.params),
        vec![ArgumentLoc::Reg(4), ArgumentLoc::Reg(5), ArgumentLoc::Reg(31)]
    );
    assert_eq!(locations(&sig.returns), vec![ArgumentLoc::Reg(2), ArgumentLoc::Reg(31)]);
}
