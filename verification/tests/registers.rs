use mips_backend::regalloc::RegisterSet;
use mips_backend::registers::{fpr, gpr, hilo, info, RegUnit};

#[test]
fn unit_encodings() {
    let info = info();
    assert_eq!(info.parse_regunit("zero"), Some(0));
    assert_eq!(info.parse_regunit("ra"), Some(31));
    assert_eq!(info.parse_regunit("f0"), Some(32));
    assert_eq!(info.parse_regunit("f31"), Some(63));
    assert_eq!(info.parse_regunit("hi"), Some(64));
    assert_eq!(info.parse_regunit("lo"), Some(65));

    assert_eq!(info.parse_regunit("t10"), None);
    assert_eq!(info.parse_regunit("f32"), None);
}

fn uname(ru: RegUnit) -> String {
    info().display_regunit(ru)
}

#[test]
fn unit_names() {
    assert_eq!(uname(0), "%zero");
    assert_eq!(uname(1), "%at");
    assert_eq!(uname(31), "%ra");
    assert_eq!(uname(32), "%f0");
    assert_eq!(uname(33), "%f1");
    assert_eq!(uname(63), "%f31");
    assert_eq!(uname(64), "%hi");
    assert_eq!(uname(65), "%lo");
    assert_eq!(uname(66), "%INVALID66");
}

#[test]
fn classes() {
    assert!(gpr().contains(gpr().unit(0)));
    assert!(gpr().contains(gpr().unit(31)));
    assert!(!fpr().contains(gpr().unit(0)));
    assert!(!fpr().contains(gpr().unit(31)));
    assert!(!gpr().contains(fpr().unit(0)));
    assert!(!gpr().contains(fpr().unit(31)));
    assert!(fpr().contains(fpr().unit(0)));
    assert!(fpr().contains(fpr().unit(31)));
    assert!(hilo().contains(hilo().unit(0)));
    assert!(hilo().contains(hilo().unit(1)));
    assert!(!hilo().contains(hilo().unit(2)));
}

#[test]
fn every_unit_name_parses_back() {
    let info = info();
    for unit in 0..66u16 {
        let shown = info.display_regunit(unit);
        assert!(shown.starts_with('%'));
        assert_eq!(info.parse_regunit(&shown[1..]), Some(unit), "{}", shown);
    }
}

#[test]
fn units_outside_the_banks_are_invalid() {
    let info = info();
    for unit in [66u16, 67, 95, 96, 100, 1000, 65535] {
        let shown = info.display_regunit(unit);
        assert_eq!(shown, format!("%INVALID{}", unit));
        assert_eq!(info.parse_regunit(&shown[1..]), None);
    }
    assert_eq!(info.bank_containing_regunit(66), None);
    assert_eq!(info.bank_containing_regunit(65), Some(2));
    assert_eq!(info.bank_containing_regunit(32), Some(1));
    assert_eq!(info.bank_containing_regunit(31), Some(0));
}

#[test]
fn numbers_and_odd_names() {
    let info = info();
    // A bank without a prefix reads a bare number as an offset.
    assert_eq!(info.parse_regunit("5"), Some(5));
    assert_eq!(info.parse_regunit("31"), Some(31));
    assert_eq!(info.parse_regunit("+7"), Some(7));
    assert_eq!(info.parse_regunit("007"), Some(7));
    assert_eq!(info.parse_regunit("32"), None);
    assert_eq!(info.parse_regunit("65536"), None);
    assert_eq!(info.parse_regunit("99999999999"), None);
    assert_eq!(info.parse_regunit("f+3"), Some(35));
    assert_eq!(info.parse_regunit("f03"), Some(35));
    assert_eq!(info.parse_regunit(""), None);
    assert_eq!(info.parse_regunit("+"), None);
    assert_eq!(info.parse_regunit("f"), None);
    assert_eq!(info.parse_regunit("-1"), None);
    assert_eq!(info.parse_regunit("f1x"), None);
    assert_eq!(info.parse_regunit("%zero"), None);
    assert_eq!(info.parse_regunit("ZERO"), None);
}

#[test]
fn the_register_file_has_three_banks_and_classes() {
    let info = info();
    assert_eq!(info.banks.len(), 3);
    assert_eq!(info.banks[0].name, "IntRegs");
    assert_eq!((info.banks[0].first_unit, info.banks[0].units), (0, 32));
    assert_eq!(info.banks[1].name, "FloatRegs");
    assert_eq!((info.banks[1].first_unit, info.banks[1].units), (32, 32));
    assert_eq!(info.banks[1].prefix, "f");
    assert_eq!(info.banks[2].name, "HiLoRegs");
    assert_eq!((info.banks[2].first_unit, info.banks[2].units), (64, 2));
    assert!(info.banks[0].pressure_tracking);
    assert!(!info.banks[2].pressure_tracking);
    assert_eq!(info.classes.len(), 3);
    assert_eq!(info.classes[0].name, "GPR");
    assert_eq!(info.classes[1].name, "FPR");
    assert_eq!(info.classes[2].name, "HILO");
    assert_eq!(info.classes[2].first, 64);
    assert_eq!(info.classes[2].count, 2);
    assert_eq!(hilo().unit(2), 66);
}

#[test]
fn register_set_take_and_free() {
    let mut set = RegisterSet::new();
    assert!(set.is_avail(gpr(), 0));
    assert!(set.is_avail(hilo(), 95));
    set.take(gpr(), 17);
    assert!(!set.is_avail(gpr(), 17));
    assert!(set.is_avail(gpr(), 16));
    assert!(set.is_avail(gpr(), 18));
    assert!(set.is_avail(fpr(), 49));
    set.take(fpr(), 49);
    assert!(!set.is_avail(fpr(), 49));
    set.free(gpr(), 17);
    assert!(set.is_avail(gpr(), 17));
    assert!(!set.is_avail(fpr(), 49));
}
