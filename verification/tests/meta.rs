use mips_backend::cdsl::{
    CpuMode, IsaRegsBuilder, PredicateNode, RegBankBuilder, SettingGroupBuilder,
    SharedDefinitions, TransformGroup, TransformGroups,
};
use mips_backend::meta::{define, define_registers, define_settings};
use mips_backend::settings::{self, parse_bool_value, Builder, Flags, SetError, SharedFlags};
use mips_backend::text::{append_decimal, append_hex2, parse_decimal, starts_with, str_eq};
use mips_backend::types;

fn shared() -> SharedDefinitions {
    SharedDefinitions {
        settings: SettingGroupBuilder::new("shared").finish(),
        transform_groups: TransformGroups {
            groups: vec![
                TransformGroup { name: "widen" },
                TransformGroup { name: "narrow" },
                TransformGroup { name: "expand" },
            ],
        },
    }
}

#[test]
fn the_settings_of_mips() {
    let group = define_settings(&shared().settings);
    assert_eq!(group.name, "mips");
    assert_eq!(group.settings.len(), 2);
    assert_eq!(group.settings[0].name, "supports_lext");
    assert!(!group.settings[0].default);
    assert_eq!(group.settings[1].name, "enable_lext");
    assert!(group.settings[1].default);
    assert_eq!(group.predicates.len(), 1);
    assert_eq!(group.predicates[0].name, "use_lext");
    let node = &group.predicates[0].node;
    assert!(node.eval(&vec![true, true]));
    assert!(!node.eval(&vec![true, false]));
    assert!(!node.eval(&vec![false, true]));
    assert!(!node.eval(&vec![false, false]));
    assert!(!node.eval(&vec![true]));
    assert!(PredicateNode::Setting(0).eval(&vec![true]));
}

#[test]
fn the_frozen_settings_agree_with_the_description() {
    let group = define_settings(&shared().settings);
    let shared_flags = SharedFlags::new(settings::builder());
    for supports in [false, true] {
        for enable in [false, true] {
            let builder = Builder { supports_lext: supports, enable_lext: enable };
            let flags = Flags::new(&shared_flags, builder);
            assert_eq!(flags.use_lext(), group.predicates[0].node.eval(&vec![supports, enable]));
            assert_eq!(flags.predicate(0), supports && enable);
            assert!(!flags.predicate(1));
        }
    }
    let defaults = Builder::new();
    assert_eq!(defaults.supports_lext, group.settings[0].default);
    assert_eq!(defaults.enable_lext, group.settings[1].default);
}

#[test]
fn setting_by_name() {
    let mut builder = Builder::new();
    assert_eq!(builder.enable("supports_lext"), Ok(()));
    assert!(builder.supports_lext);
    assert_eq!(builder.set("enable_lext", "off"), Ok(()));
    assert!(!builder.enable_lext);
    assert_eq!(builder.set("enable_lext", "1"), Ok(()));
    assert!(builder.enable_lext);
    assert_eq!(builder.set_bool("supports_lext", false), Ok(()));
    assert!(!builder.supports_lext);
    let before = builder;
    assert_eq!(builder.enable("use_lext"), Err(SetError::BadName));
    assert_eq!(builder.set("lext", "true"), Err(SetError::BadName));
    assert_eq!(builder.set("lext", "maybe"), Err(SetError::BadName));
    assert_eq!(builder.set("enable_lext", "maybe"), Err(SetError::BadValue));
    assert_eq!(builder.set("enable_lext", ""), Err(SetError::BadValue));
    assert_eq!(builder, before);
    assert_eq!(parse_bool_value("yes"), Some(true));
    assert_eq!(parse_bool_value("no"), Some(false));
    assert_eq!(parse_bool_value("TRUE"), None);
}

#[test]
fn the_registers_of_mips() {
    let regs = define_registers();
    assert_eq!(regs.banks.len(), 3);
    assert_eq!(regs.banks[0].names.len(), 32);
    assert_eq!(regs.banks[0].names[4], "a0");
    assert_eq!(regs.banks[0].names[31], "ra");
    assert_eq!(regs.banks[1].first_unit, 32);
    assert_eq!(regs.banks[2].first_unit, 64);
    assert_eq!(regs.banks[2].names, vec!["hi", "lo"]);
    assert_eq!(regs.classes.len(), 3);
    assert_eq!((regs.classes[1].index, regs.classes[1].bank), (1, 1));
    assert_eq!((regs.classes[1].first, regs.classes[1].count), (32, 32));
}

#[test]
fn banks_begin_at_a_multiple_of_their_size() {
    let mut regs = IsaRegsBuilder::new();
    let a = regs.add_bank(RegBankBuilder::new("A", "a").units(3).track_pressure(true));
    let b = regs.add_bank(RegBankBuilder::new("B", "b").units(5).track_pressure(false));
    let c = regs.add_bank(RegBankBuilder::new("C", "c").units(2).track_pressure(true));
    let d = regs.add_bank(RegBankBuilder::new("D", "d").units(16).track_pressure(true));
    assert_eq!((a, b, c, d), (0, 1, 2, 3));
    let regs = regs.finish();
    let firsts: Vec<u16> = regs.banks.iter().map(|bank| bank.first_unit).collect();
    // 3 units from 0; 5 units from the next multiple of 8; 2 from 14; 16 from 16.
    assert_eq!(firsts, vec![0, 8, 14, 16]);
}

#[test]
fn the_description_of_mips() {
    let mut defs = shared();
    let isa = define(&mut defs);
    assert_eq!(defs.transform_groups.groups.len(), 3);
    assert_eq!(isa.name, "mips");
    assert_eq!(isa.instructions.name, "mips");
    assert_eq!(isa.settings.settings.len(), 2);
    assert_eq!(isa.regs.banks.len(), 3);
    assert_eq!(isa.cpu_modes.len(), 2);
    let (narrow, expand) = (1, 2);
    assert_eq!(defs.transform_groups.by_name("narrow"), narrow);
    assert_eq!(defs.transform_groups.by_name("expand"), expand);

    let mode: &CpuMode = &isa.cpu_modes[0];
    assert_eq!(mode.name, "MIPS32");
    assert_eq!(mode.monomorphic_legalize, Some(expand));
    assert_eq!(mode.default_legalize, Some(narrow));
    let typed: Vec<(types::Type, usize)> =
        mode.typed_legalize.iter().map(|t| (t.ty, t.group)).collect();
    assert_eq!(
        typed,
        vec![(types::int32(), expand), (types::float32(), expand), (types::float64(), expand)]
    );

    let mode = &isa.cpu_modes[1];
    assert_eq!(mode.name, "MIPS64");
    assert_eq!(mode.monomorphic_legalize, Some(expand));
    assert_eq!(mode.default_legalize, Some(narrow));
    let typed: Vec<(types::Type, usize)> =
        mode.typed_legalize.iter().map(|t| (t.ty, t.group)).collect();
    assert_eq!(
        typed,
        vec![
            (types::int32(), expand),
            (types::int64(), expand),
            (types::float32(), expand),
            (types::float64(), expand),
        ]
    );
}

#[test]
fn text_helpers() {
    assert!(str_eq("ra", "ra"));
    assert!(!str_eq("ra", "rb"));
    assert!(!str_eq("ra", "ra0"));
    assert!(str_eq("", ""));
    assert!(starts_with("f31", "f"));
    assert!(starts_with("f31", ""));
    assert!(!starts_with("", "f"));
    assert!(!starts_with("hi", "f"));
    let mut out = String::from("x");
    append_decimal(&mut out, 0);
    append_decimal(&mut out, 65535);
    append_decimal(&mut out, 1203);
    assert_eq!(out, "x0655351203");
    let mut out = String::new();
    append_hex2(&mut out, 0);
    append_hex2(&mut out, 0x9);
    append_hex2(&mut out, 0x1f);
    append_hex2(&mut out, 0xabc);
    append_hex2(&mut out, 0xffff);
    assert_eq!(out, "00091fabcffff");
    assert_eq!(parse_decimal("f12", 1), Some(12));
    assert_eq!(parse_decimal("65535", 0), Some(65535));
    assert_eq!(parse_decimal("65536", 0), None);
    assert_eq!(parse_decimal("12", 2), None);
    assert_eq!(parse_decimal("1e2", 0), None);
    for n in 0..=65535u16 {
        let mut s = String::new();
        append_decimal(&mut s, n);
        assert_eq!(s, n.to_string());
        assert_eq!(parse_decimal(&s, 0), Some(n));
    }
}
