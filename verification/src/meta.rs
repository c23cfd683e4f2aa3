//! The description of MIPS: its settings, its registers, and its modes of
//! operation.

use vstd::prelude::*;
use vstd::string::*;
use crate::cdsl::{
    group_from, CpuMode, InstructionGroup, IsaRegs, IsaRegsBuilder, PredicateNode,
    RegBankBuilder, RegClassBuilder, SettingGroup, SettingGroupBuilder, SharedDefinitions,
    TargetIsa,
};
use crate::enc_tables::type_expands;
use crate::registers::{fpr_class, gpr_class, gpr_names, hilo_class, mips_banks, RegBank};
use crate::types::{float32, float64, int32, int64, Type};

verus! {

/// Whether a group holds the settings of MIPS: `supports_lext`, off by
/// default, and `enable_lext`, on by default, with the predicate `use_lext`
/// that holds when both are on.
pub open spec fn is_mips_settings(group: SettingGroup) -> bool {
    &&& group.name@ == "mips"@
    &&& group.settings@.len() == 2
    &&& group.settings@[0].name@ == "supports_lext"@
    &&& group.settings@[0].comment@ == "CPU supports the Loongson EXT ASE"@
    &&& group.settings@[0].default == false
    &&& group.settings@[1].name@ == "enable_lext"@
    &&& group.settings@[1].comment@ == "Enable the use of Loongson EXT instructions if available"@
    &&& group.settings@[1].default == true
    &&& group.predicates@.len() == 1
    &&& group.predicates@[0].name@ == "use_lext"@
    &&& forall|values: Seq<bool>|
        values.len() == 2 ==> #[trigger] group.predicates@[0].node.holds(values) == (values[0]
            && values[1])
    &&& group.wf()
}

/// The settings of MIPS.
pub fn define_settings(shared: &SettingGroup) -> (r: SettingGroup)
    ensures
        is_mips_settings(r),
{
    let mut setting = SettingGroupBuilder::new("mips");

    let supports_lext = setting.add_bool(
        "supports_lext",
        "CPU supports the Loongson EXT ASE",
        false,
    );

    let enable_lext = setting.add_bool(
        "enable_lext",
        "Enable the use of Loongson EXT instructions if available",
        true,
    );

    let use_lext = PredicateNode::And(
        Box::new(PredicateNode::Setting(supports_lext)),
        Box::new(PredicateNode::Setting(enable_lext)),
    );
    proof {
        reveal_with_fuel(PredicateNode::below, 2);
        reveal_with_fuel(PredicateNode::holds, 2);
        assert(use_lext.below(2));
        assert forall|values: Seq<bool>| values.len() == 2 implies #[trigger] use_lext.holds(values)
            == (values[0] && values[1]) by {}
    }
    setting.add_predicate("use_lext", use_lext);

    setting.finish()
}

/// Whether a description holds the registers of MIPS: the three banks and a
/// class for each of them.
pub open spec fn is_mips_regs(regs: IsaRegs) -> bool {
    &&& regs.banks@.map_values(|b: RegBank| b@) == mips_banks()
    &&& regs.banks@[0].name@ == "IntRegs"@
    &&& regs.banks@[1].name@ == "FloatRegs"@
    &&& regs.banks@[2].name@ == "HiLoRegs"@
    &&& regs.banks@[0].pressure_tracking
    &&& regs.banks@[1].pressure_tracking
    &&& !regs.banks@[2].pressure_tracking
    &&& regs.classes@ == seq![gpr_class(), fpr_class(), hilo_class()]
}

/// The registers of MIPS.
pub fn define_registers() -> (r: IsaRegs)
    ensures
        is_mips_regs(r),
{
    let mut regs = IsaRegsBuilder::new();

    let builder = RegBankBuilder::new("IntRegs", "").units(32).names(
        vec![
            "zero", "at", "v0", "v1", "a0", "a1", "a2", "a3",
            "a4", "a5", "a6", "a7", "t4", "t5", "t6", "t7",
            "s0", "s1", "s2", "s3", "s4", "s5", "s6", "s7",
            "t8", "t9", "k0", "k1", "gp", "sp", "s8", "ra",
        ],
    ).track_pressure(true);
    let int_regs = regs.add_bank(builder);

    let builder = RegBankBuilder::new("FloatRegs", "f").units(32).track_pressure(true);
    let float_regs = regs.add_bank(builder);

    let builder = RegBankBuilder::new("HiLoRegs", "").units(2).names(
        vec!["hi", "lo"],
    ).track_pressure(false);
    let hilo_regs = regs.add_bank(builder);

    let builder = RegClassBuilder::new_toplevel("GPR", int_regs);
    regs.add_class(builder);

    let builder = RegClassBuilder::new_toplevel("FPR", float_regs);
    regs.add_class(builder);

    let builder = RegClassBuilder::new_toplevel("HILO", hilo_regs);
    regs.add_class(builder);

    proof {
        reveal_strlit("");
        reveal_strlit("f");
        let banks = regs.banks@;
        assert(banks.drop_last().drop_last().drop_last().len() == 0);
        assert(banks[2] == banks.last());
        assert(banks[1] == banks.drop_last().last());
        assert(banks[0] == banks.drop_last().drop_last().last());
        assert(banks[0]@.names =~= gpr_names());
        assert(banks[0]@.prefix =~= Seq::<char>::empty());
        assert(banks[1]@.names =~= Seq::<Seq<char>>::empty());
        assert(banks[1]@.prefix =~= seq!['f']);
        assert(banks[2]@.names =~= seq!["hi"@, "lo"@]);
        assert(banks[2]@.prefix =~= Seq::<char>::empty());
        assert(banks.map_values(|b: RegBank| b@) =~= mips_banks());
        assert(regs.classes@ =~= seq![gpr_class(), fpr_class(), hilo_class()]);
    }
    regs.finish()
}

/// Whether a mode is described as MIPS has it: instructions without a
/// controlling type are expanded, those of the types that MIPS expands are
/// expanded, and those of every other type are narrowed.
pub open spec fn is_mips_mode_description(mode: CpuMode, wide: bool, expand: usize, narrow: usize)
    -> bool {
    &&& mode.monomorphic_legalize == Some(expand)
    &&& mode.default_legalize == Some(narrow)
    &&& forall|ty: Type|
        #[trigger] mode.legalize_for(ty) == Some(
            if type_expands(wide, ty) {
                expand
            } else {
                narrow
            },
        )
}

/// The description of MIPS, with its modes of 32-bit and of 64-bit
/// operation. The shared definitions must know the ways of rewriting
/// `expand` and `narrow`; they are left as they are.
pub fn define(shared_defs: &mut SharedDefinitions) -> (r: TargetIsa)
    requires
        group_from(old(shared_defs).transform_groups.groups@, "expand"@, 0) is Some,
        group_from(old(shared_defs).transform_groups.groups@, "narrow"@, 0) is Some,
    ensures
        *final(shared_defs) == *old(shared_defs),
        r.name@ == "mips"@,
        r.instructions.name@ == "mips"@,
        r.instructions.doc@ == "mips specific instruction set"@,
        is_mips_settings(r.settings),
        is_mips_regs(r.regs),
        r.cpu_modes@.len() == 2,
        r.cpu_modes@[0].name@ == "MIPS32"@,
        r.cpu_modes@[1].name@ == "MIPS64"@,
        is_mips_mode_description(
            r.cpu_modes@[0],
            false,
            group_from(old(shared_defs).transform_groups.groups@, "expand"@, 0).unwrap() as usize,
            group_from(old(shared_defs).transform_groups.groups@, "narrow"@, 0).unwrap() as usize,
        ),
        is_mips_mode_description(
            r.cpu_modes@[1],
            true,
            group_from(old(shared_defs).transform_groups.groups@, "expand"@, 0).unwrap() as usize,
            group_from(old(shared_defs).transform_groups.groups@, "narrow"@, 0).unwrap() as usize,
        ),
{
    let settings = define_settings(&shared_defs.settings);
    let regs = define_registers();

    let inst_group = InstructionGroup::new("mips", "mips specific instruction set");

    // CPU modes for 32-bit and 64-bit operation.
    let mut mips_32 = CpuMode::new("MIPS32");
    let mut mips_64 = CpuMode::new("MIPS64");

    let expand = shared_defs.transform_groups.by_name("expand");
    let narrow = shared_defs.transform_groups.by_name("narrow");
    mips_32.legalize_monomorphic(expand);
    mips_32.legalize_default(narrow);
    mips_32.legalize_type(int32(), expand);
    mips_32.legalize_type(float32(), expand);
    mips_32.legalize_type(float64(), expand);

    mips_64.legalize_monomorphic(expand);
    mips_64.legalize_default(narrow);
    mips_64.legalize_type(int32(), expand);
    mips_64.legalize_type(int64(), expand);
    mips_64.legalize_type(float32(), expand);
    mips_64.legalize_type(float64(), expand);

    let cpu_modes = vec![mips_32, mips_64];

    TargetIsa::new("mips", inst_group, settings, regs, cpu_modes)
}

} // verus!
