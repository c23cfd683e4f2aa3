//! The MIPS calling convention.
//!
//! Arguments and return values are placed one after another: each goes to the
//! next free register of its kind, or to the next stack slot once the
//! registers of the list are used up. Values that do not fit a register are
//! first cut in two, and narrow integers are widened where the signature asks
//! for it. Only the hard-float convention is covered.

use vstd::prelude::*;
use target_lexicon::Triple;
use crate::ir::{AbiParam, ArgumentExtension, ArgumentLoc, ArgumentPurpose, Function, Signature};
use crate::regalloc::RegisterSet;
use crate::registers::{fpr, fpr_class, gpr, gpr_class, RegClass, RegUnit, MAX_UNITS};
use crate::settings::Flags;
use crate::triple::{pointer_bits, triple_pointer_bits};
use crate::types::{LaneKind, Type};

verus! {

/// A change that a value must undergo before it can be given a location.
#[derive(Clone, Copy, Debug, PartialEq, Eq, Structural)]
pub enum ValueConversion {
    /// Cut a wide scalar into two halves.
    IntSplit,
    /// Cut a vector into two vectors of half the lanes.
    VectorSplit,
    /// Sign-extend an integer to the given type.
    Sext(Type),
    /// Zero-extend an integer to the given type.
    Uext(Type),
}

impl ValueConversion {
    /// Whether the conversion makes two values out of one.
    pub open spec fn spec_is_split(self) -> bool {
        self == ValueConversion::IntSplit || self == ValueConversion::VectorSplit
    }

    /// The type of the value, or of each of the two values, that the
    /// conversion makes out of a value of type `ty`.
    pub open spec fn spec_apply(self, ty: Type) -> Type {
        match self {
            ValueConversion::IntSplit => ty.spec_half(),
            ValueConversion::VectorSplit => ty.spec_half(),
            ValueConversion::Sext(to) => to,
            ValueConversion::Uext(to) => to,
        }
    }

    /// Whether the conversion makes two values out of one.
    pub fn is_split(self) -> (r: bool)
        ensures
            r == self.spec_is_split(),
    {
        match self {
            ValueConversion::IntSplit => true,
            ValueConversion::VectorSplit => true,
            _ => false,
        }
    }

    /// The type that the conversion gives to a value of type `ty`.
    pub fn apply(self, ty: Type) -> (r: Type)
        requires
            ty.wf(),
            self.spec_is_split() ==> ty.can_halve(),
        ensures
            r == self.spec_apply(ty),
    {
        match self {
            ValueConversion::IntSplit => ty.half(),
            ValueConversion::VectorSplit => ty.half(),
            ValueConversion::Sext(to) => to,
            ValueConversion::Uext(to) => to,
        }
    }
}

/// What to do with one argument: give it a location, or convert it first.
#[derive(Clone, Copy, Debug, PartialEq, Eq, Structural)]
pub enum ArgAction {
    /// The argument lives at the given location.
    Assign(ArgumentLoc),
    /// The argument must be converted, and the outcome looked at again.
    Convert(ValueConversion),
}

/// `value` rounded up to the next multiple of `to`.
pub open spec fn align_up(value: int, to: int) -> int {
    ((value + to - 1) / to) * to
}

/// Clearing the low bits of `top` under a power of two `to` rounds it down to
/// a multiple of `to`.
proof fn lemma_mask_rounds_down(top: u32, to: u32)
    requires
        to == 2 || to == 4 || to == 8 || to == 16 || to == 32,
    ensures
        top & !((to - 1) as u32) == (top / to) * to,
        (top & !((to - 1) as u32)) % to == 0,
        (top & !((to - 1) as u32)) <= top,
        (top & !((to - 1) as u32)) + to > top,
        top <= 0x8000_0000 + (to - 1) ==> (top & !((to - 1) as u32)) <= 0x8000_0000,
{
    if to == 2 {
        assert(top & !1u32 == (top / 2) * 2 && (top & !1u32) % 2 == 0 && (top & !1u32) <= top && (
        top & !1u32) + 2 > top && (top <= 0x8000_0001u32 ==> (top & !1u32) <= 0x8000_0000u32))
            by (bit_vector);
    } else if to == 4 {
        assert(top & !3u32 == (top / 4) * 4 && (top & !3u32) % 4 == 0 && (top & !3u32) <= top && (
        top & !3u32) + 4 > top && (top <= 0x8000_0003u32 ==> (top & !3u32) <= 0x8000_0000u32))
            by (bit_vector);
    } else if to == 8 {
        assert(top & !7u32 == (top / 8) * 8 && (top & !7u32) % 8 == 0 && (top & !7u32) <= top && (
        top & !7u32) + 8 > top && (top <= 0x8000_0007u32 ==> (top & !7u32) <= 0x8000_0000u32))
            by (bit_vector);
    } else if to == 16 {
        assert(top & !15u32 == (top / 16) * 16 && (top & !15u32) % 16 == 0 && (top & !15u32)
            <= top && (top & !15u32) + 16 > top && (top <= 0x8000_000fu32 ==> (top & !15u32)
            <= 0x8000_0000u32)) by (bit_vector);
    } else {
        assert(top & !31u32 == (top / 32) * 32 && (top & !31u32) % 32 == 0 && (top & !31u32)
            <= top && (top & !31u32) + 32 > top && (top <= 0x8000_001fu32 ==> (top & !31u32)
            <= 0x8000_0000u32)) by (bit_vector);
    }
}

/// `value` rounded up to the next multiple of the power of two `to`.
fn align(value: u32, to: u32) -> (r: u32)
    requires
        to == 2 || to == 4 || to == 8 || to == 16 || to == 32,
        value <= 0x8000_0000,
    ensures
        r as int == align_up(value as int, to as int),
        r <= 0x8000_0000,
        r >= value,
        r < value + to,
        r as int % to as int == 0,
{
    let top: u32 = value + to - 1;
    let mask: u32 = to - 1;
    proof {
        lemma_mask_rounds_down(top, to);
    }
    top & !mask
}

/// The cursors of one pass over a parameter list or a return list.
#[derive(Clone, Copy, Debug, PartialEq, Eq, Structural)]
pub struct Args {
    /// Width of a pointer, and of an integer register, in bits.
    pub pointer_bits: u8,
    /// Width of a pointer in bytes.
    pub pointer_bytes: u8,
    /// The integer type as wide as a pointer.
    pub pointer_type: Type,
    /// Whether the list holds return values rather than parameters.
    pub is_for_return: bool,
    /// The register cursor: how many register slots are used up.
    pub regs: u32,
    /// How many register slots the list may use.
    pub reg_limit: u32,
    /// The stack cursor: the byte offset of the next stack slot.
    pub offset: u32,
}

/// How many register slots a list may use: two for return values, eight for
/// parameters.
pub open spec fn register_limit(is_for_return: bool) -> int {
    if is_for_return {
        2
    } else {
        8
    }
}

/// The first register, counted from the start of its class, of the values of a
/// kind and a role: `a0` and `f12` for parameters, `v0` and `f0` for return
/// values.
pub open spec fn first_register(is_float: bool, is_for_return: bool) -> int {
    if is_for_return {
        if is_float {
            0
        } else {
            2
        }
    } else {
        if is_float {
            12
        } else {
            4
        }
    }
}

/// How far one value of a kind and a role moves the register cursor: a
/// floating-point return value takes two slots, every other value one.
pub open spec fn register_step(is_float: bool, is_for_return: bool) -> int {
    if is_float && is_for_return {
        2
    } else {
        1
    }
}

impl Args {
    /// The cursors at the start of a list, for pointers of `bits` bits.
    pub open spec fn spec_new(bits: u8, is_for_return: bool) -> Args {
        Args {
            pointer_bits: bits,
            pointer_bytes: bits / 8,
            pointer_type: Type::spec_integer(bits as u16).unwrap(),
            is_for_return,
            regs: 0,
            reg_limit: register_limit(is_for_return) as u32,
            offset: 0,
        }
    }

    /// The cursors are consistent: the pointer's type and size in bytes belong
    /// to its width, the register limit is that of the list's role, the
    /// register cursor has gone at most one slot pair past the limit, and the
    /// stack cursor is at most 2^31.
    pub open spec fn wf(self) -> bool {
        &&& Type::spec_integer(self.pointer_bits as u16) == Some(self.pointer_type)
        &&& self.pointer_bytes == self.pointer_bits / 8
        &&& self.reg_limit == register_limit(self.is_for_return)
        &&& self.regs <= self.reg_limit + 2
        &&& self.offset <= 0x8000_0000
    }

    /// Whether a value of type `ty` is wider than a register and not a
    /// floating-point number, so that it must be cut in two.
    pub open spec fn is_oversized(self, ty: Type) -> bool {
        ty.kind != LaneKind::Float && ty.spec_bits() > self.pointer_bits as int
    }

    /// Whether `arg` is an integer narrower than a register that asks to be
    /// extended.
    pub open spec fn wants_extension(self, arg: AbiParam) -> bool {
        arg.value_type.kind == LaneKind::Int && arg.value_type.spec_bits()
            < self.pointer_bits as int && arg.extension != ArgumentExtension::NoExt
    }

    /// The location that the cursors give to the next value, floating-point or
    /// not: the next register of its kind while the register cursor is under
    /// the limit, the next stack slot after that.
    pub open spec fn next_location(self, is_float: bool) -> ArgumentLoc {
        if self.regs < self.reg_limit {
            let class = if is_float {
                fpr_class()
            } else {
                gpr_class()
            };
            ArgumentLoc::Reg(
                class.spec_unit(first_register(is_float, self.is_for_return) + self.regs) as u16,
            )
        } else {
            ArgumentLoc::Stack(self.offset as i32)
        }
    }

    /// The cursors after the next value was given its location.
    pub open spec fn advanced(self, is_float: bool) -> Args {
        if self.regs < self.reg_limit {
            Args {
                regs: (self.regs + register_step(is_float, self.is_for_return)) as u32,
                ..self
            }
        } else {
            Args { offset: (self.offset + self.pointer_bytes) as u32, ..self }
        }
    }

    /// The cursors with the register cursor rounded up to an even slot and
    /// the stack cursor to a multiple of two pointers.
    pub open spec fn pair_aligned(self) -> Args {
        Args {
            regs: align_up(self.regs as int, 2) as u32,
            offset: align_up(self.offset as int, 2 * self.pointer_bytes) as u32,
            ..self
        }
    }

    /// The action for `arg`, and the cursors after it.
    ///
    /// A vector is cut in two. A value wider than a register that is no
    /// floating-point number is cut in two after the cursors were aligned to a
    /// pair. A narrow integer that asks for it is extended to the pointer
    /// type. Every other value gets the next location.
    pub open spec fn spec_assign(self, arg: AbiParam) -> (Args, ArgAction) {
        let ty = arg.value_type;
        if ty.lanes > 1 {
            (self, ArgAction::Convert(ValueConversion::VectorSplit))
        } else if self.is_oversized(ty) {
            (self.pair_aligned(), ArgAction::Convert(ValueConversion::IntSplit))
        } else if self.wants_extension(arg) {
            if arg.extension == ArgumentExtension::Uext {
                (self, ArgAction::Convert(ValueConversion::Uext(self.pointer_type)))
            } else {
                (self, ArgAction::Convert(ValueConversion::Sext(self.pointer_type)))
            }
        } else {
            let is_float = ty.kind == LaneKind::Float;
            (self.advanced(is_float), ArgAction::Assign(self.next_location(is_float)))
        }
    }

    /// Whether the action for `arg` keeps the stack within reach: where it is
    /// a stack slot, the slot ends at or below the largest signed 32-bit
    /// offset.
    pub open spec fn assign_fits(self, arg: AbiParam) -> bool {
        self.spec_assign(arg).1 is Assign && self.regs >= self.reg_limit ==> self.offset
            + self.pointer_bytes <= i32::MAX
    }

    /// Whether the action for `arg` keeps the stack within reach.
    pub fn fits(&self, arg: &AbiParam) -> (r: bool)
        requires
            self.wf(),
            arg.value_type.wf(),
        ensures
            r == self.assign_fits(*arg),
    {
        let ty = arg.value_type;
        if ty.is_vector() {
            return true;
        }
        assert(ty.spec_bits() == ty.lane_bits as int);
        if !ty.is_float() && ty.bits() > self.pointer_bits as u16 {
            return true;
        }
        if ty.is_int() && ty.bits() < self.pointer_bits as u16 && arg.extension.is_some() {
            return true;
        }
        self.regs < self.reg_limit || self.offset + self.pointer_bytes as u32 <= 0x7fff_ffff
    }

    /// The cursors at the start of a list, for pointers of `bits` bits.
    pub fn new(bits: u8, is_for_return: bool) -> (r: Args)
        requires
            Type::spec_integer(bits as u16) is Some,
        ensures
            r == Self::spec_new(bits, is_for_return),
            r.wf(),
    {
        let pointer_type = match Type::integer(bits as u16) {
            Some(ty) => ty,
            None => Type { kind: LaneKind::Int, lane_bits: bits, lanes: 1 },
        };
        Args {
            pointer_bits: bits,
            pointer_bytes: bits / 8,
            pointer_type,
            is_for_return,
            regs: 0,
            reg_limit: if is_for_return {
                2
            } else {
                8
            },
            offset: 0,
        }
    }

    /// Decides what happens to `arg` and moves the cursors accordingly.
    ///
    /// An integer wider than a register is always cut in two, and the cursors
    /// then stand on a register pair and on a stack offset that is a multiple
    /// of two pointers.
    pub fn assign(&mut self, arg: &AbiParam) -> (action: ArgAction)
        requires
            old(self).wf(),
            arg.value_type.wf(),
            old(self).assign_fits(*arg),
        ensures
            (*final(self), action) == old(self).spec_assign(*arg),
            final(self).wf(),
            arg.value_type.lanes == 1 && old(self).is_oversized(arg.value_type) ==> {
                &&& action == ArgAction::Convert(ValueConversion::IntSplit)
                &&& arg.value_type.can_halve()
                &&& final(self).regs % 2 == 0
                &&& final(self).offset as int % (2 * old(self).pointer_bytes) == 0
            },
    {
        let ty = arg.value_type;

        if ty.is_vector() {
            return ArgAction::Convert(ValueConversion::VectorSplit);
        }
        assert(ty.spec_bits() == ty.lane_bits as int);

        // Large integers and booleans are broken down to fit in a register.
        if !ty.is_float() && ty.bits() > self.pointer_bits as u16 {
            // Align registers and stack to a multiple of two pointers.
            self.regs = align(self.regs, 2);
            self.offset = align(self.offset, 2 * (self.pointer_bytes as u32));
            return ArgAction::Convert(ValueConversion::IntSplit);
        }
        // Small integers are extended to the size of a pointer register.

        if ty.is_int() && ty.bits() < self.pointer_bits as u16 {
            match arg.extension {
                ArgumentExtension::NoExt => {},
                ArgumentExtension::Uext => {
                    return ArgAction::Convert(ValueConversion::Uext(self.pointer_type));
                },
                ArgumentExtension::Sext => {
                    return ArgAction::Convert(ValueConversion::Sext(self.pointer_type));
                },
            }
        }
        if self.regs < self.reg_limit {
            // Assign to a register.
            let (class, first, step): (_, usize, u32) = match (ty.is_float(), self.is_for_return) {
                (false, false) => (gpr(), 4, 1),
                (true, false) => (fpr(), 12, 1),
                (false, true) => (gpr(), 2, 1),
                (true, true) => (fpr(), 0, 2),
            };
            let unit = class.unit(first + self.regs as usize);
            self.regs += step;
            ArgAction::Assign(ArgumentLoc::Reg(unit))
        } else {
            // Assign a stack location.
            let loc = ArgumentLoc::Stack(self.offset as i32);
            self.offset += self.pointer_bytes as u32;
            ArgAction::Assign(loc)
        }
    }
}

/// A value that is cut in two is a vector, or a scalar with lanes of more than
/// no bits: either way each half is smaller.
pub proof fn lemma_half_is_smaller(st: Args, p: AbiParam)
    ensures
        st.spec_assign(p).1 matches ArgAction::Convert(conv) && conv.spec_is_split()
            ==> p.value_type.lanes > 1 || (p.value_type.lanes == 1 && p.value_type.lane_bits > 0),
{
    let lanes = p.value_type.lanes as int;
    let lane_bits = p.value_type.lane_bits as int;
    if lanes <= 1 && st.is_oversized(p.value_type) {
        assert(lanes == 1 && lane_bits > 0) by (nonlinear_arith)
            requires
                lane_bits * lanes > 0,
                0 <= lanes <= 1,
        ;
    }
}

/// What the convention makes of one parameter, and the cursors after it.
///
/// A parameter that has a location already is left as it is. One that is cut
/// in two gives what its first half gives, followed by what its second half
/// gives. One that is extended takes the pointer type and the next location.
/// Every other parameter takes the next location.
pub open spec fn legalize_one(st: Args, p: AbiParam) -> (Args, Seq<AbiParam>)
    decreases p.value_type.lanes, p.value_type.lane_bits,
{
    proof {
        lemma_half_is_smaller(st, p);
    }
    if p.location != ArgumentLoc::Unassigned {
        (st, seq![p])
    } else {
        let (st1, action) = st.spec_assign(p);
        match action {
            ArgAction::Assign(loc) => (st1, seq![AbiParam { location: loc, ..p }]),
            ArgAction::Convert(conv) => {
                let q = AbiParam { value_type: conv.spec_apply(p.value_type), ..p };
                if conv.spec_is_split() {
                    let (st2, first) = legalize_one(st1, q);
                    let (st3, second) = legalize_one(st2, q);
                    (st3, first + second)
                } else {
                    (
                        st1.advanced(false),
                        seq![AbiParam { location: st1.next_location(false), ..q }],
                    )
                }
            },
        }
    }
}

/// Whether every stack slot that `legalize_one` hands out for `p` ends at or
/// below the largest signed 32-bit offset.
pub open spec fn fits_one(st: Args, p: AbiParam) -> bool
    decreases p.value_type.lanes, p.value_type.lane_bits,
{
    proof {
        lemma_half_is_smaller(st, p);
    }
    if p.location != ArgumentLoc::Unassigned {
        true
    } else {
        let (st1, action) = st.spec_assign(p);
        match action {
            ArgAction::Assign(loc) => st.assign_fits(p),
            ArgAction::Convert(conv) => {
                let q = AbiParam { value_type: conv.spec_apply(p.value_type), ..p };
                if conv.spec_is_split() {
                    fits_one(st1, q) && fits_one(legalize_one(st1, q).0, q)
                } else {
                    st1.assign_fits(q)
                }
            },
        }
    }
}

/// What the convention makes of a list of parameters, taken in order, and the
/// cursors after the last of them.
pub open spec fn legalize_seq(st: Args, ps: Seq<AbiParam>) -> (Args, Seq<AbiParam>)
    decreases ps.len(),
{
    if ps.len() == 0 {
        (st, Seq::empty())
    } else {
        let (st1, init) = legalize_seq(st, ps.drop_last());
        let (st2, last) = legalize_one(st1, ps.last());
        (st2, init + last)
    }
}

/// Whether every stack slot that `legalize_seq` hands out for `ps` ends at or
/// below the largest signed 32-bit offset.
pub open spec fn fits_seq(st: Args, ps: Seq<AbiParam>) -> bool
    decreases ps.len(),
{
    if ps.len() == 0 {
        true
    } else {
        fits_seq(st, ps.drop_last()) && fits_one(legalize_seq(st, ps.drop_last()).0, ps.last())
    }
}

/// Whether every parameter of the list has a well-formed type.
pub open spec fn typed(ps: Seq<AbiParam>) -> bool {
    forall|i: int| 0 <= i < ps.len() ==> (#[trigger] ps[i]).value_type.wf()
}

/// Appends to `out` what the convention makes of `arg`.
fn legalize_arg(arg: AbiParam, aa: &mut Args, out: &mut Vec<AbiParam>)
    requires
        old(aa).wf(),
        arg.value_type.wf(),
        fits_one(*old(aa), arg),
    ensures
        *final(aa) == legalize_one(*old(aa), arg).0,
        final(out)@ == old(out)@ + legalize_one(*old(aa), arg).1,
        final(aa).wf(),
    decreases arg.value_type.lanes, arg.value_type.lane_bits,
{
    // A location that was fixed beforehand stays.
    if arg.location.is_assigned() {
        out.push(arg);
        assert(final(out)@ =~= old(out)@ + seq![arg]);
        return ;
    }
    match aa.assign(&arg) {
        ArgAction::Assign(loc) => {
            out.push(AbiParam { location: loc, ..arg });
            assert(final(out)@ =~= old(out)@ + seq![AbiParam { location: loc, ..arg }]);
        },
        ArgAction::Convert(conv) => {
            let part = AbiParam { value_type: conv.apply(arg.value_type), ..arg };
            if conv.is_split() {
                // Both halves are looked at again, one after the other.
                let ghost st1 = *aa;
                legalize_arg(part, aa, out);
                legalize_arg(part, aa, out);
                assert(final(out)@ =~= old(out)@ + (legalize_one(st1, part).1 + legalize_one(
                    legalize_one(st1, part).0,
                    part,
                ).1));
            } else {
                match aa.assign(&part) {
                    ArgAction::Assign(loc) => {
                        out.push(AbiParam { location: loc, ..part });
                    },
                    ArgAction::Convert(_) => {},
                }
                assert(final(out)@ =~= old(out)@ + seq![
                    AbiParam { location: old(aa).next_location(false), ..part },
                ]);
            }
        },
    }
}

/// Moves the cursors past `arg` as `legalize_one` does, while every stack
/// slot on the way is within reach, and says whether all were.
fn fits_arg(arg: AbiParam, aa: &mut Args) -> (r: bool)
    requires
        old(aa).wf(),
        arg.value_type.wf(),
    ensures
        r == fits_one(*old(aa), arg),
        r ==> *final(aa) == legalize_one(*old(aa), arg).0,
        final(aa).wf(),
    decreases arg.value_type.lanes, arg.value_type.lane_bits,
{
    if arg.location.is_assigned() {
        return true;
    }
    if !aa.fits(&arg) {
        return false;
    }
    match aa.assign(&arg) {
        ArgAction::Assign(_) => true,
        ArgAction::Convert(conv) => {
            let part = AbiParam { value_type: conv.apply(arg.value_type), ..arg };
            if conv.is_split() {
                fits_arg(part, aa) && fits_arg(part, aa)
            } else {
                if !aa.fits(&part) {
                    return false;
                }
                aa.assign(&part);
                true
            }
        },
    }
}

/// Whether `args` can be legalized from the cursors `aa`: every type is well
/// formed and no stack slot ends beyond the largest signed 32-bit offset.
pub fn fits_args(args: &Vec<AbiParam>, aa: &Args) -> (r: bool)
    requires
        aa.wf(),
    ensures
        r == (typed(args@) && fits_seq(*aa, args@)),
{
    let mut cursors = *aa;
    let mut i: usize = 0;
    while i < args.len()
        invariant
            i <= args@.len(),
            cursors.wf(),
            typed(args@.take(i as int)),
            fits_seq(*aa, args@.take(i as int)),
            cursors == legalize_seq(*aa, args@.take(i as int)).0,
        decreases args@.len() - i,
    {
        proof {
            assert(args@.take(i + 1).drop_last() =~= args@.take(i as int));
            assert(args@.take(i + 1).last() == args@[i as int]);
        }
        if !args[i].value_type.is_wf() {
            assert(!typed(args@));
            return false;
        }
        if !fits_arg(args[i], &mut cursors) {
            proof {
                if fits_seq(*aa, args@) {
                    lemma_fits_prefix(*aa, args@, i + 1);
                }
            }
            return false;
        }
        proof {
            let longer = args@.take(i + 1);
            assert forall|k: int| 0 <= k < longer.len() implies (
            #[trigger] longer[k]).value_type.wf() by {
                if k < i {
                    assert(longer[k] == args@.take(i as int)[k]);
                }
            }
        }
        i += 1;
    }
    assert(args@.take(i as int) =~= args@);
    true
}

/// Gives every parameter of `args` its location, in order, cutting in two
/// and extending as the convention asks, and moves the cursors past them.
pub fn legalize_args(args: &mut Vec<AbiParam>, aa: &mut Args)
    requires
        old(aa).wf(),
        typed(old(args)@),
        fits_seq(*old(aa), old(args)@),
    ensures
        (*final(aa), final(args)@) == legalize_seq(*old(aa), old(args)@),
        final(aa).wf(),
{
    let mut out: Vec<AbiParam> = Vec::new();
    let n = args.len();
    let mut i: usize = 0;
    while i < n
        invariant
            i <= n,
            n == args@.len(),
            args@ == old(args)@,
            typed(args@),
            fits_seq(*old(aa), args@),
            aa.wf(),
            (*aa, out@) == legalize_seq(*old(aa), args@.take(i as int)),
        decreases n - i,
    {
        proof {
            assert(args@.take(i + 1).drop_last() =~= args@.take(i as int));
            assert(args@.take(i + 1).last() == args@[i as int]);
            lemma_fits_prefix(*old(aa), args@, i + 1);
        }
        legalize_arg(args[i], aa, &mut out);
        i += 1;
    }
    assert(args@.take(n as int) =~= args@);
    *args = out;
}

/// A list that fits does so up to any of its lengths.
proof fn lemma_fits_prefix(st: Args, ps: Seq<AbiParam>, n: int)
    requires
        fits_seq(st, ps),
        0 <= n <= ps.len(),
    ensures
        fits_seq(st, ps.take(n)),
    decreases ps.len(),
{
    if n == ps.len() {
        assert(ps.take(n) =~= ps);
    } else {
        lemma_fits_prefix(st, ps.drop_last(), n);
        assert(ps.drop_last().take(n) =~= ps.take(n));
    }
}

/// The link register `ra`, as the extra parameter and return value of a
/// function that is being compiled.
pub open spec fn link_param(bits: u8) -> AbiParam {
    AbiParam {
        value_type: Type::spec_integer(bits as u16).unwrap(),
        purpose: ArgumentPurpose::Link,
        extension: ArgumentExtension::NoExt,
        location: ArgumentLoc::Reg(31),
    }
}

/// A legalized list: what the convention makes of `ps` from the start of a
/// list, followed by the link register where the function is the current
/// one.
pub open spec fn legalized_list(bits: u8, is_for_return: bool, ps: Seq<AbiParam>, current: bool)
    -> Seq<AbiParam> {
    let placed = legalize_seq(Args::spec_new(bits, is_for_return), ps).1;
    if current {
        placed.push(link_param(bits))
    } else {
        placed
    }
}

/// Whether a signature can be legalized for pointers of `bits` bits: its types
/// are well formed and neither list runs the stack out of reach.
pub open spec fn signature_fits(bits: u8, sig: Signature) -> bool {
    &&& typed(sig.params@)
    &&& typed(sig.returns@)
    &&& fits_seq(Args::spec_new(bits, false), sig.params@)
    &&& fits_seq(Args::spec_new(bits, true), sig.returns@)
}

/// Whether a signature can be legalized for pointers of `bits` bits.
pub fn fits_signature(sig: &Signature, bits: u8) -> (r: bool)
    requires
        Type::spec_integer(bits as u16) is Some,
    ensures
        r == signature_fits(bits, *sig),
{
    fits_args(&sig.params, &Args::new(bits, false)) && fits_args(
        &sig.returns,
        &Args::new(bits, true),
    )
}

/// Legalizes `sig` for pointers of `bits` bits: parameters and return values
/// get their locations, each list from fresh cursors, and the link register
/// is added to both where `current` says that the signature is that of the
/// function being compiled.
pub fn legalize_signature_for(sig: &mut Signature, bits: u8, current: bool)
    requires
        Type::spec_integer(bits as u16) is Some,
        signature_fits(bits, *old(sig)),
    ensures
        final(sig).params@ == legalized_list(bits, false, old(sig).params@, current),
        final(sig).returns@ == legalized_list(bits, true, old(sig).returns@, current),
{
    let mut args = Args::new(bits, false);
    let ptr = args.pointer_type;
    legalize_args(&mut sig.params, &mut args);

    let mut rets = Args::new(bits, true);
    legalize_args(&mut sig.returns, &mut rets);

    if current {
        // Add the link register as an argument and return value.
        let link = AbiParam::special_reg(ptr, ArgumentPurpose::Link, gpr().unit(31));
        sig.params.push(link);
        sig.returns.push(link);
    }
}

/// Legalizes `sig` for the target that `triple` names, whose pointer width
/// must be known.
pub fn legalize_signature(sig: &mut Signature, triple: &Triple, isa_flags: &Flags, current: bool)
    requires
        triple_pointer_bits(*triple) is Some,
        signature_fits(triple_pointer_bits(*triple).unwrap(), *old(sig)),
    ensures
        final(sig).params@ == legalized_list(
            triple_pointer_bits(*triple).unwrap(),
            false,
            old(sig).params@,
            current,
        ),
        final(sig).returns@ == legalized_list(
            triple_pointer_bits(*triple).unwrap(),
            true,
            old(sig).returns@,
            current,
        ),
{
    let bits = match pointer_bits(triple) {
        Some(bits) => bits,
        None => 0,
    };
    legalize_signature_for(sig, bits, current)
}

/// Legalizes `sig` for the target that `triple` names, where its pointer
/// width is known and the signature can be legalized for it, and says
/// whether it did. Otherwise the signature stays as it is.
pub fn try_legalize_signature(
    sig: &mut Signature,
    triple: &Triple,
    isa_flags: &Flags,
    current: bool,
) -> (done: bool)
    ensures
        done == (triple_pointer_bits(*triple) matches Some(bits) && signature_fits(
            bits,
            *old(sig),
        )),
        done ==> final(sig).params@ == legalized_list(
            triple_pointer_bits(*triple).unwrap(),
            false,
            old(sig).params@,
            current,
        ) && final(sig).returns@ == legalized_list(
            triple_pointer_bits(*triple).unwrap(),
            true,
            old(sig).returns@,
            current,
        ),
        !done ==> final(sig).params@ == old(sig).params@ && final(sig).returns@ == old(
            sig,
        ).returns@,
{
    match pointer_bits(triple) {
        Some(bits) => {
            if fits_signature(sig, bits) {
                legalize_signature(sig, triple, isa_flags, current);
                true
            } else {
                false
            }
        },
        None => false,
    }
}

/// The register class for a type that appears in a legalized signature:
/// the floating-point registers for a floating-point type, the
/// general-purpose registers for any other.
pub fn regclass_for_abi_type(ty: Type) -> (r: RegClass)
    ensures
        r == if ty.kind == LaneKind::Float {
            fpr_class()
        } else {
            gpr_class()
        },
{
    if ty.is_float() {
        fpr()
    } else {
        gpr()
    }
}

/// Whether a unit is kept out of allocation: the hard-wired zero, the
/// assembler's temporary `at`, the kernel's `k0` and `k1`, the global pointer
/// and the stack pointer.
pub open spec fn is_reserved(unit: RegUnit) -> bool {
    unit == 0 || unit == 1 || unit == 26 || unit == 27 || unit == 28 || unit == 29
}

/// The units that a function's values may be allocated to: every unit but the
/// reserved ones. The link register `ra` is among them.
pub fn allocatable_registers(func: &Function, isa_flags: &Flags) -> (regs: RegisterSet)
    ensures
        regs@ =~= Set::new(|unit: RegUnit| unit < MAX_UNITS && !is_reserved(unit)),
{
    let mut regs = RegisterSet::new();
    regs.take(gpr(), gpr().unit(0));  // Hard-wired 0.
    regs.take(gpr(), gpr().unit(1));  // at is usually reserved.
    regs.take(gpr(), gpr().unit(26));  // k0.
    regs.take(gpr(), gpr().unit(27));  // k1.
    regs.take(gpr(), gpr().unit(28));  // Global pointer.
    regs.take(gpr(), gpr().unit(29));  // Stack pointer.
    regs
}

} // verus!
