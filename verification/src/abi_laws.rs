//! What holds of every legalized list: the locations follow from the types
//! alone, stack slots never overlap, and a wide integer lands on a pair.

use vstd::prelude::*;
use crate::abi::{
    align_up, first_register, fits_one, fits_seq, legalize_one, legalize_seq,
    lemma_half_is_smaller, signature_fits, typed, ArgAction, Args, ValueConversion,
};
use crate::ir::{AbiParam, ArgumentLoc, Signature};
use crate::types::{LaneKind, Type};

verus! {

/// Whether no parameter of the list has a location yet.
pub open spec fn unassigned(ps: Seq<AbiParam>) -> bool {
    forall|i: int| 0 <= i < ps.len() ==> (#[trigger] ps[i]).location == ArgumentLoc::Unassigned
}

/// The locations of a list of parameters, in order.
pub open spec fn locations(ps: Seq<AbiParam>) -> Seq<ArgumentLoc> {
    ps.map_values(|p: AbiParam| p.location)
}

/// Whether two sets of cursors are set up alike: for the same pointer and the
/// same role.
pub open spec fn same_setup(a: Args, b: Args) -> bool {
    &&& a.pointer_bits == b.pointer_bits
    &&& a.pointer_bytes == b.pointer_bytes
    &&& a.pointer_type == b.pointer_type
    &&& a.is_for_return == b.is_for_return
    &&& a.reg_limit == b.reg_limit
}

/// Whether the stack slots among `out` lie between the offsets `lo` and `hi`,
/// each `size` bytes long, and come in rising order without touching: a later
/// slot starts where an earlier one ends, or after that.
pub open spec fn slots_in_order(out: Seq<AbiParam>, lo: int, hi: int, size: int) -> bool {
    &&& forall|k: int|
        0 <= k < out.len() ==> ((#[trigger] out[k]).location matches ArgumentLoc::Stack(at) ==> lo
            <= at && at + size <= hi)
    &&& forall|k: int, l: int|
        0 <= k < l < out.len() ==> ((#[trigger] out[k]).location matches ArgumentLoc::Stack(a) ==> (
        (#[trigger] out[l]).location matches ArgumentLoc::Stack(b) ==> a + size <= b))
}

/// Slots in order between `lo` and `mid`, followed by slots in order between
/// `mid` and `hi`, are in order between `lo` and `hi`.
proof fn lemma_slots_concat(
    x: Seq<AbiParam>,
    y: Seq<AbiParam>,
    lo: int,
    mid: int,
    hi: int,
    size: int,
)
    requires
        slots_in_order(x, lo, mid, size),
        slots_in_order(y, mid, hi, size),
        lo <= mid <= hi,
        size >= 0,
    ensures
        slots_in_order(x + y, lo, hi, size),
{
    let z = x + y;
    assert forall|k: int| 0 <= k < z.len() implies ((
    #[trigger] z[k]).location matches ArgumentLoc::Stack(at) ==> lo <= at && at + size <= hi) by {
        if k < x.len() {
            assert(z[k] == x[k]);
        } else {
            assert(z[k] == y[k - x.len()]);
        }
    }
    assert forall|k: int, l: int| 0 <= k < l < z.len() implies ((
    #[trigger] z[k]).location matches ArgumentLoc::Stack(a) ==> ((
    #[trigger] z[l]).location matches ArgumentLoc::Stack(b) ==> a + size <= b)) by {
        if k < x.len() {
            assert(z[k] == x[k]);
        } else {
            assert(z[k] == y[k - x.len()]);
        }
        if l < x.len() {
            assert(z[l] == x[l]);
        } else {
            assert(z[l] == y[l - x.len()]);
        }
    }
}

/// What the convention makes of one parameter that had no location: the
/// cursors stay consistent and set up as before, the stack cursor does not go
/// back, every value has a location and a well-formed type, and the stack
/// slots handed out lie between the old and the new stack cursor, in rising
/// order and without touching.
pub proof fn lemma_legalize_one_in_order(st: Args, p: AbiParam)
    requires
        st.wf(),
        p.value_type.wf(),
        p.location == ArgumentLoc::Unassigned,
        fits_one(st, p),
    ensures
        legalize_one(st, p).0.wf(),
        same_setup(st, legalize_one(st, p).0),
        st.offset <= legalize_one(st, p).0.offset,
        typed(legalize_one(st, p).1),
        forall|k: int|
            0 <= k < legalize_one(st, p).1.len() ==> (#[trigger] legalize_one(st, p).1[k]).location
                != ArgumentLoc::Unassigned,
        slots_in_order(
            legalize_one(st, p).1,
            st.offset as int,
            legalize_one(st, p).0.offset as int,
            st.pointer_bytes as int,
        ),
    decreases p.value_type.lanes, p.value_type.lane_bits,
{
    lemma_half_is_smaller(st, p);
    lemma_assign_keeps_wf(st, p);
    let (st1, action) = st.spec_assign(p);
    match action {
        ArgAction::Assign(loc) => {},
        ArgAction::Convert(conv) => {
            let q = AbiParam { value_type: conv.spec_apply(p.value_type), ..p };
            if conv.spec_is_split() {
                lemma_legalize_one_in_order(st1, q);
                let (st2, first) = legalize_one(st1, q);
                lemma_legalize_one_in_order(st2, q);
                let (st3, second) = legalize_one(st2, q);
                lemma_slots_concat(
                    first,
                    second,
                    st1.offset as int,
                    st2.offset as int,
                    st3.offset as int,
                    st.pointer_bytes as int,
                );
                let out = first + second;
                assert forall|k: int| 0 <= k < out.len() implies (#[trigger] out[k]).value_type.wf()
                    && out[k].location != ArgumentLoc::Unassigned by {
                    if k < first.len() {
                        assert(out[k] == first[k]);
                    } else {
                        assert(out[k] == second[k - first.len()]);
                    }
                }
                assert(slots_in_order(
                    out,
                    st.offset as int,
                    st3.offset as int,
                    st.pointer_bytes as int,
                ));
            } else {
                lemma_assign_keeps_wf(st1, q);
            }
        },
    }
}

/// One step of the convention on consistent cursors, where it fits, leaves
/// them consistent and set up as before, does not move the stack cursor back,
/// and cuts in two only what can be halved.
pub proof fn lemma_assign_keeps_wf(st: Args, p: AbiParam)
    requires
        st.wf(),
        p.value_type.wf(),
        st.assign_fits(p),
    ensures
        st.spec_assign(p).0.wf(),
        same_setup(st, st.spec_assign(p).0),
        st.offset <= st.spec_assign(p).0.offset,
        st.spec_assign(p).1 matches ArgAction::Convert(conv) ==> {
            &&& conv.spec_is_split() ==> p.value_type.can_halve() && p.value_type.spec_half().wf()
            &&& !conv.spec_is_split() ==> conv.spec_apply(p.value_type) == st.pointer_type
                && st.spec_assign(AbiParam { value_type: st.pointer_type, ..p }) == (
                st.advanced(false),
                ArgAction::Assign(st.next_location(false)),
            )
        },
        st.spec_assign(p).1 matches ArgAction::Assign(loc) ==> loc != ArgumentLoc::Unassigned && (
        loc matches ArgumentLoc::Stack(at) ==> at == st.offset && st.spec_assign(p).0.offset
            == st.offset + st.pointer_bytes),
        st.spec_assign(p).1 is Convert ==> st.spec_assign(p).0.offset as int % (
        2 * st.pointer_bytes) == 0 || st.spec_assign(p).0 == st,
{
    let ty = p.value_type;
    if ty.lanes > 1 {
    } else if st.is_oversized(ty) {
        lemma_align_up(st.regs as int, 2);
        lemma_align_up(st.offset as int, 2 * st.pointer_bytes);
        let to = 2 * st.pointer_bytes;
        let at = align_up(st.offset as int, to);
        assert(to == 2 || to == 4 || to == 8 || to == 16 || to == 32);
        assert(at <= 0x8000_0000) by {
            if to == 2 {
                assert(at % 2 == 0);
            } else if to == 4 {
                assert(at % 4 == 0);
            } else if to == 8 {
                assert(at % 8 == 0);
            } else if to == 16 {
                assert(at % 16 == 0);
            } else {
                assert(at % 32 == 0);
            }
        }
    } else {
    }
}

/// Rounding up to a multiple of `to` gives the least multiple of `to` that is
/// not below the value.
pub proof fn lemma_align_up(value: int, to: int)
    requires
        value >= 0,
        to > 0,
    ensures
        value <= align_up(value, to) < value + to,
        align_up(value, to) % to == 0,
{
    let top = value + to - 1;
    assert(top == to * (top / to) + top % to && 0 <= top % to < to) by (nonlinear_arith)
        requires
            to > 0,
    ;
    assert(((top / to) * to) % to == 0) by (nonlinear_arith)
        requires
            to > 0,
    ;
    assert((top / to) * to == to * (top / to)) by (nonlinear_arith);
}

/// What the convention makes of a list of parameters that had no locations:
/// the cursors stay consistent and set up as before, and the stack slots
/// handed out lie between the old and the new stack cursor, in rising order
/// and without touching.
pub proof fn lemma_legalize_seq_in_order(st: Args, ps: Seq<AbiParam>)
    requires
        st.wf(),
        typed(ps),
        unassigned(ps),
        fits_seq(st, ps),
    ensures
        legalize_seq(st, ps).0.wf(),
        same_setup(st, legalize_seq(st, ps).0),
        st.offset <= legalize_seq(st, ps).0.offset,
        slots_in_order(
            legalize_seq(st, ps).1,
            st.offset as int,
            legalize_seq(st, ps).0.offset as int,
            st.pointer_bytes as int,
        ),
    decreases ps.len(),
{
    if ps.len() > 0 {
        let front = ps.drop_last();
        assert forall|i: int| 0 <= i < front.len() implies (#[trigger] front[i]).value_type.wf()
            && front[i].location == ArgumentLoc::Unassigned by {
            assert(front[i] == ps[i]);
        }
        lemma_legalize_seq_in_order(st, front);
        let (st1, init) = legalize_seq(st, front);
        lemma_legalize_one_in_order(st1, ps.last());
        let (st2, last) = legalize_one(st1, ps.last());
        lemma_slots_concat(
            init,
            last,
            st.offset as int,
            st1.offset as int,
            st2.offset as int,
            st.pointer_bytes as int,
        );
    }
}

/// No two parameters get overlapping stack slots: of two values that a list
/// without earlier locations has on the stack, the later one starts where the
/// earlier one ends, or after that, and no slot starts below the stack cursor
/// that the list began with.
pub proof fn lemma_stack_slots_do_not_overlap(st: Args, ps: Seq<AbiParam>, i: int, j: int)
    requires
        st.wf(),
        typed(ps),
        unassigned(ps),
        fits_seq(st, ps),
        0 <= i < j < legalize_seq(st, ps).1.len(),
        legalize_seq(st, ps).1[i].location is Stack,
        legalize_seq(st, ps).1[j].location is Stack,
    ensures
        st.offset <= legalize_seq(st, ps).1[i].location->Stack_0,
        legalize_seq(st, ps).1[i].location->Stack_0 + st.pointer_bytes <= legalize_seq(
            st,
            ps,
        ).1[j].location->Stack_0,
{
    lemma_legalize_seq_in_order(st, ps);
}

/// Whether two parameters are typed alike: same type, same extension, and the
/// same location to begin with.
pub open spec fn typed_alike(p: AbiParam, q: AbiParam) -> bool {
    p.value_type == q.value_type && p.extension == q.extension && p.location == q.location
}

/// Two parameters that are typed alike fare alike: from the same cursors they
/// get the same locations and leave the same cursors, whatever else differs
/// between them.
pub proof fn lemma_legalize_one_by_type(st: Args, p: AbiParam, q: AbiParam)
    requires
        typed_alike(p, q),
    ensures
        legalize_one(st, p).0 == legalize_one(st, q).0,
        legalize_one(st, p).1.len() == legalize_one(st, q).1.len(),
        forall|k: int|
            0 <= k < legalize_one(st, p).1.len() ==> typed_alike(
                #[trigger] legalize_one(st, p).1[k],
                legalize_one(st, q).1[k],
            ),
    decreases p.value_type.lanes, p.value_type.lane_bits,
{
    lemma_half_is_smaller(st, p);
    if p.location == ArgumentLoc::Unassigned {
        let (st1, action) = st.spec_assign(p);
        assert(st.spec_assign(q) == (st1, action));
        match action {
            ArgAction::Assign(loc) => {},
            ArgAction::Convert(conv) => {
                let hp = AbiParam { value_type: conv.spec_apply(p.value_type), ..p };
                let hq = AbiParam { value_type: conv.spec_apply(q.value_type), ..q };
                if conv.spec_is_split() {
                    lemma_legalize_one_by_type(st1, hp, hq);
                    let (st2, first) = legalize_one(st1, hp);
                    lemma_legalize_one_by_type(st2, hp, hq);
                    let second = legalize_one(st2, hp).1;
                    let first_q = legalize_one(st1, hq).1;
                    let second_q = legalize_one(st2, hq).1;
                    let out = first + second;
                    let out_q = first_q + second_q;
                    assert forall|k: int| 0 <= k < out.len() implies typed_alike(
                        #[trigger] out[k],
                        out_q[k],
                    ) by {
                        if k < first.len() {
                            assert(out[k] == first[k]);
                            assert(out_q[k] == first_q[k]);
                        } else {
                            assert(out[k] == second[k - first.len()]);
                            assert(out_q[k] == second_q[k - first.len()]);
                        }
                    }
                }
            },
        }
    }
}

/// Legalization is determined by the types: two lists that are typed alike,
/// parameter by parameter, get the same locations from the same cursors and
/// leave the same cursors.
pub proof fn lemma_locations_follow_types(st: Args, ps: Seq<AbiParam>, qs: Seq<AbiParam>)
    requires
        ps.len() == qs.len(),
        forall|i: int| 0 <= i < ps.len() ==> typed_alike(#[trigger] ps[i], qs[i]),
    ensures
        legalize_seq(st, ps).0 == legalize_seq(st, qs).0,
        locations(legalize_seq(st, ps).1) == locations(legalize_seq(st, qs).1),
    decreases ps.len(),
{
    if ps.len() > 0 {
        let (fp, fq) = (ps.drop_last(), qs.drop_last());
        assert forall|i: int| 0 <= i < fp.len() implies typed_alike(#[trigger] fp[i], fq[i]) by {
            assert(fp[i] == ps[i] && fq[i] == qs[i]);
        }
        lemma_locations_follow_types(st, fp, fq);
        let (st1, init) = legalize_seq(st, fp);
        let init_q = legalize_seq(st, fq).1;
        assert(typed_alike(ps[ps.len() - 1], qs[ps.len() - 1]));
        lemma_legalize_one_by_type(st1, ps.last(), qs.last());
        let last = legalize_one(st1, ps.last()).1;
        let last_q = legalize_one(st1, qs.last()).1;
        assert(init.len() == init_q.len()) by {
            assert(locations(init).len() == locations(init_q).len());
        }
        assert forall|k: int| 0 <= k < init.len() + last.len() implies locations(init + last)[k]
            == locations(init_q + last_q)[k] by {
            if k < init.len() {
                assert(locations(init)[k] == locations(init_q)[k]);
            } else {
                assert(typed_alike(last[k - init.len()], last_q[k - init.len()]));
            }
        }
        assert(locations(init + last) =~= locations(init_q + last_q));
    } else {
        assert(locations(legalize_seq(st, ps).1) =~= locations(legalize_seq(st, qs).1));
    }
}

/// An integer twice as wide as a register, coming without a location, is cut
/// into two register-wide halves that land on a pair: on two registers in a
/// row, the first an even number of slots from the first register of the
/// list, or on two stack slots in a row, the first at a multiple of two
/// pointers.
pub proof fn lemma_wide_integer_lands_on_a_pair(st: Args, p: AbiParam)
    requires
        st.wf(),
        p.value_type.wf(),
        p.value_type.kind == LaneKind::Int,
        p.value_type.lanes == 1,
        p.value_type.lane_bits == 2 * st.pointer_bits,
        p.location == ArgumentLoc::Unassigned,
        fits_one(st, p),
    ensures
        st.spec_assign(p).1 == ArgAction::Convert(ValueConversion::IntSplit),
        legalize_one(st, p).1.len() == 2,
        legalize_one(st, p).1[0].value_type == st.pointer_type,
        legalize_one(st, p).1[1].value_type == st.pointer_type,
        ({
            let first = legalize_one(st, p).1[0].location;
            let second = legalize_one(st, p).1[1].location;
            ||| (first matches ArgumentLoc::Reg(low) && second matches ArgumentLoc::Reg(high)
                && high == low + 1 && (low - first_register(false, st.is_for_return)) % 2 == 0
                && low - first_register(false, st.is_for_return) + 1 < st.reg_limit)
            ||| (first matches ArgumentLoc::Stack(low) && second matches ArgumentLoc::Stack(high)
                && high == low + st.pointer_bytes && low as int % (2 * st.pointer_bytes) == 0 && low
                >= 0)
        }),
{
    lemma_assign_keeps_wf(st, p);
    let st1 = st.pair_aligned();
    let q = AbiParam { value_type: p.value_type.spec_half(), ..p };
    assert(q.value_type == st.pointer_type);
    lemma_align_up(st.regs as int, 2);
    lemma_align_up(st.offset as int, 2 * st.pointer_bytes);
    assert(legalize_one(st, p).1 == legalize_one(st1, q).1 + legalize_one(
        legalize_one(st1, q).0,
        q,
    ).1);
    let (st2, first) = legalize_one(st1, q);
    assert(first == seq![AbiParam { location: st1.next_location(false), ..q }]);
    assert(st2 == st1.advanced(false));
    let second = legalize_one(st2, q).1;
    assert(second == seq![AbiParam { location: st2.next_location(false), ..q }]);
    assert(fits_one(st1, q) && fits_one(st2, q));
    assert(st1.assign_fits(q) && st2.assign_fits(q));
    assert(st1.regs % 2 == 0);
    if st1.regs < st1.reg_limit {
        assert(st1.regs + 1 < st1.reg_limit);
        assert(st2.regs == st1.regs + 1);
    } else {
        assert(st1.offset + st.pointer_bytes <= i32::MAX);
        assert(st1.offset as int % (2 * st.pointer_bytes) == 0);
        assert(st2.offset == st1.offset + st.pointer_bytes);
    }
    assert((first + second)[0] == first[0]);
    assert((first + second)[1] == second[0]);
}

/// A bound on the stack that a value of a type takes, with the gaps that
/// alignment leaves: forty-eight bytes for each of its bits, less thirty-two.
pub open spec fn stack_bound(ty: Type) -> int {
    48 * ty.spec_bits() - 32
}

/// A well-formed type has one bit at least, and 32768 at most.
pub proof fn lemma_bits_bounds(ty: Type)
    requires
        ty.wf(),
    ensures
        1 <= ty.spec_bits() <= 32768,
        ty.can_halve() ==> 2 * ty.spec_half().spec_bits() == ty.spec_bits(),
{
    let (bits, lanes) = (ty.lane_bits as int, ty.lanes as int);
    assert(1 <= bits * lanes <= 32768) by (nonlinear_arith)
        requires
            1 <= bits <= 128,
            1 <= lanes <= 256,
    ;
    if ty.lanes > 1 {
        assert(2 * (bits * (lanes / 2)) == bits * lanes) by (nonlinear_arith)
            requires
                lanes % 2 == 0,
        ;
    }
}

/// A parameter fits wherever the stack has room for the bound of its type,
/// and moves the stack cursor by no more than that bound.
pub proof fn lemma_one_fits(st: Args, p: AbiParam)
    requires
        st.wf(),
        p.value_type.wf(),
        st.offset + stack_bound(p.value_type) <= i32::MAX,
    ensures
        fits_one(st, p),
        legalize_one(st, p).0.wf(),
        same_setup(st, legalize_one(st, p).0),
        legalize_one(st, p).0.offset <= st.offset + stack_bound(p.value_type),
    decreases p.value_type.lanes, p.value_type.lane_bits,
{
    lemma_half_is_smaller(st, p);
    lemma_bits_bounds(p.value_type);
    if p.location == ArgumentLoc::Unassigned {
        lemma_assign_keeps_wf(st, p);
        let (st1, action) = st.spec_assign(p);
        match action {
            ArgAction::Assign(loc) => {},
            ArgAction::Convert(conv) => {
                let q = AbiParam { value_type: conv.spec_apply(p.value_type), ..p };
                if conv.spec_is_split() {
                    lemma_bits_bounds(q.value_type);
                    if conv == ValueConversion::IntSplit {
                        lemma_align_up(st.offset as int, 2 * st.pointer_bytes);
                    }
                    assert(st1.offset <= st.offset + 32);
                    lemma_one_fits(st1, q);
                    lemma_one_fits(legalize_one(st1, q).0, q);
                } else {
                    lemma_assign_keeps_wf(st1, q);
                }
            },
        }
    }
}

/// How many parameters a list may have to fit for certain.
pub open spec fn short_list() -> int {
    1000
}

/// A list of well-typed parameters fits wherever the stack has room for the
/// bounds of all its types, the largest of which is 1572832 bytes.
pub proof fn lemma_list_fits(st: Args, ps: Seq<AbiParam>)
    requires
        st.wf(),
        typed(ps),
        st.offset + 1572832 * ps.len() <= i32::MAX,
    ensures
        fits_seq(st, ps),
        legalize_seq(st, ps).0.wf(),
        same_setup(st, legalize_seq(st, ps).0),
        legalize_seq(st, ps).0.offset <= st.offset + 1572832 * ps.len(),
    decreases ps.len(),
{
    if ps.len() > 0 {
        let front = ps.drop_last();
        assert forall|i: int| 0 <= i < front.len() implies (
        #[trigger] front[i]).value_type.wf() by {
            assert(front[i] == ps[i]);
        }
        lemma_list_fits(st, front);
        lemma_bits_bounds(ps.last().value_type);
        lemma_one_fits(legalize_seq(st, front).0, ps.last());
    }
}

/// Every signature of at most a thousand well-typed parameters and as many
/// return values can be legalized, whatever the width of a pointer.
pub proof fn lemma_short_signatures_fit(bits: u8, sig: Signature)
    requires
        Type::spec_integer(bits as u16) is Some,
        typed(sig.params@),
        typed(sig.returns@),
        sig.params@.len() <= short_list(),
        sig.returns@.len() <= short_list(),
    ensures
        signature_fits(bits, sig),
{
    lemma_list_fits(Args::spec_new(bits, false), sig.params@);
    lemma_list_fits(Args::spec_new(bits, true), sig.returns@);
}

} // verus!
