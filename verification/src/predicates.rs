//! Range checks on immediate operands.

use vstd::prelude::*;
use vstd::arithmetic::div_mod::{lemma_fundamental_div_mod, lemma_fundamental_div_mod_converse};
use vstd::arithmetic::power2::{
    lemma2_to64, lemma2_to64_rest, lemma_pow2_pos, lemma_pow2_strictly_increases,
    lemma_pow2_unfold, pow2,
};

verus! {

/// Whether `x` can be held as a signed number of `wd` bits whose lowest `sc`
/// bits are zero: it is at least -2^(wd-1), less than 2^(wd-1), and a multiple
/// of 2^sc.
pub open spec fn signed_int_fits(x: int, wd: nat, sc: nat) -> bool {
    &&& wd > 0
    &&& -pow2((wd - 1) as nat) <= x < pow2((wd - 1) as nat)
    &&& x % (pow2(sc) as int) == 0
}

/// Two to the power of `n`.
fn power_of_two(n: u8) -> (r: u128)
    requires
        n <= 64,
    ensures
        r == pow2(n as nat),
        r >= 1,
{
    let mut r: u128 = 1;
    let mut i: u8 = 0;
    proof {
        lemma2_to64();
    }
    while i < n
        invariant
            i <= n <= 64,
            r == pow2(i as nat),
            r >= 1,
            pow2(64) == 0x1_0000_0000_0000_0000,
        decreases n - i,
    {
        proof {
            lemma_pow2_unfold((i + 1) as nat);
            if i + 1 < 64 {
                lemma_pow2_strictly_increases((i + 1) as nat, 64);
            }
        }
        r = r * 2;
        i += 1;
    }
    r
}

/// A multiple of `m` has a negation that is a multiple of `m`.
proof fn lemma_negated_multiple(x: int, m: int)
    requires
        m > 0,
        x % m == 0,
    ensures
        (-x) % m == 0,
{
    lemma_fundamental_div_mod(x, m);
    let q = -(x / m);
    assert(-x == q * m + 0) by (nonlinear_arith)
        requires
            x == m * (x / m) + x % m,
            x % m == 0,
            q == -(x / m),
    ;
    lemma_fundamental_div_mod_converse(-x, m, q, 0);
}

/// A number is a multiple of `m` exactly when its negation is.
proof fn lemma_negation_keeps_multiples(x: int, m: int)
    requires
        m > 0,
    ensures
        ((-x) % m == 0) == (x % m == 0),
{
    if x % m == 0 {
        lemma_negated_multiple(x, m);
    }
    if (-x) % m == 0 {
        lemma_negated_multiple(-x, m);
    }
}

/// Whether `x` can be held as a signed number of `wd` bits whose lowest `sc`
/// bits are zero.
pub fn is_signed_int(x: i64, wd: u8, sc: u8) -> (r: bool)
    requires
        0 < wd <= 64,
        sc < wd,
    ensures
        r == signed_int_fits(x as int, wd as nat, sc as nat),
{
    let wide: i128 = x as i128;
    let in_range = if wd == 64 {
        proof {
            lemma2_to64_rest();
        }
        true
    } else {
        let half = power_of_two(wd - 1);
        proof {
            lemma2_to64();
            lemma_pow2_strictly_increases((wd - 1) as nat, 64);
        }
        let half: i128 = half as i128;
        -half <= wide && wide < half
    };
    let step = power_of_two(sc);
    proof {
        lemma2_to64();
        lemma_pow2_strictly_increases(sc as nat, 64);
        lemma_pow2_pos(sc as nat);
        lemma_negation_keeps_multiples(x as int, pow2(sc as nat) as int);
    }
    let step: i128 = step as i128;
    let size: i128 = if wide < 0 {
        -wide
    } else {
        wide
    };
    in_range && size % step == 0
}

} // verus!
