//! Averaging two decoded amplitudes into one PCM value, exactly.
//!
//! The two channels may differ in size by hundreds of binary orders, so
//! their sum does not fit a machine word. Where the exponents are close the
//! sum is formed in full. Where they are far apart the smaller channel can
//! only decide which way a tie falls, and it is folded into the larger one
//! by a floor division that keeps the rounding exact.

use vstd::prelude::*;
use vstd::arithmetic::div_mod::{lemma_div_denominator, lemma_hoist_over_denominator};
use vstd::arithmetic::power2::{
    lemma2_to64, lemma2_to64_rest, lemma_pow2_adds, lemma_pow2_pos,
    lemma_pow2_strictly_increases, lemma_pow2_unfold, pow2,
};
use crate::ieee::Decoded;
use crate::scale::{
    lemma_pow2_127, lemma_quotient, lemma_quotient_spans, lemma_round_even, lemma_round_reduce,
    lemma_saturates, lemma_steps_scaled, pcm_of_ratio, pow2_u128, round_scaled, signed,
};

verus! {

/// The exponents up to which the sum of two channels is formed in full.
pub const FULL_SUM_SPAN: u32 = 58;

/// The PCM value of the average of two amplitudes given in steps of
/// `2^-point`, and 0 where either is not a number.
pub open spec fn pcm_of_average(a: Decoded, b: Decoded, point: nat) -> i16 {
    if a.nan || b.nan {
        0i16
    } else {
        pcm_of_ratio(a.steps() + b.steps(), 2 * pow2(point) as int)
    }
}

/// Dividing a negated number rounds the other way.
proof fn lemma_neg_quotient(v: int, d: int)
    requires
        v >= 0,
        d > 0,
    ensures
        (-v) / d == -((v + d - 1) / d),
{
    let c = (v + d - 1) / d;
    lemma_quotient_spans(v + d - 1, d);
    assert((-c) * d == -(c * d)) by (nonlinear_arith);
    lemma_quotient(-v, d, -c);
}

/// The scaled sum of two amplitudes over the smaller one's exponent.
proof fn lemma_total(hi: Decoded, lo: Decoded, x: nat, spread: int, low: int)
    requires
        pow2(hi.shift as nat) == spread * low,
        pow2(lo.shift as nat) == low,
        x == hi.significand as nat * 32767 * spread,
    ensures
        (hi.steps() + lo.steps()) * 32767 == (signed(hi.negative, x) + signed(
            lo.negative,
            lo.significand as nat * 32767,
        )) * low,
{
    lemma_steps_scaled(hi);
    lemma_steps_scaled(lo);
    let u = hi.significand as int * 32767;
    let v = lo.significand as int * 32767;
    let xi = x as int;
    assert(u * (spread * low) == xi * low) by (nonlinear_arith)
        requires
            xi == u * spread,
    ;
    assert((-u) * (spread * low) == (-xi) * low) by (nonlinear_arith)
        requires
            xi == u * spread,
    ;
    let p = signed(hi.negative, x);
    let q = signed(lo.negative, v as nat);
    assert((p + q) * low == p * low + q * low) by (nonlinear_arith);
}

/// Folding a small addend into the quotient: dividing `a * k + w` by
/// `k * 2h` after adding half of that is dividing `a + w / k` by `2h` after
/// adding `h`.
proof fn lemma_fold(a: int, w: int, k: int, h: int)
    requires
        k > 0,
        h > 0,
        a * k + w >= 0,
    ensures
        (a * k + w + h * k) / (2 * (h * k)) == (a + w / k + h) / (2 * h),
{
    let x = a * k + w + h * k;
    assert(x == w + (a + h) * k) by (nonlinear_arith)
        requires
            x == a * k + w + h * k,
    ;
    assert(h * k > 0) by (nonlinear_arith)
        requires
            h > 0,
            k > 0,
    ;
    lemma_hoist_over_denominator(w, a + h, k as nat);
    lemma_div_denominator(x, k, 2 * h);
    assert(k * (2 * h) == 2 * (h * k)) by (nonlinear_arith);
}

/// Converts the average of two amplitudes, the first with the larger
/// exponent.
fn pcm_of_aligned(hi: &Decoded, lo: &Decoded, point: u32) -> (pcm: i16)
    requires
        hi.well_formed(),
        lo.well_formed(),
        !hi.nan,
        !lo.nan,
        hi.shift >= lo.shift,
        point < u32::MAX,
    ensures
        pcm == pcm_of_ratio(hi.steps() + lo.steps(), 2 * pow2(point as nat) as int),
{
    let u: u128 = hi.significand as u128 * 32767;
    let v: u128 = lo.significand as u128 * 32767;
    let d: u32 = hi.shift - lo.shift;
    let ghost total = (hi.steps() + lo.steps()) * 32767;
    let ghost low = pow2(lo.shift as nat) as int;
    let ghost spread = pow2(d as nat) as int;
    let ghost down = pow2((point + 1) as nat) as int;
    proof {
        lemma_pow2_unfold((point + 1) as nat);
        lemma_pow2_adds(d as nat, lo.shift as nat);
        lemma_pow2_pos(d as nat);
        lemma_pow2_pos(lo.shift as nat);
        lemma_pow2_pos((point + 1) as nat);
        lemma_pow2_127();
        lemma2_to64();
        lemma2_to64_rest();
        lemma_steps_scaled(*hi);
        lemma_steps_scaled(*lo);
    }
    if u == 0 {
        return round_scaled(lo.negative, v, lo.shift, point + 1);
    }
    if v == 0 {
        return round_scaled(hi.negative, u, hi.shift, point + 1);
    }
    if d <= FULL_SUM_SPAN {
        proof {
            if d < 58 {
                lemma_pow2_strictly_increases(d as nat, 58);
            }
            assert(u * spread < 0x4000_0000_0000_0000_0000_0000_0000_0000) by (nonlinear_arith)
                requires
                    0 <= u < 0x10_0000_0000_0000_0000,
                    0 < spread <= 0x400_0000_0000_0000,
            ;
        }
        let x: u128 = u * pow2_u128(d);
        proof {
            lemma_total(*hi, *lo, x as nat, spread, low);
        }
        if hi.negative == lo.negative {
            round_scaled(hi.negative, x + v, lo.shift, point + 1)
        } else if x >= v {
            round_scaled(hi.negative, x - v, lo.shift, point + 1)
        } else {
            round_scaled(lo.negative, v - x, lo.shift, point + 1)
        }
    } else {
        let k: u32 = d - FULL_SUM_SPAN;
        let a: u128 = u * pow2_u128(FULL_SUM_SPAN);
        let same: bool = hi.negative == lo.negative;
        let ghost step = pow2(k as nat) as int;
        let ghost w: int = if same {
            v as int
        } else {
            -(v as int)
        };
        proof {
            lemma_pow2_pos(k as nat);
            lemma_pow2_adds(58, k as nat);
            assert(a >= 0x80_0000 * 32767 * 0x400_0000_0000_0000) by (nonlinear_arith)
                requires
                    a == (hi.significand as int * 32767) * 0x400_0000_0000_0000,
                    hi.significand >= 0x80_0000,
            ;
        }
        let folded: u128 = if k >= 68 {
            proof {
                if k > 68 {
                    lemma_pow2_strictly_increases(68, k as nat);
                }
                lemma_pow2_adds(64, 4);
                lemma_quotient(v as int, step, 0);
                lemma_quotient(-(v as int), step, -1);
            }
            if same {
                a
            } else {
                a - 1
            }
        } else {
            let unit: u128 = pow2_u128(k);
            proof {
                lemma_pow2_strictly_increases(k as nat, 68);
                lemma_pow2_adds(64, 4);
                lemma_neg_quotient(v as int, step);
                lemma_quotient_spans(v as int, step);
                lemma_quotient_spans(v + step - 1, step);
                assert((v as int / step) * step >= 0 ==> v as int / step >= 0) by (nonlinear_arith)
                    requires
                        step > 0,
                ;
            }
            if same {
                a + v / unit
            } else {
                a - (v + unit - 1) / unit
            }
        };
        assert(folded == a + w / step);
        let t: u32 = lo.shift + k;
        let ghost top = pow2(t as nat) as int;
        let ghost m: int = a * step + w;
        proof {
            lemma_pow2_adds(k as nat, lo.shift as nat);
            lemma_pow2_pos(t as nat);
            assert(spread == 0x400_0000_0000_0000 * step);
            assert(u * spread == a * step) by (nonlinear_arith)
                requires
                    a == u * 0x400_0000_0000_0000,
                    spread == 0x400_0000_0000_0000 * step,
            ;
            assert(a * step >= a) by (nonlinear_arith)
                requires
                    a >= 0,
                    step >= 1,
            ;
            lemma_total(*hi, *lo, (a * step) as nat, spread, low);
            assert(m >= 65536 * step) by (nonlinear_arith)
                requires
                    m == a * step + w,
                    w > -0x10_0000_0000_0000_0000,
                    a >= 0x80_0000 * 32767 * 0x400_0000_0000_0000,
                    step >= 1,
            ;
            assert(total == signed(hi.negative, m as nat) * low);
            assert(signed(hi.negative, m as nat) * low == signed(
                hi.negative,
                (m * low) as nat,
            )) by (nonlinear_arith)
                requires
                    m > 0,
                    low > 0,
            ;
            assert(signed(hi.negative, folded as nat) * top == signed(
                hi.negative,
                (folded * top) as nat,
            )) by (nonlinear_arith)
                requires
                    folded > 0,
                    top > 0,
            ;
            if t >= point + 1 {
                if t > point + 1 {
                    lemma_pow2_strictly_increases((point + 1) as nat, t as nat);
                }
                assert(folded * top >= 65536 * down) by (nonlinear_arith)
                    requires
                        folded >= 65536,
                        top >= down,
                        down > 0,
                ;
                assert(m * low >= 65536 * down) by (nonlinear_arith)
                    requires
                        m >= 65536 * step,
                        top == step * low,
                        top >= down,
                        low > 0,
                        step > 0,
                ;
                lemma_saturates(hi.negative, (folded * top) as nat, signed(
                    hi.negative,
                    folded as nat,
                ) * top, down);
                lemma_saturates(hi.negative, (m * low) as nat, total, down);
            } else {
                let r: nat = (point + 1 - t) as nat;
                let half = pow2((r - 1) as nat) as int;
                let span = pow2(r) as int;
                lemma_pow2_pos((r - 1) as nat);
                lemma_pow2_unfold(r);
                lemma_pow2_adds(r, t as nat);
                assert(down == span * top);
                lemma_round_reduce(signed(hi.negative, folded as nat), span, top);
                lemma_round_even(hi.negative, folded as nat, half);
                assert(down == (span * step) * low) by (nonlinear_arith)
                    requires
                        down == span * top,
                        top == step * low,
                ;
                assert(span * step == 2 * (half * step)) by (nonlinear_arith)
                    requires
                        span == 2 * half,
                ;
                assert(half * step > 0) by (nonlinear_arith)
                    requires
                        half > 0,
                        step > 0,
                ;
                lemma_round_reduce(signed(hi.negative, m as nat), span * step, low);
                lemma_round_even(hi.negative, m as nat, half * step);
                lemma_fold(a as int, w, step, half);
            }
        }
        round_scaled(hi.negative, folded, t, point + 1)
    }
}

/// Converts the average of two decoded amplitudes given in steps of
/// `2^-point`: 0 where either is not a number, else the PCM value of
/// `(a + b) / 2`.
pub fn pcm_of_pair(a: &Decoded, b: &Decoded, point: u32) -> (pcm: i16)
    requires
        a.well_formed(),
        b.well_formed(),
        point < u32::MAX,
    ensures
        pcm == pcm_of_average(*a, *b, point as nat),
{
    if a.nan || b.nan {
        0
    } else if a.shift >= b.shift {
        pcm_of_aligned(a, b, point)
    } else {
        pcm_of_aligned(b, a, point)
    }
}

} // verus!
