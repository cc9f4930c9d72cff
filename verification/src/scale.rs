//! Scaling an amplitude to 16-bit PCM: multiply by 32767, round to the
//! nearest integer with halves away from zero, clamp to the 16-bit range.
//!
//! Amplitudes are exact ratios of integers. The executable path works on a
//! magnitude of up to 127 bits and two binary exponents, and is proved equal
//! to the rounding of the exact ratio.

use vstd::prelude::*;
use vstd::arithmetic::div_mod::{
    lemma_div_is_ordered, lemma_div_multiples_vanish_quotient, lemma_fundamental_div_mod,
    lemma_fundamental_div_mod_converse, lemma_mod_bound,
};
use vstd::arithmetic::power2::{
    lemma2_to64, lemma2_to64_rest, lemma_pow2_adds, lemma_pow2_pos,
    lemma_pow2_strictly_increases, lemma_pow2_unfold, pow2,
};
use crate::ieee::Decoded;

verus! {

/// Full scale of the output: an amplitude of 1.0 becomes this value.
pub const PCM_SCALE: i16 = 32767;

/// The nearest 16-bit value to `v`.
pub open spec fn clamp_pcm(v: int) -> i16 {
    if v < -32768 {
        -32768i16
    } else if v > 32767 {
        32767i16
    } else {
        v as i16
    }
}

/// The integer nearest to `num / den`, halves rounded away from zero.
pub open spec fn round_half_away(num: int, den: int) -> int
    recommends
        den > 0,
{
    if num >= 0 {
        (2 * num + den) / (2 * den)
    } else {
        -((2 * (-num) + den) / (2 * den))
    }
}

/// The PCM value of the amplitude `num / den`: scaled by 32767, rounded to
/// the nearest integer and clamped to the 16-bit range.
pub open spec fn pcm_of_ratio(num: int, den: int) -> i16
    recommends
        den > 0,
{
    clamp_pcm(round_half_away(num * PCM_SCALE, den))
}

/// A magnitude with its sign.
pub open spec fn signed(negative: bool, magnitude: nat) -> int {
    if negative {
        -(magnitude as int)
    } else {
        magnitude as int
    }
}

/// The PCM value at which a sign saturates.
pub open spec fn pcm_limit(negative: bool) -> i16 {
    if negative {
        -32768i16
    } else {
        32767i16
    }
}

/// `q` is the quotient of `x` by `d` when `x` lies in the `q`-th span of `d`.
pub proof fn lemma_quotient(x: int, d: int, q: int)
    requires
        d > 0,
        q * d <= x < q * d + d,
    ensures
        x / d == q,
{
    lemma_fundamental_div_mod_converse(x, d, q, x - q * d);
}

/// Rounding a whole multiple of the denominator gives the multiple.
pub proof fn lemma_round_exact(v: int, den: int)
    requires
        den > 0,
    ensures
        round_half_away(v * den, den) == v,
{
    if v >= 0 {
        assert(v * den >= 0) by (nonlinear_arith)
            requires
                v >= 0,
                den > 0,
        ;
        assert(v * (2 * den) == 2 * (v * den)) by (nonlinear_arith);
        lemma_quotient(2 * (v * den) + den, 2 * den, v);
    } else {
        assert(v * den < 0) by (nonlinear_arith)
            requires
                v < 0,
                den > 0,
        ;
        assert((-v) * (2 * den) == 2 * (-(v * den))) by (nonlinear_arith);
        lemma_quotient(2 * (-(v * den)) + den, 2 * den, -v);
    }
}

/// A factor common to numerator and denominator does not change the rounding.
pub proof fn lemma_round_reduce(v: int, den: int, c: int)
    requires
        den > 0,
        c > 0,
    ensures
        round_half_away(v * c, den * c) == round_half_away(v, den),
{
    if v >= 0 {
        assert(v * c >= 0) by (nonlinear_arith)
            requires
                v >= 0,
                c > 0,
        ;
        assert(2 * (v * c) + den * c == c * (2 * v + den)) by (nonlinear_arith);
        assert(2 * (den * c) == c * (2 * den)) by (nonlinear_arith);
        lemma_div_multiples_vanish_quotient(c, 2 * v + den, 2 * den);
    } else {
        assert(v * c < 0) by (nonlinear_arith)
            requires
                v < 0,
                c > 0,
        ;
        assert(2 * (-(v * c)) + den * c == c * (2 * (-v) + den)) by (nonlinear_arith);
        assert(2 * (den * c) == c * (2 * den)) by (nonlinear_arith);
        lemma_div_multiples_vanish_quotient(c, 2 * (-v) + den, 2 * den);
    }
}

/// Rounding by an even denominator adds half of it and divides.
pub proof fn lemma_round_even(negative: bool, magnitude: nat, half: int)
    requires
        half > 0,
    ensures
        round_half_away(signed(negative, magnitude), 2 * half) == signed(
            negative,
            ((magnitude + half) / (2 * half)) as nat,
        ),
{
    let m = magnitude as int;
    lemma_div_multiples_vanish_quotient(2, m + half, 2 * half);
    assert(2 * (m + half) == 2 * m + 2 * half);
    assert((2 * m + 2 * half) / (2 * (2 * half)) == (m + half) / (2 * half));
    assert((m + half) / (2 * half) >= 0) by {
        lemma_div_is_ordered(0, m + half, 2 * half);
        lemma_quotient(0, 2 * half, 0);
    }
    if m == 0 {
        lemma_quotient(half, 2 * half, 0);
    }
}

/// Nothing rounds to nothing.
pub proof fn lemma_round_zero(den: int)
    requires
        den > 0,
    ensures
        round_half_away(0, den) == 0,
{
    lemma_quotient(den, 2 * den, 0);
}

/// An amplitude of 65536 or more, whatever the exponents, saturates.
pub proof fn lemma_saturates(negative: bool, magnitude: nat, num: int, den: int)
    requires
        den > 0,
        num == signed(negative, magnitude),
        magnitude >= 65536 * den,
    ensures
        clamp_pcm(round_half_away(num, den)) == pcm_limit(negative),
{
    let m = magnitude as int;
    let floor = 2 * (65536 * den) + den;
    assert(65536 * (2 * den) == 2 * (65536 * den)) by (nonlinear_arith);
    lemma_quotient(floor, 2 * den, 65536);
    lemma_div_is_ordered(floor, 2 * m + den, 2 * den);
}

/// Rounding moves a ratio by half a unit at most.
pub proof fn lemma_round_is_nearest(num: int, den: int)
    requires
        den > 0,
    ensures
        -den <= 2 * (round_half_away(num, den) * den - num) <= den,
{
    let r = round_half_away(num, den);
    if num >= 0 {
        lemma_quotient_spans(2 * num + den, 2 * den);
        assert(r * (2 * den) == 2 * (r * den)) by (nonlinear_arith);
    } else {
        lemma_quotient_spans(2 * (-num) + den, 2 * den);
        assert((-r) * (2 * den) == -(2 * (r * den))) by (nonlinear_arith);
    }
}

/// A quotient times the divisor is the largest multiple not above the
/// dividend.
pub proof fn lemma_quotient_spans(x: int, d: int)
    requires
        d > 0,
    ensures
        (x / d) * d <= x < (x / d) * d + d,
{
    lemma_fundamental_div_mod(x, d);
    lemma_mod_bound(x, d);
    assert((x / d) * d == d * (x / d)) by (nonlinear_arith);
}

/// Rounding keeps the order of ratios over one denominator.
pub proof fn lemma_round_monotonic(low: int, high: int, den: int)
    requires
        den > 0,
        low <= high,
    ensures
        round_half_away(low, den) <= round_half_away(high, den),
{
    lemma_quotient(den, 2 * den, 0);
    if low >= 0 {
        lemma_div_is_ordered(2 * low + den, 2 * high + den, 2 * den);
    } else if high < 0 {
        lemma_div_is_ordered(2 * (-high) + den, 2 * (-low) + den, 2 * den);
    } else {
        lemma_div_is_ordered(den, 2 * high + den, 2 * den);
        lemma_div_is_ordered(den, 2 * (-low) + den, 2 * den);
    }
}

/// Within the unit range nothing is clamped: an amplitude between -1 and 1
/// becomes its scaled value rounded to the nearest integer, which lies
/// between -32767 and 32767 and is within half a unit of the scaled value.
pub proof fn lemma_in_range_is_rounded(num: int, den: int)
    requires
        den > 0,
        -den <= num <= den,
    ensures
        pcm_of_ratio(num, den) == round_half_away(num * PCM_SCALE, den),
        -32767 <= pcm_of_ratio(num, den) <= 32767,
        -den <= 2 * (pcm_of_ratio(num, den) * den - num * PCM_SCALE) <= den,
{
    let scaled = num * 32767;
    lemma_round_exact(32767, den);
    lemma_round_exact(-32767, den);
    lemma_round_monotonic(scaled, 32767 * den, den);
    lemma_round_monotonic((-32767) * den, scaled, den);
    lemma_round_is_nearest(scaled, den);
}

/// Outside the unit range the value clamps and never wraps: an amplitude
/// of 1 or more becomes 32767, one of -1 or less becomes -32767 or -32768,
/// and one at or below -32767.5 / 32767 becomes -32768.
pub proof fn lemma_out_of_range_clamps(num: int, den: int)
    requires
        den > 0,
    ensures
        num >= den ==> pcm_of_ratio(num, den) == 32767,
        num <= -den ==> pcm_of_ratio(num, den) <= -32767,
        2 * (num * PCM_SCALE) <= -65535 * den ==> pcm_of_ratio(num, den) == -32768,
{
    let scaled = num * 32767;
    lemma_round_exact(32767, den);
    lemma_round_exact(-32767, den);
    if num >= den {
        lemma_round_monotonic(32767 * den, scaled, den);
    }
    if num <= -den {
        lemma_round_monotonic(scaled, (-32767) * den, den);
    }
    if 2 * scaled <= -65535 * den {
        assert(65536 * den == 32768 * (2 * den)) by (nonlinear_arith);
        lemma_quotient(65536 * den, 2 * den, 32768);
        lemma_div_is_ordered(65536 * den, 2 * (-scaled) + den, 2 * den);
    }
}

/// Two equal channels average to the channel itself.
pub proof fn lemma_average_of_equal(num: int, den: int)
    requires
        den > 0,
    ensures
        pcm_of_ratio(num + num, 2 * den) == pcm_of_ratio(num, den),
{
    assert((num + num) * 32767 == (num * 32767) * 2);
    lemma_round_reduce(num * 32767, den, 2);
}

/// Two channels that sum to nothing average to silence.
pub proof fn lemma_average_of_opposite(left: int, right: int, den: int)
    requires
        den > 0,
        left + right == 0,
    ensures
        pcm_of_ratio(left + right, 2 * den) == 0,
{
    lemma_round_zero(2 * den);
}

/// Scaling a decoded amplitude scales its significand.
pub proof fn lemma_steps_scaled(d: Decoded)
    ensures
        d.steps() * 32767 == signed(d.negative, d.significand as nat * 32767) * pow2(
            d.shift as nat,
        ),
{
    let s = d.significand as int;
    let up = pow2(d.shift as nat) as int;
    assert((s * up) * 32767 == (s * 32767) * up) by (nonlinear_arith);
    assert((-(s * up)) * 32767 == (-(s * 32767)) * up) by (nonlinear_arith);
}

/// The largest power of two that a 128-bit magnitude is kept below.
pub proof fn lemma_pow2_127()
    ensures
        pow2(127) == 0x8000_0000_0000_0000_0000_0000_0000_0000,
{
    lemma2_to64();
    lemma2_to64_rest();
    lemma_pow2_adds(64, 63);
}

/// Shifting one left by `k` gives the `k`-th power of two.
proof fn lemma_shl_one(k: u32)
    requires
        k <= 127,
    ensures
        (1u128 << k) == pow2(k as nat),
        pow2(k as nat) <= 0x8000_0000_0000_0000_0000_0000_0000_0000,
    decreases k,
{
    lemma_pow2_127();
    if k == 0 {
        assert(1u128 << 0u32 == 1) by (bit_vector);
        lemma2_to64();
    } else {
        let j: u32 = (k - 1) as u32;
        lemma_shl_one(j);
        lemma_pow2_unfold(k as nat);
        if k < 127 {
            lemma_pow2_strictly_increases(k as nat, 127);
        }
        assert((1u128 << k) == 2 * (1u128 << j)) by (bit_vector)
            requires
                1 <= k <= 127,
                j == k - 1,
        ;
    }
}

/// The `k`-th power of two.
pub fn pow2_u128(k: u32) -> (power: u128)
    requires
        k <= 127,
    ensures
        power == pow2(k as nat),
        power <= 0x8000_0000_0000_0000_0000_0000_0000_0000,
{
    proof {
        lemma_shl_one(k);
    }
    1u128 << k
}

/// The nearest 16-bit value to a signed magnitude.
pub fn clamp_signed(negative: bool, magnitude: u128) -> (pcm: i16)
    ensures
        pcm == clamp_pcm(signed(negative, magnitude as nat)),
{
    if negative {
        if magnitude >= 32768 {
            -32768
        } else {
            -(magnitude as i32) as i16
        }
    } else {
        if magnitude >= 32767 {
            32767
        } else {
            magnitude as i16
        }
    }
}

/// Rounds and clamps `magnitude * 2^shift / 2^point`, with its sign.
pub fn round_scaled(negative: bool, magnitude: u128, shift: u32, point: u32) -> (pcm: i16)
    requires
        magnitude < 0x8000_0000_0000_0000_0000_0000_0000_0000,
    ensures
        pcm == clamp_pcm(
            round_half_away(
                signed(negative, magnitude as nat) * pow2(shift as nat),
                pow2(point as nat) as int,
            ),
        ),
{
    let ghost num = signed(negative, magnitude as nat);
    let ghost up = pow2(shift as nat) as int;
    let ghost down = pow2(point as nat) as int;
    proof {
        lemma_pow2_pos(shift as nat);
        lemma_pow2_pos(point as nat);
        lemma_pow2_127();
        lemma2_to64();
    }
    if magnitude == 0 {
        proof {
            assert(num * up == 0) by (nonlinear_arith)
                requires
                    num == 0,
            ;
            lemma_round_zero(down);
        }
        return 0;
    }
    if shift >= point {
        let k: u32 = shift - point;
        let ghost scale = pow2(k as nat) as int;
        proof {
            lemma_pow2_pos(k as nat);
            lemma_pow2_adds(k as nat, point as nat);
            assert(num * up == (num * scale) * down) by (nonlinear_arith)
                requires
                    up == scale * down,
            ;
            lemma_round_exact(num * scale, down);
            assert(num * scale == signed(negative, (magnitude as nat * scale) as nat))
                by (nonlinear_arith)
                requires
                    num == signed(negative, magnitude as nat),
                    scale > 0,
            ;
        }
        if k >= 16 || magnitude >= 65536 {
            proof {
                if k > 16 {
                    lemma_pow2_strictly_increases(16, k as nat);
                }
                assert(magnitude as nat * scale >= 65536) by (nonlinear_arith)
                    requires
                        magnitude >= 1,
                        scale >= 1,
                        magnitude >= 65536 || scale >= 65536,
                ;
            }
            return if negative {
                -32768
            } else {
                32767
            };
        }
        proof {
            if k < 15 {
                lemma_pow2_strictly_increases(k as nat, 15);
            }
            assert(magnitude as nat * scale < 0x8000_0000) by (nonlinear_arith)
                requires
                    magnitude < 65536,
                    0 < scale <= 32768,
            ;
        }
        let whole: u128 = magnitude * pow2_u128(k);
        clamp_signed(negative, whole)
    } else {
        let q: u32 = point - shift;
        let ghost span = pow2(q as nat) as int;
        let ghost half = pow2((q - 1) as nat) as int;
        proof {
            lemma_pow2_pos(q as nat);
            lemma_pow2_pos((q - 1) as nat);
            lemma_pow2_adds(q as nat, shift as nat);
            lemma_pow2_unfold(q as nat);
            assert(down == span * up);
            lemma_round_reduce(num, span, up);
            lemma_round_even(negative, magnitude as nat, half);
        }
        if q >= 128 {
            proof {
                if q > 128 {
                    lemma_pow2_strictly_increases(127, (q - 1) as nat);
                }
                lemma_quotient(magnitude + half, span, 0);
            }
            return 0;
        }
        let rounded: u128 = (magnitude + pow2_u128(q - 1)) / pow2_u128(q);
        clamp_signed(negative, rounded)
    }
}

/// Converts one decoded amplitude: 0 for what is not a number, else the
/// PCM value of `steps / 2^point`.
pub fn pcm_of_decoded(d: &Decoded, point: u32) -> (pcm: i16)
    requires
        d.well_formed(),
    ensures
        pcm == (if d.nan {
            0i16
        } else {
            pcm_of_ratio(d.steps(), pow2(point as nat) as int)
        }),
{
    if d.nan {
        return 0;
    }
    let scaled: u128 = d.significand as u128 * 32767;
    proof {
        lemma_steps_scaled(*d);
    }
    round_scaled(d.negative, scaled, d.shift, point)
}

} // verus!
