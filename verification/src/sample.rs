//! Native sample kinds and the scaling that turns a normalized amplitude
//! into a 16-bit PCM value.

use vstd::prelude::*;
use vstd::arithmetic::power2::{lemma_pow2_pos, pow2};
use crate::downmix::pcm_of_pair;
use crate::ieee::{
    decode_f32, decode_f64, f32_is_nan, f32_steps, f64_is_nan, f64_steps, F32_POINT, F64_POINT,
};
use crate::scale::{
    lemma_average_of_equal, lemma_average_of_opposite, lemma_in_range_is_rounded,
    lemma_out_of_range_clamps, lemma_quotient, pcm_of_decoded, pcm_of_ratio, PCM_SCALE,
};

verus! {

/// The sample formats a device may deliver.
#[derive(Clone, Copy, Debug, PartialEq, Eq, Structural)]
pub enum SampleKind {
    I8,
    I16,
    I32,
    I64,
    U8,
    U16,
    U32,
    U64,
    F32,
    F64,
}

impl SampleKind {
    /// The kinds that can be captured: 16-bit signed integers and both float
    /// widths. Every other kind is refused when a session is set up, never
    /// reinterpreted.
    pub open spec fn supported(self) -> bool {
        self == SampleKind::I16 || self == SampleKind::F32 || self == SampleKind::F64
    }

    /// Whether this kind can be captured.
    pub fn is_supported(&self) -> (yes: bool)
        ensures
            yes == self.supported(),
    {
        match self {
            SampleKind::I16 | SampleKind::F32 | SampleKind::F64 => true,
            _ => false,
        }
    }
}

/// A mono 16-bit sample is already PCM and passes through unchanged.
pub open spec fn pcm_of_i16_mono(sample: i16) -> i16 {
    sample
}

/// A stereo pair of 16-bit samples: each channel is normalized by 32768,
/// the two are averaged, and the average is scaled like any amplitude.
pub open spec fn pcm_of_i16_stereo(left: i16, right: i16) -> i16 {
    pcm_of_ratio(left + right, 65536)
}

/// Converts one mono 16-bit frame.
pub fn convert_i16_mono(sample: i16) -> (pcm: i16)
    ensures
        pcm == pcm_of_i16_mono(sample),
{
    sample
}

/// Converts one stereo 16-bit frame to a single mono sample.
pub fn convert_i16_stereo(left: i16, right: i16) -> (pcm: i16)
    ensures
        pcm == pcm_of_i16_stereo(left, right),
{
    let sum: i64 = left as i64 + right as i64;
    let scaled: i64 = sum * 32767;
    if scaled >= 0 {
        let q: i64 = (2 * scaled + 65536) / 131072;
        q as i16
    } else {
        let q: i64 = (2 * (-scaled) + 65536) / 131072;
        (-q) as i16
    }
}

/// A mono binary32 sample, given by its bits: its value scaled like any
/// amplitude, and 0 where it is not a number.
pub open spec fn pcm_of_f32_mono(bits: u32) -> i16 {
    if f32_is_nan(bits) {
        0i16
    } else {
        pcm_of_ratio(f32_steps(bits), pow2(F32_POINT as nat) as int)
    }
}

/// A stereo pair of binary32 samples: the two values as they are, averaged
/// and scaled, and 0 where either is not a number.
pub open spec fn pcm_of_f32_stereo(left: u32, right: u32) -> i16 {
    if f32_is_nan(left) || f32_is_nan(right) {
        0i16
    } else {
        pcm_of_ratio(f32_steps(left) + f32_steps(right), 2 * pow2(F32_POINT as nat) as int)
    }
}

/// A mono binary64 sample, given by its bits: its value scaled like any
/// amplitude, and 0 where it is not a number.
pub open spec fn pcm_of_f64_mono(bits: u64) -> i16 {
    if f64_is_nan(bits) {
        0i16
    } else {
        pcm_of_ratio(f64_steps(bits), pow2(F64_POINT as nat) as int)
    }
}

/// A stereo pair of binary64 samples: the two values as they are, averaged
/// and scaled, and 0 where either is not a number.
pub open spec fn pcm_of_f64_stereo(left: u64, right: u64) -> i16 {
    if f64_is_nan(left) || f64_is_nan(right) {
        0i16
    } else {
        pcm_of_ratio(f64_steps(left) + f64_steps(right), 2 * pow2(F64_POINT as nat) as int)
    }
}

/// Converts one mono binary32 frame, given by its bits.
pub fn convert_f32_mono(bits: u32) -> (pcm: i16)
    ensures
        pcm == pcm_of_f32_mono(bits),
{
    let d = decode_f32(bits);
    pcm_of_decoded(&d, F32_POINT)
}

/// Converts one stereo binary32 frame, given by its bits, to a single mono
/// sample.
pub fn convert_f32_stereo(left: u32, right: u32) -> (pcm: i16)
    ensures
        pcm == pcm_of_f32_stereo(left, right),
{
    let l = decode_f32(left);
    let r = decode_f32(right);
    pcm_of_pair(&l, &r, F32_POINT)
}

/// Converts one mono binary64 frame, given by its bits.
pub fn convert_f64_mono(bits: u64) -> (pcm: i16)
    ensures
        pcm == pcm_of_f64_mono(bits),
{
    let d = decode_f64(bits);
    pcm_of_decoded(&d, F64_POINT)
}

/// Converts one stereo binary64 frame, given by its bits, to a single mono
/// sample.
pub fn convert_f64_stereo(left: u64, right: u64) -> (pcm: i16)
    ensures
        pcm == pcm_of_f64_stereo(left, right),
{
    let l = decode_f64(left);
    let r = decode_f64(right);
    pcm_of_pair(&l, &r, F64_POINT)
}

/// Stereo input with equal and opposite 16-bit channels downmixes to
/// silence.
pub proof fn lemma_i16_opposite_is_silence(left: i16, right: i16)
    requires
        left + right == 0,
    ensures
        pcm_of_i16_stereo(left, right) == 0,
{
    lemma_average_of_opposite(left as int, right as int, 32768);
}

/// Stereo input with equal 16-bit channels downmixes to the channel's own
/// value up to half of full scale. Above that the division by 32768 and the
/// scaling by 32767 pull the result one or more steps towards zero.
pub proof fn lemma_i16_equal_is_mono(sample: i16)
    requires
        -16384 <= sample <= 16384,
    ensures
        pcm_of_i16_stereo(sample, sample) == pcm_of_i16_mono(sample),
{
    let x = sample as int;
    if x >= 0 {
        lemma_quotient(2 * ((x + x) * 32767) + 65536, 131072, x);
    } else {
        lemma_quotient(2 * (-((x + x) * 32767)) + 65536, 131072, -x);
    }
}

/// Stereo input with equal and opposite binary32 channels downmixes to
/// silence.
pub proof fn lemma_f32_opposite_is_silence(left: u32, right: u32)
    requires
        f32_steps(left) + f32_steps(right) == 0,
    ensures
        pcm_of_f32_stereo(left, right) == 0,
{
    lemma_pow2_pos(F32_POINT as nat);
    lemma_average_of_opposite(f32_steps(left), f32_steps(right), pow2(F32_POINT as nat) as int);
}

/// Stereo input with equal binary32 channels downmixes to what the channel
/// alone converts to.
pub proof fn lemma_f32_equal_is_mono(bits: u32)
    ensures
        pcm_of_f32_stereo(bits, bits) == pcm_of_f32_mono(bits),
{
    lemma_pow2_pos(F32_POINT as nat);
    lemma_average_of_equal(f32_steps(bits), pow2(F32_POINT as nat) as int);
}

/// A binary32 sample outside the unit range clamps: 1.0 and above become
/// 32767, -1.0 and below become -32767 or -32768. Inside the range the
/// result is the scaled value rounded, within half a unit of it.
pub proof fn lemma_f32_clamps(bits: u32)
    requires
        !f32_is_nan(bits),
    ensures
        f32_steps(bits) >= pow2(F32_POINT as nat) ==> pcm_of_f32_mono(bits) == 32767,
        f32_steps(bits) <= -pow2(F32_POINT as nat) ==> pcm_of_f32_mono(bits) <= -32767,
        -pow2(F32_POINT as nat) <= f32_steps(bits) <= pow2(F32_POINT as nat) ==> {
            &&& -32767 <= pcm_of_f32_mono(bits) <= 32767
            &&& -pow2(F32_POINT as nat) <= 2 * (pcm_of_f32_mono(bits) * pow2(F32_POINT as nat)
                - f32_steps(bits) * PCM_SCALE) <= pow2(F32_POINT as nat)
        },
{
    let unit = pow2(F32_POINT as nat) as int;
    lemma_pow2_pos(F32_POINT as nat);
    lemma_out_of_range_clamps(f32_steps(bits), unit);
    if -unit <= f32_steps(bits) <= unit {
        lemma_in_range_is_rounded(f32_steps(bits), unit);
    }
}

/// Stereo input with equal and opposite binary64 channels downmixes to
/// silence.
pub proof fn lemma_f64_opposite_is_silence(left: u64, right: u64)
    requires
        f64_steps(left) + f64_steps(right) == 0,
    ensures
        pcm_of_f64_stereo(left, right) == 0,
{
    lemma_pow2_pos(F64_POINT as nat);
    lemma_average_of_opposite(f64_steps(left), f64_steps(right), pow2(F64_POINT as nat) as int);
}

/// Stereo input with equal binary64 channels downmixes to what the channel
/// alone converts to.
pub proof fn lemma_f64_equal_is_mono(bits: u64)
    ensures
        pcm_of_f64_stereo(bits, bits) == pcm_of_f64_mono(bits),
{
    lemma_pow2_pos(F64_POINT as nat);
    lemma_average_of_equal(f64_steps(bits), pow2(F64_POINT as nat) as int);
}

/// A binary64 sample outside the unit range clamps: 1.0 and above become
/// 32767, -1.0 and below become -32767 or -32768. Inside the range the
/// result is the scaled value rounded, within half a unit of it.
pub proof fn lemma_f64_clamps(bits: u64)
    requires
        !f64_is_nan(bits),
    ensures
        f64_steps(bits) >= pow2(F64_POINT as nat) ==> pcm_of_f64_mono(bits) == 32767,
        f64_steps(bits) <= -pow2(F64_POINT as nat) ==> pcm_of_f64_mono(bits) <= -32767,
        -pow2(F64_POINT as nat) <= f64_steps(bits) <= pow2(F64_POINT as nat) ==> {
            &&& -32767 <= pcm_of_f64_mono(bits) <= 32767
            &&& -pow2(F64_POINT as nat) <= 2 * (pcm_of_f64_mono(bits) * pow2(F64_POINT as nat)
                - f64_steps(bits) * PCM_SCALE) <= pow2(F64_POINT as nat)
        },
{
    let unit = pow2(F64_POINT as nat) as int;
    lemma_pow2_pos(F64_POINT as nat);
    lemma_out_of_range_clamps(f64_steps(bits), unit);
    if -unit <= f64_steps(bits) <= unit {
        lemma_in_range_is_rounded(f64_steps(bits), unit);
    }
}

} // verus!
