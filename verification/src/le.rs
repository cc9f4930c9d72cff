//! Little-endian encodings of the fixed-width fields used in the container.

use vstd::prelude::*;

verus! {

/// The two bytes of `x`, least significant first.
pub open spec fn le_bytes_u16(x: u16) -> Seq<u8> {
    seq![(x % 256) as u8, (x / 256) as u8]
}

/// The four bytes of `x`, least significant first.
pub open spec fn le_bytes_u32(x: u32) -> Seq<u8> {
    seq![
        (x % 256) as u8,
        ((x / 256) % 256) as u8,
        ((x / 65536) % 256) as u8,
        (x / 16777216) as u8,
    ]
}

/// The two's-complement bit pattern of a signed 16-bit sample.
pub open spec fn bits_of_i16(x: i16) -> u16 {
    if x >= 0 {
        x as u16
    } else {
        (x + 65536) as u16
    }
}

/// The two bytes of a signed 16-bit sample, least significant first.
pub open spec fn le_bytes_i16(x: i16) -> Seq<u8> {
    le_bytes_u16(bits_of_i16(x))
}

/// The number that a little-endian byte string stands for.
pub open spec fn le_value(bytes: Seq<u8>) -> nat
    decreases bytes.len(),
{
    if bytes.len() == 0 {
        0
    } else {
        bytes[0] as nat + 256 * le_value(bytes.skip(1))
    }
}

/// Decoding undoes encoding.
pub proof fn lemma_le_value_u32(x: u32)
    ensures
        le_bytes_u32(x).len() == 4,
        le_value(le_bytes_u32(x)) == x,
{
    let s = le_bytes_u32(x);
    let s1 = s.skip(1);
    let s2 = s1.skip(1);
    let s3 = s2.skip(1);
    reveal_with_fuel(le_value, 5);
    assert(s1 =~= seq![((x / 256) % 256) as u8, ((x / 65536) % 256) as u8, (x / 16777216) as u8]);
    assert(s2 =~= seq![((x / 65536) % 256) as u8, (x / 16777216) as u8]);
    assert(s3 =~= seq![(x / 16777216) as u8]);
    assert(s3.skip(1) =~= Seq::<u8>::empty());
}

/// Appends the little-endian bytes of `x` to `out`.
pub fn push_u16_le(out: &mut Vec<u8>, x: u16)
    ensures
        final(out)@ == old(out)@ + le_bytes_u16(x),
{
    out.push((x % 256) as u8);
    out.push((x / 256) as u8);
    assert(out@ =~= old(out)@ + le_bytes_u16(x));
}

/// Appends the little-endian bytes of `x` to `out`.
pub fn push_u32_le(out: &mut Vec<u8>, x: u32)
    ensures
        final(out)@ == old(out)@ + le_bytes_u32(x),
{
    out.push((x % 256) as u8);
    out.push(((x / 256) % 256) as u8);
    out.push(((x / 65536) % 256) as u8);
    out.push((x / 16777216) as u8);
    assert(out@ =~= old(out)@ + le_bytes_u32(x));
}

/// Appends the little-endian two's-complement bytes of a sample to `out`.
pub fn push_i16_le(out: &mut Vec<u8>, x: i16)
    ensures
        final(out)@ == old(out)@ + le_bytes_i16(x),
{
    let bits: u16 = if x >= 0 {
        x as u16
    } else {
        (x as i32 + 65536) as u16
    };
    push_u16_le(out, bits);
}

} // verus!
