//! Bit-level helpers behind `fabs`, `fabsf`, `copysign` and `copysignf`.
//!
//! The floating point values themselves are converted to and from their
//! IEEE 754 bit patterns at the edge; everything that decides the result
//! happens on the bit patterns here.

use vstd::prelude::*;

verus! {

/// The sign bit of an IEEE 754 double.
pub open spec fn spec_sign() -> u64 {
    0x8000_0000_0000_0000u64
}

/// The sign bit of an IEEE 754 single.
pub open spec fn spec_signf() -> u32 {
    0x8000_0000u32
}

/// Returns the mask of the sign bit of an `f64` (bit 63).
pub fn sign() -> (r: u64)
    ensures
        r == spec_sign(),
        r == 1u64 << 63u64,
{
    assert(1u64 << 63u64 == 0x8000_0000_0000_0000u64) by (bit_vector);
    1u64 << 63u64
}

/// Returns the mask of the sign bit of an `f32` (bit 31).
pub fn signf() -> (r: u32)
    ensures
        r == spec_signf(),
        r == 1u32 << 31u32,
{
    assert(1u32 << 31u32 == 0x8000_0000u32) by (bit_vector);
    1u32 << 31u32
}

/// The bits of `fabs(x)`: those of `x` with the sign bit cleared.
pub fn fabs_bits(x: u64) -> (r: u64)
    ensures
        r == x & !spec_sign(),
{
    x & !sign()
}

/// The bits of `fabsf(x)`: those of `x` with the sign bit cleared.
pub fn fabsf_bits(x: u32) -> (r: u32)
    ensures
        r == x & !spec_signf(),
{
    x & !signf()
}

/// The bits of `copysign(x, y)`: the magnitude bits of `x` with the sign
/// bit of `y`.
pub fn copysign_bits(x: u64, y: u64) -> (r: u64)
    ensures
        r == (x & !spec_sign()) | (y & spec_sign()),
{
    let sign = sign();
    (x & !sign) | (y & sign)
}

/// The bits of `copysignf(x, y)`: the magnitude bits of `x` with the sign
/// bit of `y`.
pub fn copysignf_bits(x: u32, y: u32) -> (r: u32)
    ensures
        r == (x & !spec_signf()) | (y & spec_signf()),
{
    let sign = signf();
    (x & !sign) | (y & sign)
}

/// `fabs` leaves a value without sign bit that keeps every other bit of its
/// argument, and taking it twice changes nothing; `copysign` takes the
/// sign from its second argument and everything else from its first, and
/// a value with its own sign is itself.
pub proof fn lemma_sign_bits(x: u64, y: u64)
    ensures
        (x & !spec_sign()) & spec_sign() == 0,
        (x & !spec_sign()) & !spec_sign() == x & !spec_sign(),
        ((x & !spec_sign()) | (y & spec_sign())) & spec_sign() == y & spec_sign(),
        ((x & !spec_sign()) | (y & spec_sign())) & !spec_sign() == x & !spec_sign(),
        (x & !spec_sign()) | (x & spec_sign()) == x,
{
    assert((x & !0x8000_0000_0000_0000u64) & 0x8000_0000_0000_0000u64 == 0) by (bit_vector);
    assert((x & !0x8000_0000_0000_0000u64) & !0x8000_0000_0000_0000u64 == x & !0x8000_0000_0000_0000u64) by (bit_vector);
    assert(((x & !0x8000_0000_0000_0000u64) | (y & 0x8000_0000_0000_0000u64)) & 0x8000_0000_0000_0000u64 == y & 0x8000_0000_0000_0000u64) by (bit_vector);
    assert(((x & !0x8000_0000_0000_0000u64) | (y & 0x8000_0000_0000_0000u64)) & !0x8000_0000_0000_0000u64 == x & !0x8000_0000_0000_0000u64) by (bit_vector);
    assert((x & !0x8000_0000_0000_0000u64) | (x & 0x8000_0000_0000_0000u64) == x) by (bit_vector);
}

/// The same laws for single precision.
pub proof fn lemma_signf_bits(x: u32, y: u32)
    ensures
        (x & !spec_signf()) & spec_signf() == 0,
        (x & !spec_signf()) & !spec_signf() == x & !spec_signf(),
        ((x & !spec_signf()) | (y & spec_signf())) & spec_signf() == y & spec_signf(),
        ((x & !spec_signf()) | (y & spec_signf())) & !spec_signf() == x & !spec_signf(),
        (x & !spec_signf()) | (x & spec_signf()) == x,
{
    assert((x & !0x8000_0000u32) & 0x8000_0000u32 == 0) by (bit_vector);
    assert((x & !0x8000_0000u32) & !0x8000_0000u32 == x & !0x8000_0000u32) by (bit_vector);
    assert(((x & !0x8000_0000u32) | (y & 0x8000_0000u32)) & 0x8000_0000u32 == y & 0x8000_0000u32) by (bit_vector);
    assert(((x & !0x8000_0000u32) | (y & 0x8000_0000u32)) & !0x8000_0000u32 == x & !0x8000_0000u32) by (bit_vector);
    assert((x & !0x8000_0000u32) | (x & 0x8000_0000u32) == x) by (bit_vector);
}

} // verus!
