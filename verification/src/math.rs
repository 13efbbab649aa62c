//! Scalars, index arithmetic and sizes shared by the rest of the crate.
//!
//! A scalar is an `i64` that stands for a real number. The crate compares
//! scalars and never computes with them, so all it asks of the encoding is
//! that it keeps order and sign. `scalar_from_bits` gives the encoding of a
//! binary64 number from its bit pattern.
use vstd::prelude::*;

verus! {

/// The extent of a rectangular pixel grid.
#[derive(Clone, Copy, Debug, PartialEq, Eq, Structural)]
pub struct RectSize {
    pub width: u32,
    pub height: u32,
}

/// The element of a flat slice that a two-dimensional index names: `x` counts
/// whole runs of `width` elements and `y` the offset inside the run.
pub fn index_as_2d<T>(v: &[T], width: usize, x: usize, y: usize) -> (item: &T)
    requires
        x * width + y < v@.len(),
    ensures
        *item == v@[x * width + y],
{
    let len = v.len();
    assert(0 <= x * width) by (nonlinear_arith);
    assert(x * width + y < len);
    &v[x * width + y]
}

/// The magnitude bits of a binary64 bit pattern: everything but the sign bit.
pub open spec fn magnitude(bits: u64) -> int {
    if bits >= 0x8000_0000_0000_0000 {
        bits - 0x8000_0000_0000_0000
    } else {
        bits as int
    }
}

/// The scalar of a binary64 bit pattern: its magnitude bits read as an
/// integer, negated where the sign bit is set. Both zeros give 0, and of two
/// numbers that are not NaN the smaller has the smaller scalar.
pub open spec fn spec_scalar_from_bits(bits: u64) -> i64 {
    if bits >= 0x8000_0000_0000_0000 {
        (-magnitude(bits)) as i64
    } else {
        bits as i64
    }
}

/// Encodes the binary64 number with the given bit pattern as a scalar.
pub fn scalar_from_bits(bits: u64) -> (scalar: i64)
    ensures
        scalar == spec_scalar_from_bits(bits),
{
    if bits >= 0x8000_0000_0000_0000 {
        let magnitude: u64 = bits - 0x8000_0000_0000_0000;
        let positive: i64 = magnitude as i64;
        -positive
    } else {
        bits as i64
    }
}

/// The bit pattern that a scalar came from: the sign bit for a negative
/// scalar, and its magnitude. Zero gives the pattern of positive zero, and
/// the one `i64` that is no scalar of any pattern gives the pattern of all
/// ones.
pub open spec fn spec_scalar_to_bits(scalar: i64) -> u64 {
    if scalar >= 0 {
        scalar as u64
    } else if scalar == i64::MIN {
        u64::MAX
    } else {
        (0x8000_0000_0000_0000 - scalar) as u64
    }
}

/// Decodes a scalar to the bit pattern of its binary64 number.
pub fn scalar_to_bits(scalar: i64) -> (bits: u64)
    ensures
        bits == spec_scalar_to_bits(scalar),
{
    if scalar >= 0 {
        scalar as u64
    } else if scalar == i64::MIN {
        u64::MAX
    } else {
        let magnitude: i64 = -scalar;
        0x8000_0000_0000_0000 + (magnitude as u64)
    }
}

/// Decoding undoes encoding, but for negative zero, which comes back as
/// positive zero; and encoding undoes decoding on every scalar that a bit
/// pattern has.
pub proof fn lemma_scalar_round_trip(bits: u64, scalar: i64)
    ensures
        bits != 0x8000_0000_0000_0000 ==> spec_scalar_to_bits(spec_scalar_from_bits(bits))
            == bits,
        spec_scalar_to_bits(spec_scalar_from_bits(0x8000_0000_0000_0000)) == 0,
        scalar != i64::MIN ==> spec_scalar_from_bits(spec_scalar_to_bits(scalar)) == scalar,
{
}

/// Flipping the sign bit negates the scalar.
pub proof fn lemma_scalar_is_odd(bits: u64)
    requires
        bits < 0x8000_0000_0000_0000,
    ensures
        spec_scalar_from_bits((bits + 0x8000_0000_0000_0000) as u64) == -spec_scalar_from_bits(
            bits,
        ),
{
}

/// The value of `val` held to the range from `minv` to `maxv`: the lower
/// bound is applied first, then the upper, so that the upper bound wins
/// where the two cross.
pub open spec fn spec_clamp(val: i64, minv: i64, maxv: i64) -> i64 {
    let raised = if val < minv {
        minv
    } else {
        val
    };
    if maxv < raised {
        maxv
    } else {
        raised
    }
}

/// Holds a scalar to a range.
pub fn clamp(val: i64, minv: i64, maxv: i64) -> (held: i64)
    ensures
        held == spec_clamp(val, minv, maxv),
{
    let raised = if val < minv {
        minv
    } else {
        val
    };
    if maxv < raised {
        maxv
    } else {
        raised
    }
}

/// Within a proper range the clamped value lies in the range; a value
/// already inside is left as it is, and a value at or above the upper bound
/// comes out as the upper bound.
pub proof fn lemma_clamp_in_range(val: i64, minv: i64, maxv: i64)
    requires
        minv <= maxv,
    ensures
        minv <= spec_clamp(val, minv, maxv) <= maxv,
        minv <= val <= maxv ==> spec_clamp(val, minv, maxv) == val,
        val >= maxv ==> spec_clamp(val, minv, maxv) == maxv,
        val <= minv ==> spec_clamp(val, minv, maxv) == minv,
{
}

} // verus!
