//! Facts about `f32` values held as their IEEE-754 bit patterns.
use vstd::prelude::*;

verus! {

/// The bit that holds the sign of an `f32`.
pub const SIGN_BIT: u32 = 0x8000_0000u32;

/// The bits of `-x` when `bits` are the bits of `x`: negating a float flips its sign bit.
pub open spec fn spec_negate(bits: u32) -> u32 {
    if bits >= SIGN_BIT {
        (bits - SIGN_BIT) as u32
    } else {
        (bits + SIGN_BIT) as u32
    }
}

/// Negate the `f32` whose bits are given, returning the bits of the result.
pub fn negate(bits: u32) -> (out: u32)
    ensures
        out == spec_negate(bits),
{
    if bits >= SIGN_BIT {
        bits - SIGN_BIT
    } else {
        bits + SIGN_BIT
    }
}

/// Negating twice gives back the bits one started from.
pub proof fn lemma_negate_involution(bits: u32)
    ensures
        spec_negate(spec_negate(bits)) == bits,
{
}

/// The largest magnitude (bits without the sign) that is not a NaN: that of infinity.
pub const INFINITY_MAGNITUDE: u32 = 0x7f80_0000u32;

/// Whether the bits are those of a NaN: all exponent bits set and a non-zero mantissa.
pub open spec fn spec_is_nan(bits: u32) -> bool {
    magnitude(bits) > INFINITY_MAGNITUDE
}

/// The bits of the float without its sign.
pub open spec fn magnitude(bits: u32) -> int {
    if bits >= SIGN_BIT {
        bits - SIGN_BIT
    } else {
        bits as int
    }
}

/// An integer that orders non-NaN floats as `f32`'s `partial_cmp` does: the magnitude with the
/// float's sign. Both zeros get the key 0, as `0.0 == -0.0`.
pub open spec fn order_key(bits: u32) -> int {
    if bits >= SIGN_BIT {
        -(bits - SIGN_BIT)
    } else {
        bits as int
    }
}

/// Whether the bits are those of a NaN.
pub fn is_nan(bits: u32) -> (out: bool)
    ensures
        out == spec_is_nan(bits),
{
    let m = if bits >= SIGN_BIT {
        bits - SIGN_BIT
    } else {
        bits
    };
    m > INFINITY_MAGNITUDE
}

/// The order key of a float, see [`order_key`].
pub fn float_order_key(bits: u32) -> (out: i64)
    ensures
        out == order_key(bits),
{
    if bits >= SIGN_BIT {
        -((bits - SIGN_BIT) as i64)
    } else {
        bits as i64
    }
}

} // verus!
