use vstd::prelude::*;

verus! {

// Depth samples are IEEE-754 single-precision values kept as their bit
// patterns (`f32::to_bits`): bit 31 is the sign, bits 0..31 the magnitude.
// Within one sign, the order of magnitudes is the order of the values.

/// The sign bit.
pub const SIGN_BIT: u32 = 0x8000_0000;

/// The largest magnitude that is not a NaN: the bits of infinity.
pub const INFINITY_BITS: u32 = 0x7f80_0000;

pub open spec fn magnitude(bits: u32) -> int {
    bits as int % (SIGN_BIT as int)
}

/// Exponent all ones with a non-zero fraction.
pub open spec fn is_nan(bits: u32) -> bool {
    magnitude(bits) > INFINITY_BITS
}

/// A key that orders non-NaN values as the reals they stand for; both zeros
/// map to 0.
pub open spec fn order_key(bits: u32) -> int {
    if bits < SIGN_BIT {
        magnitude(bits)
    } else {
        -magnitude(bits)
    }
}

/// `a <= b` on the values the bits stand for (false when either is a NaN).
pub open spec fn depth_le(a: u32, b: u32) -> bool {
    !is_nan(a) && !is_nan(b) && order_key(a) <= order_key(b)
}

/// `a < 0.0` on the value the bits stand for.
pub open spec fn depth_negative(a: u32) -> bool {
    !is_nan(a) && order_key(a) < 0
}

/// Whether depth `a` is at most depth `b`.
pub fn depth_less_equal(a: u32, b: u32) -> (r: bool)
    ensures
        r == depth_le(a, b),
{
    let ma = a % SIGN_BIT;
    let mb = b % SIGN_BIT;
    if ma > INFINITY_BITS || mb > INFINITY_BITS {
        return false;
    }
    let a_negative = a >= SIGN_BIT;
    let b_negative = b >= SIGN_BIT;
    if a_negative && b_negative {
        mb <= ma
    } else if a_negative {
        true
    } else if b_negative {
        ma == 0 && mb == 0
    } else {
        ma <= mb
    }
}

/// Whether depth `a` lies below zero.
pub fn depth_is_negative(a: u32) -> (r: bool)
    ensures
        r == depth_negative(a),
{
    let ma = a % SIGN_BIT;
    a >= SIGN_BIT && ma > 0 && ma <= INFINITY_BITS
}

} // verus!
