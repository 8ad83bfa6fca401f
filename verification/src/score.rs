//! Scores as the network hands them out: single-precision numbers, carried
//! here by their thirty-two bits so that their order can be reasoned about
//! with integers.
//!
//! The top bit is the sign, the other thirty-one bits are the magnitude. A
//! magnitude above that of infinity is not a number. Among numbers, a positive
//! one is the greater the greater its magnitude, a negative one the smaller,
//! and the two zeros are equal.

use vstd::prelude::*;

verus! {

/// The sign bit.
pub const SIGN: u32 = 0x8000_0000;

/// The magnitude of infinity; every greater magnitude is not a number. With
/// a clear sign bit these are the bits of positive infinity.
pub const INFINITE: u32 = 0x7F80_0000;

/// The bits of negative infinity.
pub const NEGATIVE_INFINITE: u32 = 0xFF80_0000;

/// The bits without the sign.
pub open spec fn magnitude(bits: u32) -> int {
    if bits >= SIGN {
        bits - SIGN
    } else {
        bits as int
    }
}

/// Whether the bits stand for no number at all.
pub open spec fn is_nan(bits: u32) -> bool {
    magnitude(bits) > INFINITE
}

/// An integer that grows with the number that the bits stand for: the
/// magnitude, negated under a set sign bit.
pub open spec fn order_key(bits: u32) -> int {
    if bits >= SIGN {
        -magnitude(bits)
    } else {
        magnitude(bits)
    }
}

/// Whether `a` is a number strictly greater than the number `b`. With either
/// of them not a number this is false, as it is for the numbers themselves.
pub open spec fn exceeds(a: u32, b: u32) -> bool {
    !is_nan(a) && !is_nan(b) && order_key(a) > order_key(b)
}

/// Whether the bits stand for a number.
pub fn is_number(bits: u32) -> (yes: bool)
    ensures
        yes == !is_nan(bits),
{
    let low: u32 = if bits >= SIGN {
        bits - SIGN
    } else {
        bits
    };
    low <= INFINITE
}

/// The order key of `bits`.
pub fn key(bits: u32) -> (k: i64)
    ensures
        k == order_key(bits),
{
    if bits >= SIGN {
        let low: u32 = bits - SIGN;
        let wide: i64 = low as i64;
        -wide
    } else {
        bits as i64
    }
}

/// Whether `a` is a number strictly greater than the number `b`.
pub fn greater(a: u32, b: u32) -> (yes: bool)
    ensures
        yes == exceeds(a, b),
{
    is_number(a) && is_number(b) && key(a) > key(b)
}

/// No score exceeds itself, and of two scores at most one exceeds the other.
pub proof fn lemma_exceeds_is_strict(a: u32, b: u32)
    ensures
        !exceeds(a, a),
        exceeds(a, b) ==> !exceeds(b, a),
{
}

/// What exceeds a score exceeds everything that the score exceeds.
pub proof fn lemma_exceeds_is_transitive(a: u32, b: u32, c: u32)
    requires
        exceeds(a, b),
        exceeds(b, c),
    ensures
        exceeds(a, c),
{
}

/// Of two numbers either one exceeds the other or they have the same key.
pub proof fn lemma_numbers_are_comparable(a: u32, b: u32)
    requires
        !is_nan(a),
        !is_nan(b),
    ensures
        exceeds(a, b) || exceeds(b, a) || order_key(a) == order_key(b),
{
}

} // verus!
