//! Numbers are IEEE 754 doubles, held by their 64-bit patterns. This module
//! states, over the pattern alone, the parts of the standard that need no
//! rounding: the sign, not-a-number, negation, equality and order.
//!
//! Bit 63 is the sign; the other 63 bits are the magnitude, which orders
//! the finite values and infinity by size. A magnitude above that of
//! infinity is not a number.

use vstd::prelude::*;

verus! {

/// The pattern with only the sign bit set: negative zero.
pub const SIGN_BIT: u64 = 0x8000_0000_0000_0000;

/// The pattern of positive infinity, the largest magnitude that is a number.
pub const INFINITY: u64 = 0x7ff0_0000_0000_0000;

/// The pattern without its sign bit.
pub open spec fn magnitude(bits: u64) -> u64 {
    if bits >= SIGN_BIT {
        (bits - SIGN_BIT) as u64
    } else {
        bits
    }
}

/// Whether the pattern is not a number.
pub open spec fn is_nan(bits: u64) -> bool {
    magnitude(bits) > INFINITY
}

/// The pattern with its sign bit flipped: arithmetic negation.
pub open spec fn negated(bits: u64) -> u64 {
    if bits >= SIGN_BIT {
        (bits - SIGN_BIT) as u64
    } else {
        (bits + SIGN_BIT) as u64
    }
}

/// The place of a number on the line: its magnitude, counted downwards
/// from zero where the sign is set. Both zeros stand at 0.
pub open spec fn ordinal(bits: u64) -> int {
    if bits >= SIGN_BIT {
        -(magnitude(bits) as int)
    } else {
        bits as int
    }
}

/// Numeric equality: neither side is not a number and both stand at the
/// same place. Positive and negative zero are equal; a not-a-number equals
/// nothing, itself included.
pub open spec fn equal(a: u64, b: u64) -> bool {
    !is_nan(a) && !is_nan(b) && ordinal(a) == ordinal(b)
}

/// Numeric `<`: false as soon as one side is not a number.
pub open spec fn less(a: u64, b: u64) -> bool {
    !is_nan(a) && !is_nan(b) && ordinal(a) < ordinal(b)
}

/// Numeric `<=`: false as soon as one side is not a number.
pub open spec fn less_equal(a: u64, b: u64) -> bool {
    !is_nan(a) && !is_nan(b) && ordinal(a) <= ordinal(b)
}

/// Numeric `>`.
pub open spec fn greater(a: u64, b: u64) -> bool {
    less(b, a)
}

/// Numeric `>=`.
pub open spec fn greater_equal(a: u64, b: u64) -> bool {
    less_equal(b, a)
}

/// Tells whether the pattern is not a number.
pub fn not_a_number(bits: u64) -> (r: bool)
    ensures
        r == is_nan(bits),
{
    let m: u64 = if bits >= SIGN_BIT {
        bits - SIGN_BIT
    } else {
        bits
    };
    m > INFINITY
}

/// Negates a number.
pub fn negate(bits: u64) -> (r: u64)
    ensures
        r == negated(bits),
{
    if bits >= SIGN_BIT {
        bits - SIGN_BIT
    } else {
        bits + SIGN_BIT
    }
}

/// Numeric equality.
pub fn is_equal_number(a: u64, b: u64) -> (r: bool)
    ensures
        r == equal(a, b),
{
    if not_a_number(a) || not_a_number(b) {
        false
    } else {
        a == b || ((a == 0 || a == SIGN_BIT) && (b == 0 || b == SIGN_BIT))
    }
}

/// Numeric `<`.
pub fn is_less(a: u64, b: u64) -> (r: bool)
    ensures
        r == less(a, b),
{
    if not_a_number(a) || not_a_number(b) {
        false
    } else if a >= SIGN_BIT {
        if b >= SIGN_BIT {
            a > b
        } else {
            !(a == SIGN_BIT && b == 0)
        }
    } else {
        b < SIGN_BIT && a < b
    }
}

/// Numeric `<=`.
pub fn is_less_equal(a: u64, b: u64) -> (r: bool)
    ensures
        r == less_equal(a, b),
{
    if not_a_number(a) || not_a_number(b) {
        false
    } else if a >= SIGN_BIT {
        if b >= SIGN_BIT {
            a >= b
        } else {
            true
        }
    } else {
        if b >= SIGN_BIT {
            a == 0 && b == SIGN_BIT
        } else {
            a <= b
        }
    }
}

/// Equality is symmetric.
pub proof fn equal_is_symmetric(a: u64, b: u64)
    ensures
        equal(a, b) == equal(b, a),
{
}

/// Of two numbers exactly one of `<`, `==` and `>` holds; with a
/// not-a-number none does.
pub proof fn order_is_total_on_numbers(a: u64, b: u64)
    ensures
        !is_nan(a) && !is_nan(b) ==> (less(a, b) || equal(a, b) || greater(a, b)),
        !(less(a, b) && equal(a, b)),
        !(less(a, b) && greater(a, b)),
        !(equal(a, b) && greater(a, b)),
        less_equal(a, b) == (less(a, b) || equal(a, b)),
        is_nan(a) || is_nan(b) ==> !less(a, b) && !equal(a, b) && !greater(a, b),
{
}

/// Negation undoes itself, keeps not-a-number apart and mirrors the order.
pub proof fn negation_mirrors(a: u64, b: u64)
    ensures
        negated(negated(a)) == a,
        is_nan(negated(a)) == is_nan(a),
        ordinal(negated(a)) == -ordinal(a),
        less(negated(a), negated(b)) == less(b, a),
{
}

} // verus!
