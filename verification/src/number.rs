//! Numbers of the language are IEEE 754 double-precision values. The library
//! never rounds: it holds a number as its 64-bit pattern and decides on that
//! pattern what needs no rounding (sign, equality, order). Sums, differences,
//! products and quotients are asked of the host.

use vstd::prelude::*;

verus! {

/// The sign bit of a pattern.
pub const SIGN_BIT: u64 = 0x8000_0000_0000_0000;

/// The pattern of positive infinity: every exponent bit set, no fraction bit.
pub const INFINITY_BITS: u64 = 0x7ff0_0000_0000_0000;

/// The pattern without its sign bit.
pub open spec fn magnitude(bits: u64) -> int {
    if bits >= SIGN_BIT {
        bits - SIGN_BIT
    } else {
        bits as int
    }
}

/// Whether the sign bit is set.
pub open spec fn is_negative(bits: u64) -> bool {
    bits >= SIGN_BIT
}

/// A pattern is not-a-number when all exponent bits are set and some
/// fraction bit is: its magnitude lies above that of infinity.
pub open spec fn is_nan(bits: u64) -> bool {
    magnitude(bits) > INFINITY_BITS
}

/// Patterns other than not-a-number are ordered as their values are: by
/// magnitude, mirrored for negative ones. Both zeros share the key 0.
pub open spec fn order_key(bits: u64) -> int {
    if is_negative(bits) {
        -magnitude(bits)
    } else {
        magnitude(bits)
    }
}

/// IEEE equality: not-a-number equals nothing, and the two zeros are equal.
pub open spec fn number_eq(left: u64, right: u64) -> bool {
    !is_nan(left) && !is_nan(right) && order_key(left) == order_key(right)
}

/// IEEE `<`: false whenever an operand is not-a-number.
pub open spec fn number_lt(left: u64, right: u64) -> bool {
    !is_nan(left) && !is_nan(right) && order_key(left) < order_key(right)
}

/// IEEE `<=`: false whenever an operand is not-a-number.
pub open spec fn number_le(left: u64, right: u64) -> bool {
    !is_nan(left) && !is_nan(right) && order_key(left) <= order_key(right)
}

/// Negation flips the sign bit and nothing else.
pub open spec fn negated(bits: u64) -> u64 {
    if bits >= SIGN_BIT {
        (bits - SIGN_BIT) as u64
    } else {
        (bits + SIGN_BIT) as u64
    }
}

/// Whether `bits` is a not-a-number pattern.
pub fn not_a_number(bits: u64) -> (nan: bool)
    ensures
        nan == is_nan(bits),
{
    if bits >= SIGN_BIT {
        bits - SIGN_BIT > INFINITY_BITS
    } else {
        bits > INFINITY_BITS
    }
}

/// The pattern with its sign bit cleared.
fn clear_sign(bits: u64) -> (rest: u64)
    ensures
        rest == magnitude(bits),
        rest < SIGN_BIT,
{
    if bits >= SIGN_BIT {
        bits - SIGN_BIT
    } else {
        bits
    }
}

/// `left == right` on numbers.
pub fn equal(left: u64, right: u64) -> (same: bool)
    ensures
        same == number_eq(left, right),
{
    if not_a_number(left) || not_a_number(right) {
        false
    } else if left == right {
        true
    } else {
        clear_sign(left) == 0 && clear_sign(right) == 0
    }
}

/// `left < right` on numbers.
pub fn less(left: u64, right: u64) -> (smaller: bool)
    ensures
        smaller == number_lt(left, right),
{
    if not_a_number(left) || not_a_number(right) {
        false
    } else if left >= SIGN_BIT {
        if right >= SIGN_BIT {
            clear_sign(left) > clear_sign(right)
        } else {
            clear_sign(left) > 0 || right > 0
        }
    } else {
        if right >= SIGN_BIT {
            false
        } else {
            left < right
        }
    }
}

/// `left <= right` on numbers.
pub fn less_equal(left: u64, right: u64) -> (at_most: bool)
    ensures
        at_most == number_le(left, right),
{
    if not_a_number(left) || not_a_number(right) {
        false
    } else if left >= SIGN_BIT {
        if right >= SIGN_BIT {
            clear_sign(left) >= clear_sign(right)
        } else {
            true
        }
    } else {
        if right >= SIGN_BIT {
            left == 0 && clear_sign(right) == 0
        } else {
            left <= right
        }
    }
}

/// `-bits` on numbers.
pub fn negate(bits: u64) -> (flipped: u64)
    ensures
        flipped == negated(bits),
{
    if bits >= SIGN_BIT {
        bits - SIGN_BIT
    } else {
        bits + SIGN_BIT
    }
}

/// Equality of numbers is symmetric, and holds of a pattern with itself
/// unless the pattern is not-a-number.
pub proof fn lemma_number_eq(left: u64, right: u64)
    ensures
        number_eq(left, right) == number_eq(right, left),
        number_eq(left, left) == !is_nan(left),
        left == right && !is_nan(left) ==> number_eq(left, right),
{
}

/// Negating twice gives the pattern back, and negation mirrors the order.
pub proof fn lemma_negated(bits: u64)
    ensures
        negated(negated(bits)) == bits,
        is_nan(negated(bits)) == is_nan(bits),
        order_key(negated(bits)) == -order_key(bits),
{
}

/// Among numbers that are not not-a-number, exactly one of `<`, `==`, `>`
/// holds, and `<=` is `<` or `==`.
pub proof fn lemma_number_order(left: u64, right: u64)
    ensures
        number_le(left, right) == (number_lt(left, right) || number_eq(left, right)),
        !is_nan(left) && !is_nan(right) ==> (number_lt(left, right) || number_eq(left, right)
            || number_lt(right, left)),
        !(number_lt(left, right) && number_lt(right, left)),
        !(number_lt(left, right) && number_eq(left, right)),
{
}

} // verus!
