//! Binary64 numbers as bit patterns: what integer arithmetic tells of
//! them, and the unit that is asked for the rest.

use vstd::prelude::*;

verus! {

/// The bit that carries the sign of a binary64 number.
pub const SIGN_BIT: u64 = 0x8000_0000_0000_0000;

/// The bit pattern of positive infinity; every larger magnitude is a NaN.
pub const INFINITY_BITS: u64 = 0x7ff0_0000_0000_0000;

/// The bit pattern with its sign cleared.
pub open spec fn magnitude(bits: u64) -> int {
    if bits >= SIGN_BIT {
        bits - SIGN_BIT
    } else {
        bits as int
    }
}

/// The pattern encodes a NaN.
pub open spec fn is_nan(bits: u64) -> bool {
    magnitude(bits) > INFINITY_BITS
}

/// The pattern encodes positive or negative zero.
pub open spec fn is_zero(bits: u64) -> bool {
    magnitude(bits) == 0
}

/// IEEE-754 equality of two binary64 numbers given by their bit patterns: a
/// NaN equals nothing, the two zeros equal each other, and every other number
/// equals only itself.
pub open spec fn float_eq(a: u64, b: u64) -> bool {
    !is_nan(a) && !is_nan(b) && (a == b || (is_zero(a) && is_zero(b)))
}

/// Whether the pattern encodes a NaN.
pub fn bits_are_nan(bits: u64) -> (nan: bool)
    ensures
        nan == is_nan(bits),
{
    let magnitude: u64 = if bits >= SIGN_BIT {
        bits - SIGN_BIT
    } else {
        bits
    };
    magnitude > INFINITY_BITS
}

/// Whether the pattern encodes a zero of either sign.
pub fn bits_are_zero(bits: u64) -> (zero: bool)
    ensures
        zero == is_zero(bits),
{
    bits == 0 || bits == SIGN_BIT
}

/// Compares two binary64 numbers, given by their bit patterns, as IEEE-754
/// equality does.
pub fn bits_equal(a: u64, b: u64) -> (equal: bool)
    ensures
        equal == float_eq(a, b),
{
    !bits_are_nan(a) && !bits_are_nan(b) && (a == b || (bits_are_zero(a) && bits_are_zero(b)))
}

/// Equality of numbers is symmetric, and transitive wherever it holds.
pub proof fn lemma_float_eq_congruent(a: u64, b: u64, c: u64)
    requires
        float_eq(a, b),
    ensures
        float_eq(b, a),
        float_eq(c, a) == float_eq(c, b),
        float_eq(a, c) == float_eq(b, c),
{
}

/// The four arithmetic operators.
#[derive(Debug, Clone, Copy, PartialEq, Eq, Structural)]
pub enum Arithmetic {
    Add,
    Subtract,
    Multiply,
    Divide,
}

/// The four ordering operators.
#[derive(Debug, Clone, Copy, PartialEq, Eq, Structural)]
pub enum Comparison {
    LessThan,
    GreaterThan,
    LessThanOrEqual,
    GreaterThanOrEqual,
}

/// Where a binary64 number stands among the others, as an integer: the
/// magnitude of the pattern, negated for a negative number. The two zeros
/// stand at the same place, and of two numbers that are no NaN the smaller
/// stands lower.
pub open spec fn rank(bits: u64) -> int {
    if bits >= SIGN_BIT {
        -magnitude(bits)
    } else {
        magnitude(bits)
    }
}

/// Whether `lhs op rhs` holds of two binary64 numbers given by their bit
/// patterns, as IEEE-754 orders them: a NaN stands in no order to
/// anything.
pub open spec fn float_order(op: Comparison, lhs: u64, rhs: u64) -> bool {
    !is_nan(lhs) && !is_nan(rhs) && match op {
        Comparison::LessThan => rank(lhs) < rank(rhs),
        Comparison::GreaterThan => rank(lhs) > rank(rhs),
        Comparison::LessThanOrEqual => rank(lhs) <= rank(rhs),
        Comparison::GreaterThanOrEqual => rank(lhs) >= rank(rhs),
    }
}

/// Where a binary64 number stands among the others.
fn bits_rank(bits: u64) -> (place: i128)
    ensures
        place == rank(bits),
{
    if bits >= SIGN_BIT {
        -((bits - SIGN_BIT) as i128)
    } else {
        bits as i128
    }
}

/// Decides whether `lhs op rhs` holds of two binary64 numbers given by
/// their bit patterns.
pub fn bits_compare(op: Comparison, lhs: u64, rhs: u64) -> (holds: bool)
    ensures
        holds == float_order(op, lhs, rhs),
{
    if bits_are_nan(lhs) || bits_are_nan(rhs) {
        return false;
    }
    let (lhs, rhs) = (bits_rank(lhs), bits_rank(rhs));
    match op {
        Comparison::LessThan => lhs < rhs,
        Comparison::GreaterThan => lhs > rhs,
        Comparison::LessThanOrEqual => lhs <= rhs,
        Comparison::GreaterThanOrEqual => lhs >= rhs,
    }
}

/// Two numbers are equal exactly when each is at most the other.
pub proof fn lemma_float_eq_by_order(lhs: u64, rhs: u64)
    ensures
        float_eq(lhs, rhs) == (float_order(Comparison::LessThanOrEqual, lhs, rhs) && float_order(
            Comparison::GreaterThanOrEqual,
            lhs,
            rhs,
        )),
{
}

/// The weight of the lowest bit of the exponent field: two to the power 52.
pub const HIDDEN_BIT: u64 = 0x10_0000_0000_0000;

/// The exponent field of the number one.
pub const BIAS: u64 = 1023;

/// Two to the power `n`.
pub open spec fn two_to(n: nat) -> nat
    decreases n,
{
    if n == 0 {
        1
    } else {
        2 * two_to((n - 1) as nat)
    }
}

/// The number of times a positive number can be halved before it drops
/// below one: the position of its highest bit.
pub open spec fn highest_bit(m: nat) -> nat
    decreases m,
{
    if m <= 1 {
        0
    } else {
        1 + highest_bit(m / 2)
    }
}

/// The integer that a binary64 number truncates to: its whole part where
/// that is a 64-bit signed integer, the nearest such integer where the
/// number lies beyond them, and zero for a NaN.
pub open spec fn truncated(bits: u64) -> int {
    let exponent = magnitude(bits) / (HIDDEN_BIT as int);
    let significand = HIDDEN_BIT + magnitude(bits) % (HIDDEN_BIT as int);
    if is_nan(bits) || exponent < BIAS {
        0
    } else if exponent >= BIAS + 63 {
        if bits >= SIGN_BIT {
            i64::MIN as int
        } else {
            i64::MAX as int
        }
    } else {
        let whole = if exponent >= BIAS + 52 {
            significand * two_to((exponent - BIAS - 52) as nat)
        } else {
            significand / (two_to((BIAS + 52 - exponent) as nat) as int)
        };
        if bits >= SIGN_BIT {
            -whole
        } else {
            whole
        }
    }
}

/// The 53-bit significand of the binary64 number nearest to the positive
/// integer `m`, a tie going to the even significand; it may come to two to
/// the power 53, which stands for the next power of two.
pub open spec fn rounded(m: nat) -> nat {
    let high = highest_bit(m);
    if high <= 52 {
        m * two_to((52 - high) as nat)
    } else {
        let unit = two_to((high - 52) as nat);
        let kept = m / unit;
        let lost = m % unit;
        if 2 * lost > unit || (2 * lost == unit && kept % 2 == 1) {
            kept + 1
        } else {
            kept
        }
    }
}

/// The bit pattern of the binary64 number nearest to the integer `value`,
/// a tie going to the number with the even significand.
pub open spec fn converted(value: i64) -> int {
    let m = if value < 0 {
        (-value) as nat
    } else {
        value as nat
    };
    if value == 0 {
        0
    } else {
        (if value < 0 {
            SIGN_BIT as int
        } else {
            0
        }) + (BIAS - 1 + highest_bit(m)) * HIDDEN_BIT + rounded(m)
    }
}

/// Two to the power `n` grows with `n`.
proof fn lemma_two_to_grows(n: nat, more: nat)
    requires
        n <= more,
    ensures
        two_to(n) <= two_to(more),
        two_to(n) >= 1,
    decreases more,
{
    if n < more {
        lemma_two_to_grows(n, (more - 1) as nat);
    } else if n > 0 {
        lemma_two_to_grows((n - 1) as nat, (n - 1) as nat);
    }
}

/// Two to the power 10, 52 and 63.
proof fn lemma_two_to_values()
    ensures
        two_to(10) == 1024,
        two_to(52) == HIDDEN_BIT,
        two_to(53) == 2 * HIDDEN_BIT,
        two_to(62) == 0x4000_0000_0000_0000,
        two_to(63) == SIGN_BIT,
{
    reveal_with_fuel(two_to, 11);
    assert(two_to(10) == 1024);
    assert(two_to(20) == 1024 * 1024);
    assert(two_to(30) == 1024 * 1024 * 1024);
    assert(two_to(40) == 1024 * 1024 * 1024 * 1024);
    assert(two_to(50) == 1024 * 1024 * 1024 * 1024 * 1024);
    assert(two_to(60) == 1024 * 1024 * 1024 * 1024 * 1024 * 1024);
}

/// Computes two to the power `n`.
fn power_of_two(n: u64) -> (power: u64)
    requires
        n <= 63,
    ensures
        power == two_to(n as nat),
{
    let mut power: u64 = 1;
    let mut i: u64 = 0;
    while i < n
        invariant
            i <= n <= 63,
            power == two_to(i as nat),
        decreases n - i,
    {
        proof {
            lemma_two_to_grows((i + 1) as nat, 63);
            lemma_two_to_values();
        }
        power = power * 2;
        i += 1;
    }
    power
}

/// The integer that a binary64 number, given by its bit pattern, truncates
/// to.
pub fn bits_truncate(bits: u64) -> (whole: i64)
    ensures
        whole == truncated(bits),
{
    if bits_are_nan(bits) {
        return 0;
    }
    let negative = bits >= SIGN_BIT;
    let magnitude: u64 = if negative {
        bits - SIGN_BIT
    } else {
        bits
    };
    let exponent = magnitude / HIDDEN_BIT;
    let significand = HIDDEN_BIT + magnitude % HIDDEN_BIT;
    if exponent < BIAS {
        return 0;
    }
    if exponent >= BIAS + 63 {
        return if negative {
            i64::MIN
        } else {
            i64::MAX
        };
    }
    let whole: u64 = if exponent >= BIAS + 52 {
        let scale = power_of_two(exponent - BIAS - 52);
        proof {
            lemma_two_to_grows((exponent - BIAS - 52) as nat, 10);
            lemma_two_to_values();
            assert(significand * scale < 0x8000_0000_0000_0000) by (nonlinear_arith)
                requires
                    significand < 0x20_0000_0000_0000,
                    scale <= 1024,
            ;
        }
        significand * scale
    } else {
        let scale = power_of_two(BIAS + 52 - exponent);
        proof {
            lemma_two_to_grows(0, (BIAS + 52 - exponent) as nat);
        }
        significand / scale
    };
    if negative {
        -(whole as i64)
    } else {
        whole as i64
    }
}

/// Powers of two multiply by adding the exponents.
proof fn lemma_two_to_adds(a: nat, b: nat)
    ensures
        two_to(a + b) == two_to(a) * two_to(b),
    decreases a,
{
    if a > 0 {
        lemma_two_to_adds((a - 1) as nat, b);
        assert(two_to(a + b) == 2 * two_to((a - 1 + b) as nat));
        assert(2 * (two_to((a - 1) as nat) * two_to(b)) == (2 * two_to((a - 1) as nat)) * two_to(b))
            by (nonlinear_arith);
    } else {
        assert(1 * two_to(b) == two_to(b));
    }
}

/// A positive number lies between the power of two of its highest bit and
/// the next power of two.
proof fn lemma_highest_bit(m: nat)
    requires
        m >= 1,
    ensures
        two_to(highest_bit(m)) <= m < two_to(highest_bit(m) + 1),
    decreases m,
{
    if m > 1 {
        lemma_highest_bit(m / 2);
    }
}

/// A number below a power of two has its highest bit below the exponent.
proof fn lemma_highest_bit_below(m: nat, n: nat)
    requires
        1 <= m < two_to(n),
    ensures
        highest_bit(m) < n,
{
    lemma_highest_bit(m);
    if highest_bit(m) >= n {
        lemma_two_to_grows(n, highest_bit(m));
    }
}

/// The bit pattern of the binary64 number nearest to `value`.
pub fn bits_from_integer(value: i64) -> (bits: u64)
    ensures
        bits == converted(value),
{
    if value == 0 {
        return 0;
    }
    let negative = value < 0;
    let m: u64 = if negative {
        (-(value + 1)) as u64 + 1
    } else {
        value as u64
    };
    let mut high: u64 = 0;
    let mut rest: u64 = m;
    proof {
        lemma_two_to_values();
        lemma_highest_bit(m as nat);
        assert(two_to(64) == 2 * two_to(63));
        lemma_highest_bit_below(m as nat, 64);
    }
    while rest > 1
        invariant
            rest >= 1,
            highest_bit(m as nat) == high + highest_bit(rest as nat),
            highest_bit(m as nat) < 64,
        decreases rest,
    {
        rest = rest / 2;
        high += 1;
    }
    let significand: u64 = if high <= 52 {
        let scale = power_of_two(52 - high);
        proof {
            lemma_two_to_adds((high + 1) as nat, (52 - high) as nat);
            lemma_two_to_grows(0, (52 - high) as nat);
            assert(m * scale < 0x20_0000_0000_0000) by (nonlinear_arith)
                requires
                    m < two_to((high + 1) as nat),
                    scale == two_to((52 - high) as nat),
                    two_to((high + 1) as nat) * two_to((52 - high) as nat)
                        == 0x20_0000_0000_0000,
                    scale >= 1,
            ;
        }
        m * scale
    } else {
        let unit = power_of_two(high - 52);
        proof {
            lemma_two_to_grows((high - 52) as nat, 11);
            assert(two_to(11) == 2048) by {
                reveal_with_fuel(two_to, 12);
            }
            lemma_two_to_adds(53, (high - 52) as nat);
            lemma_two_to_grows(0, (high - 52) as nat);
            assert(m / unit < 0x20_0000_0000_0000) by (nonlinear_arith)
                requires
                    m < two_to((high + 1) as nat),
                    unit == two_to((high - 52) as nat),
                    two_to((high + 1) as nat) == 0x20_0000_0000_0000 * two_to(
                        (high - 52) as nat,
                    ),
                    unit >= 1,
            ;
        }
        let kept = m / unit;
        let lost = m % unit;
        if 2 * lost > unit || (2 * lost == unit && kept % 2 == 1) {
            kept + 1
        } else {
            kept
        }
    };
    let sign: u64 = if negative {
        SIGN_BIT
    } else {
        0
    };
    sign + (BIAS - 1 + high) * HIDDEN_BIT + significand
}

/// Binary64 arithmetic on bit patterns, supplied by the embedder. The
/// interpreter carries such numbers around as their bit patterns. What it
/// can tell from a pattern by integer arithmetic it tells itself: whether a
/// number is zero, how two numbers compare, which integer a number
/// truncates to and which number is nearest to an integer. For arithmetic
/// and for decimal notation it asks this unit.
pub trait FloatUnit {
    /// The bit pattern of `lhs op rhs`.
    fn arithmetic(&self, op: Arithmetic, lhs: u64, rhs: u64) -> u64;

    /// The number in decimal notation.
    fn display(&self, bits: u64) -> String;
}

} // verus!
