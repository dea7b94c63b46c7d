//! IEEE 754 binary64 numbers as 64-bit patterns.
//!
//! Bit 63 of a pattern is the sign, bits 62 to 52 are the exponent field and
//! bits 51 to 0 the fraction field. Everything here is stated with integer
//! arithmetic on the pattern, so that comparisons of encoded numbers can be
//! verified; the laws at the end tie those statements to the fields and to
//! the real numbers that the patterns encode.

use vstd::arithmetic::power2::{
    lemma2_to64, lemma_pow2_pos, lemma_pow2_strictly_increases, lemma_pow2_unfold, pow2,
};
use vstd::prelude::*;

verus! {

/// The pattern whose only set bit is the sign. It encodes negative zero.
pub const SIGN_BIT: u64 = 0x8000_0000_0000_0000;

/// Two to the 52nd: the place just above the fraction field.
pub const HIDDEN_BIT: u64 = 0x0010_0000_0000_0000;

/// Positive zero.
pub const POSITIVE_ZERO: u64 = 0;

/// Positive infinity: exponent field all ones, fraction zero.
pub const POSITIVE_INFINITY: u64 = 0x7FF0_0000_0000_0000;

/// Negative infinity.
pub const NEGATIVE_INFINITY: u64 = 0xFFF0_0000_0000_0000;

/// The NaN that stands for "no number" wherever this crate has to make one.
pub const QUIET_NAN: u64 = 0x7FF8_0000_0000_0000;

/// The sign bit is set. This holds of negative zero and of half the NaNs too.
pub open spec fn sign_negative(bits: u64) -> bool {
    bits >= SIGN_BIT
}

/// The pattern without its sign bit.
pub open spec fn magnitude(bits: u64) -> int {
    if bits >= SIGN_BIT {
        bits - SIGN_BIT
    } else {
        bits as int
    }
}

/// Bits 62 to 52.
pub open spec fn exponent_field(bits: u64) -> int {
    magnitude(bits) / (HIDDEN_BIT as int)
}

/// Bits 51 to 0.
pub open spec fn fraction_field(bits: u64) -> int {
    magnitude(bits) % (HIDDEN_BIT as int)
}

/// The pattern encodes a real number: neither an infinity nor a NaN.
pub open spec fn is_finite(bits: u64) -> bool {
    magnitude(bits) < POSITIVE_INFINITY
}

/// The pattern encodes no number: exponent field all ones, fraction not zero.
pub open spec fn spec_is_nan(bits: u64) -> bool {
    magnitude(bits) > POSITIVE_INFINITY
}

/// The digits of a finite number: the fraction field, with the hidden bit in
/// front of it unless the number is subnormal.
pub open spec fn significand(bits: u64) -> int {
    if exponent_field(bits) == 0 {
        fraction_field(bits)
    } else {
        HIDDEN_BIT + fraction_field(bits)
    }
}

/// How often the significand is doubled, counted from the smallest exponent.
pub open spec fn doublings(bits: u64) -> nat {
    if exponent_field(bits) == 0 {
        0
    } else {
        (exponent_field(bits) - 1) as nat
    }
}

/// The absolute value of a finite number, in units of two to the -1074th.
/// Every finite binary64 number is a whole multiple of that unit.
pub open spec fn scaled_magnitude(bits: u64) -> int {
    significand(bits) * pow2(doublings(bits))
}

/// The finite number that `bits` encodes, in units of two to the -1074th.
pub open spec fn scaled_value(bits: u64) -> int {
    if sign_negative(bits) {
        -scaled_magnitude(bits)
    } else {
        scaled_magnitude(bits)
    }
}

/// The place of a number on the extended real line, as an integer: the
/// magnitude of the pattern, negated where the sign bit is set. Both zeros
/// have key 0, and of two numbers the smaller has the smaller key.
/// Meaningless for a NaN.
pub open spec fn order_key(bits: u64) -> int {
    if sign_negative(bits) {
        -magnitude(bits)
    } else {
        magnitude(bits)
    }
}

/// `a < b` as IEEE 754 compares: false as soon as either side is a NaN.
pub open spec fn spec_less_than(a: u64, b: u64) -> bool {
    !spec_is_nan(a) && !spec_is_nan(b) && order_key(a) < order_key(b)
}

/// `a == b` as IEEE 754 compares: a NaN equals nothing, the two zeros are
/// equal.
pub open spec fn spec_equal(a: u64, b: u64) -> bool {
    !spec_is_nan(a) && !spec_is_nan(b) && order_key(a) == order_key(b)
}

/// `bits > 0`: a number, not a zero, with the sign bit clear.
pub open spec fn spec_is_positive(bits: u64) -> bool {
    spec_less_than(POSITIVE_ZERO, bits)
}

/// The larger of two numbers, passing over a NaN: if one side is a NaN the
/// other side is the result, and `QUIET_NAN` if both are. Of two equal
/// numbers the first is the result.
pub open spec fn spec_larger(a: u64, b: u64) -> u64 {
    if spec_is_nan(a) && spec_is_nan(b) {
        QUIET_NAN
    } else if spec_is_nan(a) {
        b
    } else if spec_is_nan(b) {
        a
    } else if order_key(a) < order_key(b) {
        b
    } else {
        a
    }
}

/// Whether `bits` encodes a NaN.
#[verifier::when_used_as_spec(spec_is_nan)]
pub fn is_nan(bits: u64) -> (nan: bool)
    ensures
        nan == spec_is_nan(bits),
{
    if bits >= SIGN_BIT {
        bits - SIGN_BIT > POSITIVE_INFINITY
    } else {
        bits > POSITIVE_INFINITY
    }
}

/// Whether the number encoded by `a` is strictly below the one encoded by `b`.
#[verifier::when_used_as_spec(spec_less_than)]
pub fn less_than(a: u64, b: u64) -> (below: bool)
    ensures
        below == spec_less_than(a, b),
{
    if is_nan(a) || is_nan(b) {
        false
    } else if a >= SIGN_BIT {
        if b >= SIGN_BIT {
            a > b
        } else {
            a > SIGN_BIT || b > 0
        }
    } else {
        b < SIGN_BIT && a < b
    }
}

/// Whether the two patterns encode equal numbers.
#[verifier::when_used_as_spec(spec_equal)]
pub fn equal(a: u64, b: u64) -> (same: bool)
    ensures
        same == spec_equal(a, b),
{
    if is_nan(a) || is_nan(b) {
        false
    } else {
        a == b || (is_zero_pattern(a) && is_zero_pattern(b))
    }
}

/// Whether the number encoded by `bits` is strictly above zero.
#[verifier::when_used_as_spec(spec_is_positive)]
pub fn is_positive(bits: u64) -> (positive: bool)
    ensures
        positive == spec_is_positive(bits),
{
    0 < bits && bits <= POSITIVE_INFINITY
}

/// The larger of the two numbers, passing over a NaN.
#[verifier::when_used_as_spec(spec_larger)]
pub fn larger(a: u64, b: u64) -> (top: u64)
    ensures
        top == spec_larger(a, b),
{
    if is_nan(a) {
        if is_nan(b) {
            QUIET_NAN
        } else {
            b
        }
    } else if is_nan(b) {
        a
    } else if less_than(a, b) {
        b
    } else {
        a
    }
}

fn is_zero_pattern(bits: u64) -> (zero: bool)
    ensures
        zero == (magnitude(bits) == 0),
{
    bits == POSITIVE_ZERO || bits == SIGN_BIT
}

/// The parts named above are the bit ranges of the encoding.
pub proof fn lemma_parts_are_bit_ranges(bits: u64)
    ensures
        sign_negative(bits) <==> bits >> 63 == 1,
        magnitude(bits) == bits & 0x7FFF_FFFF_FFFF_FFFF,
        exponent_field(bits) == (bits >> 52) & 0x7FF,
        fraction_field(bits) == bits & 0x000F_FFFF_FFFF_FFFF,
{
    assert(bits >= 0x8000_0000_0000_0000 <==> bits >> 63 == 1) by (bit_vector);
    assert(bits >= 0x8000_0000_0000_0000 ==> (bits - 0x8000_0000_0000_0000) as u64 == bits
        & 0x7FFF_FFFF_FFFF_FFFF) by (bit_vector);
    assert(bits < 0x8000_0000_0000_0000 ==> bits == bits & 0x7FFF_FFFF_FFFF_FFFF)
        by (bit_vector);
    let low: u64 = bits & 0x7FFF_FFFF_FFFF_FFFF;
    assert(low / 0x0010_0000_0000_0000 == (bits >> 52) & 0x7FF) by (bit_vector)
        requires
            low == bits & 0x7FFF_FFFF_FFFF_FFFF,
    ;
    assert(low % 0x0010_0000_0000_0000 == bits & 0x000F_FFFF_FFFF_FFFF) by (bit_vector)
        requires
            low == bits & 0x7FFF_FFFF_FFFF_FFFF,
    ;
}

/// The classes of patterns, told by their fields: a finite number has an
/// exponent field that is not all ones; with all ones the pattern is an
/// infinity if the fraction is zero and a NaN if it is not.
pub proof fn lemma_classes_by_fields(bits: u64)
    ensures
        0 <= exponent_field(bits) <= 0x7FF,
        0 <= fraction_field(bits) < HIDDEN_BIT,
        is_finite(bits) <==> exponent_field(bits) < 0x7FF,
        spec_is_nan(bits) <==> exponent_field(bits) == 0x7FF && fraction_field(bits) != 0,
        bits == POSITIVE_INFINITY || bits == NEGATIVE_INFINITY <==> exponent_field(bits) == 0x7FF
            && fraction_field(bits) == 0,
{
}

/// Among finite numbers a larger magnitude of the pattern is a larger
/// absolute value.
pub proof fn lemma_scaled_magnitude_increases(a: u64, b: u64)
    requires
        is_finite(a),
        is_finite(b),
        magnitude(a) < magnitude(b),
    ensures
        0 <= scaled_magnitude(a) < scaled_magnitude(b),
{
    let unit = HIDDEN_BIT as int;
    let (sig_a, sig_b) = (significand(a), significand(b));
    let (up_a, up_b) = (doublings(a), doublings(b));
    let (pow_a, pow_b) = (pow2(up_a) as int, pow2(up_b) as int);
    lemma_pow2_pos(up_a);
    lemma_pow2_pos(up_b);
    assert(0 <= sig_a * pow_a) by (nonlinear_arith)
        requires
            0 <= sig_a,
            0 < pow_a,
    ;
    if exponent_field(a) == exponent_field(b) {
        assert(sig_a * pow_a < sig_b * pow_a) by (nonlinear_arith)
            requires
                sig_a < sig_b,
                0 < pow_a,
        ;
    } else if exponent_field(a) == 0 {
        lemma2_to64();
        assert(sig_a * pow_a == sig_a) by (nonlinear_arith)
            requires
                pow_a == 1,
        ;
        assert(unit <= sig_b * pow_b) by (nonlinear_arith)
            requires
                0 <= unit <= sig_b,
                1 <= pow_b,
        ;
    } else {
        let next = pow2(up_a + 1) as int;
        lemma_pow2_unfold(up_a + 1);
        if up_a + 1 < up_b {
            lemma_pow2_strictly_increases(up_a + 1, up_b);
        }
        assert(sig_a * pow_a < sig_b * pow_b) by (nonlinear_arith)
            requires
                0 <= sig_a < 2 * unit,
                unit <= sig_b,
                0 < pow_a,
                next == 2 * pow_a,
                next <= pow_b,
        ;
    }
}

/// Only the two zeros encode the real number zero.
pub proof fn lemma_only_zero_is_zero(bits: u64)
    requires
        is_finite(bits),
    ensures
        0 <= scaled_magnitude(bits),
        scaled_magnitude(bits) == 0 <==> magnitude(bits) == 0,
        scaled_value(bits) == 0 <==> bits == POSITIVE_ZERO || bits == SIGN_BIT,
{
    if magnitude(bits) == 0 {
        let doubled = pow2(doublings(bits)) as int;
        assert(0 * doubled == 0) by (nonlinear_arith);
    } else {
        lemma_scaled_magnitude_increases(POSITIVE_ZERO, bits);
    }
}

/// The order of the keys is the order of the numbers: of two finite numbers
/// the one with the smaller key is the smaller real number, and equal keys
/// mean equal real numbers.
pub proof fn lemma_order_key_orders_values(a: u64, b: u64)
    requires
        is_finite(a),
        is_finite(b),
    ensures
        order_key(a) < order_key(b) <==> scaled_value(a) < scaled_value(b),
        order_key(a) == order_key(b) <==> scaled_value(a) == scaled_value(b),
{
    if magnitude(a) < magnitude(b) {
        lemma_scaled_magnitude_increases(a, b);
    } else if magnitude(b) < magnitude(a) {
        lemma_scaled_magnitude_increases(b, a);
    }
    lemma_only_zero_is_zero(a);
    lemma_only_zero_is_zero(b);
}

/// An infinity lies beyond every finite number, on its own side.
pub proof fn lemma_infinity_bounds_finite(a: u64)
    requires
        is_finite(a),
    ensures
        spec_less_than(a, POSITIVE_INFINITY),
        spec_less_than(NEGATIVE_INFINITY, a),
{
}

/// A pattern is positive exactly if it is positive infinity or encodes a real
/// number above zero.
pub proof fn lemma_positive_means_above_zero(bits: u64)
    ensures
        spec_is_positive(bits) <==> bits == POSITIVE_INFINITY || (is_finite(bits) && scaled_value(
            bits,
        ) > 0),
{
    if is_finite(bits) {
        lemma_only_zero_is_zero(bits);
    }
}

} // verus!
