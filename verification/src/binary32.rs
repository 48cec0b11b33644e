//! Single-precision floating-point values, handled as their 32-bit patterns.
//!
//! A pattern is laid out as one sign bit, eight exponent bits and twenty-three
//! fraction bits, from the most significant bit down.

use vstd::arithmetic::power2::{
    lemma2_to64, lemma_pow2_adds, lemma_pow2_pos, lemma_pow2_strictly_increases,
    lemma_pow2_unfold, pow2,
};
use vstd::prelude::*;

verus! {

/// The pattern of `0.0`.
pub const ZERO: u32 = 0x0000_0000;

/// The pattern of `0.5`.
pub const HALF: u32 = 0x3f00_0000;

/// The pattern of `1.0`.
pub const ONE: u32 = 0x3f80_0000;

/// The sign bit: `1` for a negative pattern, `0` otherwise.
pub open spec fn sign_bit(bits: u32) -> int {
    bits as int / 0x8000_0000
}

/// The eight exponent bits, as a number in `0..=255`.
pub open spec fn exponent_field(bits: u32) -> int {
    (bits as int / 0x80_0000) % 0x100
}

/// The twenty-three fraction bits, as a number below `2^23`.
pub open spec fn fraction_field(bits: u32) -> int {
    bits as int % 0x80_0000
}

/// Everything but the sign bit.
pub open spec fn magnitude(bits: u32) -> int {
    bits as int % 0x8000_0000
}

/// A pattern is not a number when its exponent bits are all set and its
/// fraction is not zero.
pub open spec fn is_nan(bits: u32) -> bool {
    exponent_field(bits) == 0xff && fraction_field(bits) != 0
}

/// Where a pattern that is a number lies on the number line, as an integer
/// that grows with the value. Both zeros lie at `0`.
pub open spec fn ordinal(bits: u32) -> int {
    if sign_bit(bits) == 1 {
        -magnitude(bits)
    } else {
        magnitude(bits)
    }
}

/// The value of `a` is strictly greater than the value of `b`. A pattern
/// that is not a number is greater than nothing, and nothing is greater
/// than it.
pub open spec fn strictly_above(a: u32, b: u32) -> bool {
    &&& !is_nan(a)
    &&& !is_nan(b)
    &&& ordinal(a) > ordinal(b)
}

/// The value of `a` is less than or equal to the value of `b`. False as soon
/// as either pattern is not a number.
pub open spec fn at_or_below(a: u32, b: u32) -> bool {
    &&& !is_nan(a)
    &&& !is_nan(b)
    &&& ordinal(a) <= ordinal(b)
}

/// Among numbers, "not strictly above" and "at or below" are the same thing.
pub proof fn lemma_not_above_is_at_or_below(a: u32, b: u32)
    requires
        !is_nan(a),
        !is_nan(b),
    ensures
        !strictly_above(a, b) <==> at_or_below(a, b),
{
}

/// Tells whether a pattern is not a number.
pub fn nan(bits: u32) -> (r: bool)
    ensures
        r == is_nan(bits),
{
    let m: u32 = bits & 0x7fff_ffff;
    assert(m == bits % 0x8000_0000) by (bit_vector)
        requires
            m == bits & 0x7fff_ffff,
    ;
    m > 0x7f80_0000
}

/// Strict "greater than" on the values of two patterns.
pub fn gt(a: u32, b: u32) -> (r: bool)
    ensures
        r == strictly_above(a, b),
{
    if nan(a) || nan(b) {
        return false;
    }
    let ma: u32 = a & 0x7fff_ffff;
    let mb: u32 = b & 0x7fff_ffff;
    assert(ma == a % 0x8000_0000) by (bit_vector)
        requires
            ma == a & 0x7fff_ffff,
    ;
    assert(mb == b % 0x8000_0000) by (bit_vector)
        requires
            mb == b & 0x7fff_ffff,
    ;
    let a_negative: bool = a >= 0x8000_0000;
    let b_negative: bool = b >= 0x8000_0000;
    if a_negative {
        if b_negative {
            ma < mb
        } else {
            false
        }
    } else {
        if b_negative {
            ma > 0 || mb > 0
        } else {
            ma > mb
        }
    }
}

/// The three integers that a pattern decodes to: mantissa, exponent and
/// sign, in this order. For a finite pattern the value is
/// `sign * mantissa * 2^exponent`.
pub open spec fn decoded(bits: u32) -> (int, int, int) {
    let mantissa = if exponent_field(bits) == 0 {
        2 * fraction_field(bits)
    } else {
        fraction_field(bits) + 0x80_0000
    };
    let sign = if sign_bit(bits) == 0 {
        1int
    } else {
        -1int
    };
    (mantissa, exponent_field(bits) - 150, sign)
}

/// Splits a pattern into mantissa, exponent and sign.
pub fn integer_decode(bits: u32) -> (r: (u32, i16, i8))
    ensures
        (r.0 as int, r.1 as int, r.2 as int) == decoded(bits),
{
    let sign: i8 = if bits >> 31 == 0 {
        1
    } else {
        -1
    };
    let field: u32 = (bits >> 23) & 0xff;
    let fraction: u32 = bits & 0x7f_ffff;
    assert(bits >> 31 == bits / 0x8000_0000) by (bit_vector);
    assert(field == (bits / 0x80_0000) % 0x100) by (bit_vector)
        requires
            field == (bits >> 23) & 0xff,
    ;
    assert(fraction == bits % 0x80_0000) by (bit_vector)
        requires
            fraction == bits & 0x7f_ffff,
    ;
    let mantissa: u32 = if field == 0 {
        assert(fraction << 1 == 2 * fraction) by (bit_vector)
            requires
                fraction < 0x80_0000,
        ;
        fraction << 1
    } else {
        assert(fraction | 0x80_0000 == fraction + 0x80_0000) by (bit_vector)
            requires
                fraction < 0x80_0000,
        ;
        fraction | 0x80_0000
    };
    let exponent: i16 = field as i16 - 150;
    (mantissa, exponent, sign)
}

/// Two patterns decode to the same three integers only if they are the same
/// pattern: decoding loses nothing, not even the sign of a zero.
pub proof fn lemma_decoded_injective(a: u32, b: u32)
    requires
        decoded(a) == decoded(b),
    ensures
        a == b,
{
    assert(a as int == sign_bit(a) * 0x8000_0000 + exponent_field(a) * 0x80_0000 + fraction_field(a));
    assert(b as int == sign_bit(b) * 0x8000_0000 + exponent_field(b) * 0x80_0000 + fraction_field(b));
}

/// The value of a pattern that is a number, multiplied by `2^150` so that it
/// is an integer: `sign * mantissa * 2^(exponent + 150)`. An infinity counts
/// as `2^128` with its sign.
pub open spec fn scaled_value(bits: u32) -> int {
    decoded(bits).2 * (decoded(bits).0 * pow2((decoded(bits).1 + 150) as nat))
}

/// Without their signs, a pattern with more magnitude has the greater value.
proof fn lemma_magnitude_grows_with_value(a: u32, b: u32)
    requires
        magnitude(a) < magnitude(b),
    ensures
        decoded(a).0 * pow2((decoded(a).1 + 150) as nat) < decoded(b).0 * pow2(
            (decoded(b).1 + 150) as nat,
        ),
{
    let ea = exponent_field(a) as nat;
    let eb = exponent_field(b) as nat;
    let ma = decoded(a).0;
    let mb = decoded(b).0;
    let pa = pow2(ea) as int;
    let pb = pow2(eb) as int;
    lemma_pow2_pos(ea);
    lemma_pow2_pos(eb);
    assert(magnitude(a) == ea * 0x80_0000 + fraction_field(a));
    assert(magnitude(b) == eb * 0x80_0000 + fraction_field(b));
    if ea == eb {
        assert(ma < mb);
        assert(ma * pa < mb * pa) by (nonlinear_arith)
            requires
                ma < mb,
                pa > 0,
        ;
    } else {
        assert(ea < eb);
        lemma_pow2_unfold(ea + 1);
        if ea + 1 < eb {
            lemma_pow2_strictly_increases(ea + 1, eb);
        }
        assert(pb >= 2 * pa);
        assert(ma * pa < 0x100_0000 * pa) by (nonlinear_arith)
            requires
                0 <= ma < 0x100_0000,
                pa > 0,
        ;
        assert(mb * pb >= 0x80_0000 * pb) by (nonlinear_arith)
            requires
                mb >= 0x80_0000,
                pb > 0,
        ;
    }
}

/// The order of patterns is the order of their values: among numbers, `a` is
/// strictly above `b` exactly when the value of `a` is greater.
pub proof fn lemma_order_is_by_value(a: u32, b: u32)
    requires
        !is_nan(a),
        !is_nan(b),
    ensures
        strictly_above(a, b) <==> scaled_value(a) > scaled_value(b),
        ordinal(a) == ordinal(b) <==> scaled_value(a) == scaled_value(b),
{
    let va = decoded(a).0 * pow2((decoded(a).1 + 150) as nat);
    let vb = decoded(b).0 * pow2((decoded(b).1 + 150) as nat);
    assert(decoded(ZERO) == (0int, -150int, 1int));
    assert(magnitude(ZERO) == 0);
    if magnitude(a) < magnitude(b) {
        lemma_magnitude_grows_with_value(a, b);
    }
    if magnitude(b) < magnitude(a) {
        lemma_magnitude_grows_with_value(b, a);
    }
    if magnitude(a) == magnitude(b) {
        assert(exponent_field(a) == exponent_field(b));
        assert(fraction_field(a) == fraction_field(b));
    }
    if magnitude(a) > 0 {
        lemma_magnitude_grows_with_value(ZERO, a);
    } else {
        assert(va == 0) by (nonlinear_arith)
            requires
                va == decoded(a).0 * pow2((decoded(a).1 + 150) as nat),
                decoded(a).0 == 0,
        ;
    }
    if magnitude(b) > 0 {
        lemma_magnitude_grows_with_value(ZERO, b);
    } else {
        assert(vb == 0) by (nonlinear_arith)
            requires
                vb == decoded(b).0 * pow2((decoded(b).1 + 150) as nat),
                decoded(b).0 == 0,
        ;
    }
    assert(scaled_value(a) == decoded(a).2 * va);
    assert(scaled_value(b) == decoded(b).2 * vb);
}

/// The three named patterns stand for the values `0`, `1/2` and `1`.
pub proof fn lemma_zero_half_one()
    ensures
        scaled_value(ZERO) == 0,
        2 * scaled_value(HALF) == scaled_value(ONE),
        scaled_value(ONE) == pow2(150),
{
    lemma2_to64();
    lemma_pow2_unfold(127);
    lemma_pow2_adds(23, 126);
    lemma_pow2_adds(23, 127);
    assert(decoded(ONE) == (0x80_0000int, -23int, 1int));
    assert(decoded(HALF) == (0x80_0000int, -24int, 1int));
    assert(decoded(ZERO) == (0int, -150int, 1int));
    assert(scaled_value(ZERO) == 1 * (0 * pow2(0)));
    assert(pow2(23) == 0x80_0000);
}

} // verus!
