//! IEEE-754 binary32 values handled as their 32-bit patterns.
//!
//! The engine never computes with floating-point hardware: a sample, a
//! temperature or a probability travels as the bit pattern of its binary32
//! encoding, and the two operations the lattice update needs (an exact uniform
//! sample in `[0, 1)` and the comparison `<`) are done on the patterns.
//! The meaning of a pattern is given by [`scaled_value`]: the encoded number
//! multiplied by 2^149, which is an integer for every finite pattern.

use vstd::arithmetic::power2::{
    lemma_pow2_pos,
    lemma_pow2_strictly_increases,
    lemma_pow2_unfold,
    pow2,
};
use vstd::prelude::*;

verus! {

/// The sign bit of a pattern.
pub const SIGN_BIT: u32 = 0x8000_0000;

/// Mask of the exponent and fraction fields.
pub const MAGNITUDE_MASK: u32 = 0x7FFF_FFFF;

/// Mask of the 23 fraction bits.
pub const FRACTION_MASK: u32 = 0x007F_FFFF;

/// The implicit leading bit of a normal number's significand, 2^23.
pub const HIDDEN_BIT: u32 = 0x0080_0000;

/// Pattern of positive infinity; every larger magnitude field is a NaN.
pub const INFINITY_BITS: u32 = 0x7F80_0000;

/// Pattern of 1.0.
pub const ONE_BITS: u32 = 0x3F80_0000;

/// Pattern of 0.5.
pub const HALF_BITS: u32 = 0x3F00_0000;

/// Pattern of -1.0.
pub const MINUS_ONE_BITS: u32 = 0xBF80_0000;

/// The pattern has its sign bit set.
pub open spec fn is_negative(bits: u32) -> bool {
    bits >= SIGN_BIT
}

/// The exponent and fraction fields of the pattern, as one 31-bit number.
pub open spec fn magnitude_bits(bits: u32) -> int {
    (bits % 0x8000_0000) as int
}

/// The biased exponent field, in `0..=255`.
pub open spec fn biased_exponent(bits: u32) -> int {
    magnitude_bits(bits) / 0x80_0000
}

/// The fraction field, in `0..2^23`.
pub open spec fn fraction(bits: u32) -> int {
    (bits % 0x80_0000) as int
}

/// The pattern encodes no number.
pub open spec fn is_nan(bits: u32) -> bool {
    magnitude_bits(bits) > INFINITY_BITS
}

/// The absolute value of the encoded number times 2^149. An infinity gets
/// 2^277, above every finite magnitude; on a NaN the result has no meaning.
pub open spec fn scaled_magnitude(bits: u32) -> int {
    if biased_exponent(bits) == 0 {
        fraction(bits)
    } else {
        (0x80_0000 + fraction(bits)) * pow2((biased_exponent(bits) - 1) as nat)
    }
}

/// The encoded number times 2^149.
pub open spec fn scaled_value(bits: u32) -> int {
    if is_negative(bits) {
        -scaled_magnitude(bits)
    } else {
        scaled_magnitude(bits)
    }
}

/// The comparison `a < b` of IEEE-754: false when either side is a NaN, and
/// the order of the encoded numbers otherwise (the two zeros are equal).
pub open spec fn less(a: u32, b: u32) -> bool {
    !is_nan(a) && !is_nan(b) && scaled_value(a) < scaled_value(b)
}

/// The pattern encodes `m / 2^23` exactly.
pub open spec fn encodes_unit_fraction(bits: u32, m: u32) -> bool {
    &&& bits < ONE_BITS
    &&& scaled_value(bits) == m * pow2(126)
}

/// The pattern of `m / 2^23`.
pub open spec fn unit_fraction_pattern(m: u32) -> u32 {
    choose|bits: u32| encodes_unit_fraction(bits, m)
}

/// Mask and shift read the fields that the model defines by division.
proof fn lemma_fields(bits: u32)
    ensures
        (bits & MAGNITUDE_MASK) == magnitude_bits(bits),
        (bits & FRACTION_MASK) == fraction(bits),
        (bits & MAGNITUDE_MASK) >> 23 == biased_exponent(bits),
        magnitude_bits(bits) == biased_exponent(bits) * 0x80_0000 + fraction(bits),
        0 <= biased_exponent(bits) <= 255,
        0 <= fraction(bits) < 0x80_0000,
{
    assert((bits & 0x7FFF_FFFF) == bits % 0x8000_0000) by (bit_vector);
    assert((bits & 0x007F_FFFF) == bits % 0x80_0000) by (bit_vector);
    assert((bits & 0x7FFF_FFFF) >> 23 == (bits % 0x8000_0000) / 0x80_0000) by (bit_vector);
    assert((bits % 0x8000_0000) % 0x80_0000 == bits % 0x80_0000) by (bit_vector);
}

/// Among patterns without sign, a larger exponent field means a larger number
/// whatever the fractions are.
proof fn lemma_exponent_dominates(ea: nat, fa: int, eb: nat, fb: int)
    requires
        ea < eb,
        0 <= fa < 0x80_0000,
        0 <= fb < 0x80_0000,
    ensures
        (if ea == 0 {
            fa
        } else {
            (0x80_0000 + fa) * pow2((ea - 1) as nat)
        }) < (0x80_0000 + fb) * pow2((eb - 1) as nat),
{
    let top = pow2((eb - 1) as nat);
    lemma_pow2_pos((eb - 1) as nat);
    assert(0x80_0000 * top <= (0x80_0000 + fb) * top) by (nonlinear_arith)
        requires
            0 <= fb,
            top > 0,
    ;
    if ea == 0 {
        assert(0x80_0000 * 1 <= 0x80_0000 * top) by (nonlinear_arith)
            requires
                top >= 1,
        ;
    } else {
        let low = pow2((ea - 1) as nat);
        lemma_pow2_pos((ea - 1) as nat);
        lemma_pow2_unfold(ea);
        if ea < eb - 1 {
            lemma_pow2_strictly_increases(ea, (eb - 1) as nat);
        }
        assert(pow2(ea) <= top);
        assert((0x80_0000 + fa) * low < 0x80_0000 * (2 * low)) by (nonlinear_arith)
            requires
                0 <= fa < 0x80_0000,
                low > 0,
        ;
        assert(0x80_0000 * pow2(ea) <= 0x80_0000 * top) by (nonlinear_arith)
            requires
                pow2(ea) <= top,
        ;
    }
}

/// Without the sign, the order of the patterns is the order of the numbers.
proof fn lemma_magnitude_increases(a: u32, b: u32)
    requires
        magnitude_bits(a) < magnitude_bits(b),
    ensures
        scaled_magnitude(a) < scaled_magnitude(b),
{
    lemma_fields(a);
    lemma_fields(b);
    let ea = biased_exponent(a);
    let eb = biased_exponent(b);
    let fa = fraction(a);
    let fb = fraction(b);
    if ea == eb {
        if ea != 0 {
            let scale = pow2((ea - 1) as nat);
            lemma_pow2_pos((ea - 1) as nat);
            assert((0x80_0000 + fa) * scale < (0x80_0000 + fb) * scale) by (nonlinear_arith)
                requires
                    fa < fb,
                    scale > 0,
            ;
        }
    } else {
        assert(ea < eb);
        lemma_exponent_dominates(ea as nat, fa, eb as nat, fb);
    }
}

/// Only the two zeros have magnitude zero.
proof fn lemma_magnitude_zero(a: u32)
    ensures
        scaled_magnitude(a) >= 0,
        scaled_magnitude(a) == 0 <==> magnitude_bits(a) == 0,
{
    lemma_fields(a);
    let e = biased_exponent(a);
    if e != 0 {
        let scale = pow2((e - 1) as nat);
        lemma_pow2_pos((e - 1) as nat);
        assert((0x80_0000 + fraction(a)) * scale > 0) by (nonlinear_arith)
            requires
                fraction(a) >= 0,
                scale > 0,
        ;
    }
}

/// Among patterns of numbers that are not negative, the order of the numbers
/// is the order of the patterns read as integers.
pub proof fn lemma_less_by_pattern(a: u32, b: u32)
    requires
        a <= INFINITY_BITS,
        b <= INFINITY_BITS,
    ensures
        less(a, b) <==> a < b,
{
    lemma_fields(a);
    lemma_fields(b);
    if magnitude_bits(a) < magnitude_bits(b) {
        lemma_magnitude_increases(a, b);
    }
    if magnitude_bits(b) < magnitude_bits(a) {
        lemma_magnitude_increases(b, a);
    }
}

/// A sample of `[0, 1)` is below one half exactly when its 23-bit numerator
/// is below 2^22.
pub proof fn lemma_unit_fraction_below_half(m: u32)
    requires
        m < HIDDEN_BIT,
    ensures
        less(unit_fraction_pattern(m), HALF_BITS) <==> m < 0x40_0000,
        unit_fraction_pattern(m) < HALF_BITS <==> m < 0x40_0000,
        unit_fraction_pattern(m) < ONE_BITS,
{
    let bits = unit_fraction_pattern(m);
    lemma_unit_fraction_exists(m);
    lemma_less_by_pattern(bits, HALF_BITS);
    lemma_fields(HALF_BITS);
    assert(biased_exponent(HALF_BITS) == 126);
    assert(fraction(HALF_BITS) == 0);
    lemma_pow2_unfold(126);
    let unit = pow2(125);
    lemma_pow2_pos(125);
    assert(scaled_value(HALF_BITS) == 0x80_0000 * unit);
    assert(scaled_value(bits) == m * (2 * unit));
    assert(m * (2 * unit) < 0x80_0000 * unit <==> m < 0x40_0000) by (nonlinear_arith)
        requires
            unit > 0,
    ;
}

/// Every 23-bit numerator has a pattern.
pub proof fn lemma_unit_fraction_exists(m: u32)
    requires
        m < HIDDEN_BIT,
    ensures
        encodes_unit_fraction(unit_fraction_pattern(m), m),
{
    if m == 0 {
        lemma_fields(0);
        assert(encodes_unit_fraction(0, m));
    } else {
        let shift = choose_shift(m, 127);
        assert(pow2(0) == 1) by {
            vstd::arithmetic::power2::lemma2_to64();
        }
        lemma_shift(m, 127, m);
        let exponent = shift.0;
        let significand = shift.1;
        let bits = (exponent * 0x80_0000 + (significand - 0x80_0000)) as u32;
        lemma_fields(bits);
        assert(encodes_unit_fraction(bits, m));
    }
}

/// The exponent and significand that doubling a significand below 2^23 ends
/// with.
spec fn choose_shift(significand: u32, exponent: u32) -> (u32, u32)
    decreases exponent,
{
    if significand >= HIDDEN_BIT || exponent == 0 || significand == 0 {
        (exponent, significand)
    } else {
        choose_shift((significand * 2) as u32, (exponent - 1) as u32)
    }
}

/// Doubling ends with a normal significand, an exponent that leaves the
/// number below one, and the same number.
proof fn lemma_shift(significand: u32, exponent: u32, m: u32)
    requires
        104 <= exponent <= 127,
        1 <= significand < 0x100_0000,
        exponent == 127 ==> significand < HIDDEN_BIT,
        significand >= pow2((127 - exponent) as nat),
        significand * pow2((exponent - 1) as nat) == m * pow2(126),
    ensures
        104 <= choose_shift(significand, exponent).0 <= 126,
        HIDDEN_BIT <= choose_shift(significand, exponent).1 < 0x100_0000,
        choose_shift(significand, exponent).1 * pow2(
            (choose_shift(significand, exponent).0 - 1) as nat,
        ) == m * pow2(126),
    decreases exponent,
{
    if significand < HIDDEN_BIT {
        lemma_normalise_step(significand, exponent);
        lemma_shift((significand * 2) as u32, (exponent - 1) as u32, m);
    }
}

/// The IEEE-754 comparison `a < b`, decided on the patterns.
pub fn less_than(a: u32, b: u32) -> (r: bool)
    ensures
        r == less(a, b),
{
    let a_magnitude: u32 = a & MAGNITUDE_MASK;
    let b_magnitude: u32 = b & MAGNITUDE_MASK;
    proof {
        lemma_fields(a);
        lemma_fields(b);
        lemma_magnitude_zero(a);
        lemma_magnitude_zero(b);
        if magnitude_bits(a) < magnitude_bits(b) {
            lemma_magnitude_increases(a, b);
        }
        if magnitude_bits(b) < magnitude_bits(a) {
            lemma_magnitude_increases(b, a);
        }
        if magnitude_bits(a) == magnitude_bits(b) {
            assert(biased_exponent(a) == biased_exponent(b));
            assert(fraction(a) == fraction(b));
        }
    }
    if a_magnitude > INFINITY_BITS || b_magnitude > INFINITY_BITS {
        false
    } else if a >= SIGN_BIT {
        if b >= SIGN_BIT {
            a_magnitude > b_magnitude
        } else {
            a_magnitude != 0 || b_magnitude != 0
        }
    } else {
        if b >= SIGN_BIT {
            false
        } else {
            a_magnitude < b_magnitude
        }
    }
}

/// The pattern of `m / 2^23` for a 23-bit `m`: the number in `[0, 1)` that
/// subtracting 1.0 from the pattern `ONE_BITS | m` gives, which is exact.
pub fn unit_fraction_bits(m: u32) -> (bits: u32)
    requires
        m < HIDDEN_BIT,
    ensures
        bits == unit_fraction_pattern(m),
        encodes_unit_fraction(bits, m),
        bits == 0 <==> m == 0,
{
    if m == 0 {
        proof {
            lemma_fields(0);
            lemma_unit_fraction_unique(0, m);
        }
        return 0;
    }
    let mut significand: u32 = m;
    let mut exponent: u32 = 127;
    proof {
        assert(pow2(0) == 1) by {
            vstd::arithmetic::power2::lemma2_to64();
        }
    }
    while significand < HIDDEN_BIT
        invariant
            104 <= exponent <= 127,
            1 <= significand < 0x100_0000,
            exponent == 127 ==> significand < HIDDEN_BIT,
            significand >= pow2((127 - exponent) as nat),
            significand * pow2((exponent - 1) as nat) == m * pow2(126),
        decreases exponent,
    {
        proof {
            lemma_normalise_step(significand, exponent);
        }
        significand = significand * 2;
        exponent = exponent - 1;
    }
    let bits: u32 = (exponent << 23) | (significand & FRACTION_MASK);
    proof {
        lemma_assemble(exponent, significand);
        lemma_fields(bits);
        lemma_unit_fraction_unique(bits, m);
    }
    bits
}

/// At most one pattern encodes a given multiple of 2^-23.
pub proof fn lemma_unit_fraction_unique(bits: u32, m: u32)
    requires
        encodes_unit_fraction(bits, m),
    ensures
        bits == unit_fraction_pattern(m),
{
    let other = unit_fraction_pattern(m);
    assert(encodes_unit_fraction(other, m));
    lemma_fields(bits);
    lemma_fields(other);
    if magnitude_bits(bits) < magnitude_bits(other) {
        lemma_magnitude_increases(bits, other);
    }
    if magnitude_bits(other) < magnitude_bits(bits) {
        lemma_magnitude_increases(other, bits);
    }
}

/// One doubling of a significand below 2^23 keeps the encoded number and
/// leaves room in the exponent.
proof fn lemma_normalise_step(significand: u32, exponent: u32)
    requires
        104 <= exponent <= 127,
        1 <= significand < HIDDEN_BIT,
        significand >= pow2((127 - exponent) as nat),
    ensures
        exponent > 104,
        significand * 2 >= pow2((128 - exponent) as nat),
        (significand * 2) * pow2((exponent - 2) as nat) == significand * pow2(
            (exponent - 1) as nat,
        ),
{
    assert(exponent > 104) by {
        vstd::arithmetic::power2::lemma2_to64();
        assert(pow2(23) == 0x80_0000);
    }
    lemma_pow2_unfold((128 - exponent) as nat);
    lemma_pow2_unfold((exponent - 1) as nat);
    let scale = pow2((exponent - 2) as nat);
    assert((significand * 2) * scale == significand * (2 * scale)) by (nonlinear_arith);
}

/// Shifting the exponent into place and masking the hidden bit away gives the
/// pattern with these two fields.
proof fn lemma_assemble(exponent: u32, significand: u32)
    requires
        104 <= exponent <= 127,
        HIDDEN_BIT <= significand < 0x100_0000,
    ensures
        ((exponent << 23) | (significand & FRACTION_MASK)) == exponent * 0x80_0000 + (significand
            - 0x80_0000),
{
    assert(((exponent << 23) | (significand & 0x007F_FFFF)) == exponent * 0x80_0000 + (significand
        - 0x80_0000)) by (bit_vector)
        requires
            104 <= exponent <= 127,
            0x0080_0000 <= significand < 0x100_0000,
    ;
}

} // verus!
