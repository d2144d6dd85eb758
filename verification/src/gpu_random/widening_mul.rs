use vstd::prelude::*;

verus! {

/// Low 32 bits of the exact product of `a` and `b`.
pub open spec fn product_low(a: u32, b: u32) -> int {
    (a * b) % 0x1_0000_0000
}

/// High 32 bits of the exact product of `a` and `b`.
pub open spec fn product_high(a: u32, b: u32) -> int {
    (a * b) / 0x1_0000_0000
}

/// Splitting a 32-bit word into 16-bit halves by mask and shift is division
/// with remainder by 2^16.
proof fn lemma_halves(x: u32)
    ensures
        (x & 0xFFFF) == x % 0x1_0000,
        (x >> 16) == x / 0x1_0000,
        (x & 0xFFFF) < 0x1_0000,
        (x >> 16) < 0x1_0000,
{
    assert((x & 0xFFFF) == x % 0x1_0000) by (bit_vector);
    assert((x >> 16) == x / 0x1_0000) by (bit_vector);
    assert((x & 0xFFFF) < 0x1_0000) by (bit_vector);
    assert((x >> 16) < 0x1_0000) by (bit_vector);
}

/// Joining two 16-bit halves by shift and or is `high * 2^16 + low`.
proof fn lemma_join(high: u32, low: u32)
    requires
        high < 0x1_0000,
        low < 0x1_0000,
    ensures
        ((high << 16) | low) == high * 0x1_0000 + low,
{
    assert(((high << 16) | low) == high * 0x1_0000 + low) by (bit_vector)
        requires
            high < 0x1_0000,
            low < 0x1_0000,
    ;
}

/// The product of two 16-bit values fits in 32 bits.
proof fn lemma_partial_product(x: u32, y: u32)
    requires
        x < 0x1_0000,
        y < 0x1_0000,
    ensures
        0 <= x * y <= 0xFFFE_0001,
{
    assert(0 <= x * y <= 0xFFFF * 0xFFFF) by (nonlinear_arith)
        requires
            0 <= x <= 0xFFFF,
            0 <= y <= 0xFFFF,
    ;
}

/// The schoolbook expansion of a product over 16-bit halves.
proof fn lemma_schoolbook(a0: int, a1: int, b0: int, b1: int)
    ensures
        (a1 * 0x1_0000 + a0) * (b1 * 0x1_0000 + b0) == (a1 * b1) * 0x1_0000_0000 + (a0 * b1 + a1
            * b0) * 0x1_0000 + a0 * b0,
{
    assert((a1 * 0x1_0000 + a0) * (b1 * 0x1_0000 + b0) == (a1 * b1) * 0x1_0000_0000 + (a0 * b1 + a1
        * b0) * 0x1_0000 + a0 * b0) by (nonlinear_arith);
}

/// The full 64-bit product of two 32-bit words as a `(low, high)` pair,
/// computed in 32-bit lanes only, for targets without 64-bit integers.
pub fn widening_mul_u32(a: u32, b: u32) -> (r: (u32, u32))
    ensures
        r.0 + r.1 * 0x1_0000_0000 == a * b,
        r.0 == product_low(a, b),
        r.1 == product_high(a, b),
{
    let a0: u32 = a & 0xFFFF;
    let a1: u32 = a >> 16;
    let b0: u32 = b & 0xFFFF;
    let b1: u32 = b >> 16;
    proof {
        lemma_halves(a);
        lemma_halves(b);
        lemma_partial_product(a0, b0);
        lemma_partial_product(a0, b1);
        lemma_partial_product(a1, b0);
        lemma_partial_product(a1, b1);
    }

    let low_low: u32 = a0 * b0;
    let low_high: u32 = a0 * b1;
    let high_low: u32 = a1 * b0;
    let high_high: u32 = a1 * b1;
    proof {
        lemma_halves(low_low);
        lemma_halves(low_high);
        lemma_halves(high_low);
    }

    let lo_low16: u32 = low_low & 0xFFFF;
    let carry_mid: u32 = (low_low >> 16) + (low_high & 0xFFFF) + (high_low & 0xFFFF);
    proof {
        lemma_halves(carry_mid);
    }
    let lo_high16: u32 = carry_mid & 0xFFFF;
    let carry_hi: u32 = carry_mid >> 16;

    let lo: u32 = (lo_high16 << 16) | lo_low16;
    proof {
        lemma_join(lo_high16, lo_low16);
        lemma_schoolbook(a0 as int, a1 as int, b0 as int, b1 as int);
        let high: int = (low_high >> 16) + (high_low >> 16) + high_high + carry_hi;
        assert(lo + high * 0x1_0000_0000 == a * b);
        assert(a * b <= 0xFFFF_FFFF * 0xFFFF_FFFF) by (nonlinear_arith)
            requires
                0 <= a <= 0xFFFF_FFFF,
                0 <= b <= 0xFFFF_FFFF,
        ;
        assert(high <= 0xFFFF_FFFF);
    }
    let hi: u32 = (low_high >> 16) + (high_low >> 16) + high_high + carry_hi;
    (lo, hi)
}

} // verus!
