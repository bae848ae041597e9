//! Reading single-precision values from their bit patterns.
//!
//! A colour conversion hands its results over as 32-bit patterns: one sign
//! bit, eight exponent bits, twenty-three fraction bits. This module says what
//! number such a pattern stands for and decides, on the pattern alone, whether
//! one value is less than another and what whole number a value truncates to.

use vstd::prelude::*;
use vstd::arithmetic::power2::{
    pow2,
    lemma2_to64,
    lemma_pow2_adds,
    lemma_pow2_pos,
    lemma_pow2_strictly_increases,
    lemma_pow2_unfold,
};
use vstd::arithmetic::div_mod::{lemma_fundamental_div_mod, lemma_fundamental_div_mod_converse};

verus! {

/// Number of patterns per sign: two to the power of 31.
pub const SIGN_BIT: u32 = 0x8000_0000;

/// Number of fraction patterns per exponent: two to the power of 23.
pub const FRACTION_RANGE: u32 = 0x80_0000;

/// The exponent field of patterns that stand for no finite number.
pub const EXPONENT_SPECIAL: u32 = 255;

/// Whether the sign bit of the pattern is set.
pub open spec fn sign_negative(bits: u32) -> bool {
    bits >= SIGN_BIT
}

/// The eight exponent bits of the pattern.
pub open spec fn exponent_field(bits: u32) -> nat {
    ((bits / FRACTION_RANGE) % 256) as nat
}

/// The twenty-three fraction bits of the pattern.
pub open spec fn fraction_field(bits: u32) -> nat {
    (bits % FRACTION_RANGE) as nat
}

/// Whether the pattern stands for no number at all.
pub open spec fn is_nan(bits: u32) -> bool {
    exponent_field(bits) == EXPONENT_SPECIAL && fraction_field(bits) != 0
}

/// The digits of the magnitude: the fraction, with a leading one unless the
/// exponent field is zero.
pub open spec fn significand(bits: u32) -> nat {
    if exponent_field(bits) == 0 {
        fraction_field(bits)
    } else {
        FRACTION_RANGE as nat + fraction_field(bits)
    }
}

/// The power of two by which the significand is scaled, counted from the
/// smallest one a pattern can have.
pub open spec fn scale(bits: u32) -> nat {
    if exponent_field(bits) == 0 {
        0
    } else {
        (exponent_field(bits) - 1) as nat
    }
}

/// The magnitude of the value times two to the power of 149, which makes it a
/// whole number for every pattern. An infinity comes out above every finite
/// value.
pub open spec fn scaled_magnitude(bits: u32) -> nat {
    significand(bits) * pow2(scale(bits))
}

/// The value times two to the power of 149.
pub open spec fn scaled_value(bits: u32) -> int {
    if sign_negative(bits) {
        -(scaled_magnitude(bits) as int)
    } else {
        scaled_magnitude(bits) as int
    }
}

/// Whether the value of `a` is less than the value of `b`. Nothing is less
/// than, or greater than, a pattern that stands for no number.
pub open spec fn spec_less_than(a: u32, b: u32) -> bool {
    !is_nan(a) && !is_nan(b) && scaled_value(a) < scaled_value(b)
}

/// The whole number that the value truncates to in 64 bits without sign:
/// its whole part, zero for negative values and for patterns that stand for
/// no number, and the largest 64-bit number for anything above it.
pub open spec fn spec_truncate(bits: u32) -> nat {
    if is_nan(bits) || sign_negative(bits) {
        0
    } else if scaled_magnitude(bits) / pow2(149) > u64::MAX {
        u64::MAX as nat
    } else {
        scaled_magnitude(bits) / pow2(149)
    }
}

/// The pattern without its sign bit.
pub open spec fn magnitude_bits(bits: u32) -> nat {
    (bits % SIGN_BIT) as nat
}

/// Among patterns of one sign, the greater pattern has the greater magnitude.
proof fn lemma_magnitude_increases(a: u32, b: u32)
    requires
        magnitude_bits(a) < magnitude_bits(b),
    ensures
        scaled_magnitude(a) < scaled_magnitude(b),
{
    let ea = exponent_field(a);
    let eb = exponent_field(b);
    let sa = significand(a);
    let sb = significand(b);
    let pa = pow2(scale(a));
    let pb = pow2(scale(b));
    lemma_pow2_pos(scale(a));
    lemma_pow2_pos(scale(b));
    if ea == eb {
        // Equal scales: the fractions decide.
        assert(sa * pa < sb * pa) by (nonlinear_arith)
            requires
                sa < sb,
                pa > 0,
        ;
    } else if ea == 0 {
        // Below the smallest value with a leading one.
        lemma2_to64();
        assert(sa * pa == sa) by (nonlinear_arith)
            requires
                pa == 1,
        ;
        assert(sb * pb >= sb) by (nonlinear_arith)
            requires
                pb >= 1,
                sb >= 0,
        ;
    } else {
        // Less than twice the leading one of `a`, which the leading one of
        // `b` reaches.
        lemma_pow2_unfold(ea);
        if ea < eb - 1 {
            lemma_pow2_strictly_increases(ea, (eb - 1) as nat);
        }
        assert(sa * pa < 0x100_0000 * pa) by (nonlinear_arith)
            requires
                sa < 0x100_0000,
                pa > 0,
        ;
        assert(0x80_0000 * pb <= sb * pb) by (nonlinear_arith)
            requires
                0x80_0000 <= sb,
                pb > 0,
        ;
        assert(0x80_0000 * (2 * pa) <= 0x80_0000 * pb) by (nonlinear_arith)
            requires
                2 * pa <= pb,
        ;
    }
}

/// Only the two zero patterns have magnitude zero.
proof fn lemma_magnitude_zero(a: u32)
    ensures
        scaled_magnitude(a) == 0 <==> magnitude_bits(a) == 0,
{
    let s = significand(a);
    let p = pow2(scale(a));
    lemma_pow2_pos(scale(a));
    if magnitude_bits(a) != 0 {
        assert(s * p > 0) by (nonlinear_arith)
            requires
                s > 0,
                p > 0,
        ;
    } else {
        assert(s == 0);
    }
}

/// Patterns that differ at most in their sign have the same magnitude.
proof fn lemma_magnitude_equal(a: u32, b: u32)
    requires
        magnitude_bits(a) == magnitude_bits(b),
    ensures
        scaled_magnitude(a) == scaled_magnitude(b),
{
    assert(exponent_field(a) == exponent_field(b));
    assert(fraction_field(a) == fraction_field(b));
}

/// Whether the pattern stands for no number at all.
pub fn nan(bits: u32) -> (r: bool)
    ensures
        r == is_nan(bits),
{
    (bits / FRACTION_RANGE) % 256 == EXPONENT_SPECIAL && bits % FRACTION_RANGE != 0
}

/// Whether the value of `a` is less than the value of `b`, as the comparison
/// of the two numbers would say.
pub fn less_than(a: u32, b: u32) -> (r: bool)
    ensures
        r == spec_less_than(a, b),
{
    if nan(a) || nan(b) {
        return false;
    }
    let a_magnitude: u32 = a % SIGN_BIT;
    let b_magnitude: u32 = b % SIGN_BIT;
    proof {
        lemma_magnitude_zero(a);
        lemma_magnitude_zero(b);
        if a_magnitude < b_magnitude {
            lemma_magnitude_increases(a, b);
        } else if b_magnitude < a_magnitude {
            lemma_magnitude_increases(b, a);
        } else {
            lemma_magnitude_equal(a, b);
        }
    }
    if a < SIGN_BIT {
        if b < SIGN_BIT {
            a_magnitude < b_magnitude
        } else {
            false
        }
    } else {
        if b < SIGN_BIT {
            a_magnitude != 0 || b_magnitude != 0
        } else {
            b_magnitude < a_magnitude
        }
    }
}

/// Two to the power of `e`.
fn power_of_two(e: u32) -> (p: u64)
    requires
        e < 64,
    ensures
        p == pow2(e as nat),
{
    let mut p: u64 = 1;
    let mut i: u32 = 0;
    proof {
        lemma2_to64();
    }
    while i < e
        invariant
            i <= e,
            e < 64,
            p == pow2(i as nat),
        decreases e - i,
    {
        proof {
            lemma_pow2_unfold((i + 1) as nat);
            lemma_pow2_strictly_increases((i + 1) as nat, 64);
            lemma2_to64();
        }
        p = p * 2;
        i = i + 1;
    }
    p
}

/// The whole number that the value truncates to, as a cast of the number to
/// an unsigned 64-bit integer would give it.
pub fn truncate(bits: u32) -> (n: u64)
    ensures
        n == spec_truncate(bits),
{
    let exponent: u32 = (bits / FRACTION_RANGE) % 256;
    let fraction: u32 = bits % FRACTION_RANGE;
    if bits >= SIGN_BIT || (exponent == EXPONENT_SPECIAL && fraction != 0) {
        return 0;
    }
    let ghost unit = pow2(149);
    let ghost magnitude = scaled_magnitude(bits);
    proof {
        lemma_pow2_pos(149);
        lemma2_to64();
    }
    if exponent < 127 {
        // Less than one.
        proof {
            if exponent == 0 {
                assert(magnitude == fraction * 1);
                lemma_pow2_strictly_increases(23, 149);
            } else {
                let p = pow2((exponent - 1) as nat);
                lemma_pow2_pos((exponent - 1) as nat);
                lemma_pow2_adds(24, (exponent - 1) as nat);
                if exponent < 126 {
                    lemma_pow2_strictly_increases((23 + exponent) as nat, 149);
                }
                assert(magnitude < 0x100_0000 * p) by (nonlinear_arith)
                    requires
                        magnitude == (0x80_0000 + fraction) * p,
                        fraction < 0x80_0000,
                        p > 0,
                ;
            }
            lemma_fundamental_div_mod_converse(magnitude as int, unit as int, 0, magnitude as int);
        }
        0
    } else if exponent <= 150 {
        // At least one, with digits behind the point to drop.
        let significand: u64 = 0x80_0000 + fraction as u64;
        let divisor: u64 = power_of_two(150 - exponent);
        let quotient: u64 = significand / divisor;
        proof {
            let p = pow2((exponent - 1) as nat);
            let d = divisor as nat;
            lemma_pow2_adds((exponent - 1) as nat, (150 - exponent) as nat);
            lemma_pow2_pos((exponent - 1) as nat);
            let r = (significand % divisor) as nat;
            assert(significand == quotient * d + r) by {
                lemma_fundamental_div_mod(significand as int, divisor as int);
            }
            assert(magnitude == quotient * unit + r * p && r * p < unit) by (nonlinear_arith)
                requires
                    magnitude == significand * p,
                    significand == quotient * d + r,
                    unit == p * d,
                    r < d,
                    p > 0,
            ;
            lemma_fundamental_div_mod_converse(
                magnitude as int,
                unit as int,
                quotient as int,
                (r * p) as int,
            );
        }
        quotient
    } else if exponent < 191 {
        // A whole number that 64 bits hold.
        let significand: u64 = 0x80_0000 + fraction as u64;
        let factor: u64 = power_of_two(exponent - 150);
        proof {
            lemma_pow2_adds((exponent - 150) as nat, 149);
            if exponent < 190 {
                lemma_pow2_strictly_increases((exponent - 150) as nat, 40);
            }
            assert(pow2(40) == 0x100_0000_0000) by {
                lemma_pow2_adds(32, 8);
            }
            assert(significand * factor <= 0xff_ffff * 0x100_0000_0000) by (nonlinear_arith)
                requires
                    significand <= 0xff_ffff,
                    factor <= 0x100_0000_0000,
            ;
            assert(magnitude == (significand * factor) * unit) by (nonlinear_arith)
                requires
                    magnitude == significand * pow2((exponent - 1) as nat),
                    pow2((exponent - 1) as nat) == factor * unit,
            ;
            lemma_fundamental_div_mod_converse(
                magnitude as int,
                unit as int,
                significand * factor,
                0,
            );
        }
        significand * factor
    } else {
        // Too large for 64 bits, or infinite.
        proof {
            let p = pow2((exponent - 1) as nat);
            let significand = 0x80_0000 + fraction;
            let high = pow2((exponent - 150) as nat);
            lemma_pow2_adds((exponent - 150) as nat, 149);
            if exponent > 191 {
                lemma_pow2_strictly_increases(41, (exponent - 150) as nat);
            }
            assert(pow2(41) == 0x200_0000_0000) by {
                lemma_pow2_adds(32, 9);
            }
            assert(significand * high >= 0x80_0000 * 0x200_0000_0000) by (nonlinear_arith)
                requires
                    significand >= 0x80_0000,
                    high >= 0x200_0000_0000,
            ;
            assert(magnitude == (significand * high) * unit) by (nonlinear_arith)
                requires
                    magnitude == significand * p,
                    p == high * unit,
            ;
            lemma_fundamental_div_mod_converse(
                magnitude as int,
                unit as int,
                significand * high,
                0,
            );
        }
        u64::MAX
    }
}

} // verus!
