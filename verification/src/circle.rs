//! How many corners the outline of a circle gets.
//!
//! The outline of a hole is a polygon with one corner for each part of the
//! circle's circumference that the density asks for: the density times the
//! circumference, rounded to the nearest whole number, halves upward. The
//! count is made in whole numbers. The radius is the number that its
//! pattern denotes, a whole mantissa times a power of two, and two times pi
//! is taken as `TWO_PI_SCALED` parts of two to the power of `PLACES`.

use vstd::prelude::*;
use vstd::arithmetic::div_mod::{lemma_div_denominator, lemma_div_plus_one};
use vstd::arithmetic::mul::lemma_mul_upper_bound;
use vstd::arithmetic::power2::{
    lemma2_to64,
    lemma2_to64_rest,
    lemma_pow2_adds,
    lemma_pow2_pos,
    lemma_pow2_strictly_increases,
    lemma_pow2_unfold,
    pow2,
};
use crate::settings::{is_positive, Measure};

verus! {

/// The least number of corners of a hole's outline.
pub const MIN_VERTICES: usize = 3;

/// Two times pi in parts of two to the power of `PLACES`, rounded down.
pub const TWO_PI_SCALED: u64 = 863554413089;

/// The binary places of `TWO_PI_SCALED`.
pub const PLACES: u32 = 37;

/// The pattern of infinity.
pub const INFINITE: u32 = 0x7f80_0000;

/// The weight of a pattern's exponent field: below it lies the fraction.
pub const FIELD: u32 = 0x80_0000;

/// The mantissa of the number that a pattern denotes, the pattern being
/// that of a number that is neither negative nor infinite.
pub open spec fn mantissa(bits: u32) -> nat {
    if bits / FIELD == 0 {
        (bits % FIELD) as nat
    } else {
        (bits % FIELD + FIELD) as nat
    }
}

/// The power of two by which the mantissa is to be multiplied.
pub open spec fn exponent(bits: u32) -> int {
    if bits / FIELD == 0 {
        -149
    } else {
        bits / FIELD - 150
    }
}

/// The whole number nearest to `value` divided by two to the power of
/// `places`, halves going upward.
pub open spec fn rounded(value: nat, places: int) -> nat {
    if places <= 0 {
        value * pow2((-places) as nat)
    } else {
        ((value + pow2((places - 1) as nat)) as int / pow2(places as nat) as int) as nat
    }
}

/// The number of corners for a circle of the given radius at the given
/// density, or nothing where there would be corners without end. A radius
/// that is not greater than zero gives no corner, and so does a density of
/// zero.
pub open spec fn corner_count(density: nat, radius: u32) -> Option<nat> {
    if density == 0 || !is_positive(radius) {
        Some(0)
    } else if radius == INFINITE {
        None
    } else {
        Some(
            rounded(
                density * mantissa(radius) * (TWO_PI_SCALED as nat),
                PLACES - exponent(radius),
            ),
        )
    }
}

/// Two to the power of 127 and of 128, written out.
pub proof fn lemma_large_powers()
    ensures
        pow2(126) == 0x4000_0000_0000_0000_0000_0000_0000_0000,
        pow2(127) == 0x8000_0000_0000_0000_0000_0000_0000_0000,
        pow2(128) == 0x1_0000_0000_0000_0000_0000_0000_0000_0000,
{
    lemma2_to64();
    lemma2_to64_rest();
    lemma_pow2_adds(63, 63);
    lemma_pow2_adds(64, 63);
    lemma_pow2_adds(64, 64);
    assert(pow2(126) == 0x8000_0000_0000_0000 * 0x8000_0000_0000_0000);
    assert(pow2(127) == 0x1_0000_0000_0000_0000 * 0x8000_0000_0000_0000);
    assert(pow2(128) == 0x1_0000_0000_0000_0000 * 0x1_0000_0000_0000_0000);
}

/// A power of two is no greater than any later one.
pub proof fn lemma_powers_grow(a: nat, b: nat)
    requires
        a <= b,
    ensures
        pow2(a) <= pow2(b),
{
    if a < b {
        lemma_pow2_strictly_increases(a, b);
    }
}

fn power_of_two(n: u32) -> (p: u128)
    requires
        n <= 127,
    ensures
        p == pow2(n as nat),
{
    let mut p: u128 = 1;
    let mut i: u32 = 0;
    proof {
        lemma2_to64();
    }
    while i < n
        invariant
            n <= 127,
            i <= n,
            p == pow2(i as nat),
        decreases n - i,
    {
        proof {
            lemma_powers_grow(i as nat, 126);
            lemma_large_powers();
            lemma_pow2_unfold((i + 1) as nat);
        }
        p = p * 2;
        i += 1;
    }
    p
}

fn round(value: u128, places: u32) -> (count: u128)
    requires
        1 <= places,
    ensures
        count == rounded(value as nat, places as int),
{
    let ghost half: int = pow2((places - 1) as nat) as int;
    proof {
        lemma_pow2_unfold(places as nat);
        lemma_pow2_pos((places - 1) as nat);
        lemma_large_powers();
    }
    if places > 128 {
        proof {
            lemma_powers_grow(128, (places - 1) as nat);
            assert(value + half < 2 * half);
            assert((value + half) / (2 * half) == 0) by (nonlinear_arith)
                requires
                    0 <= value + half < 2 * half,
            ;
        }
        return 0;
    }
    let step = power_of_two(places - 1);
    let whole = value / step;
    proof {
        lemma_div_plus_one(value as int, half);
        lemma_div_denominator(value + half, half, 2);
        assert(half * 2 == 2 * half) by (nonlinear_arith);
        assert((value + half) / (2 * half) == (whole + 1) / 2);
    }
    whole / 2 + whole % 2
}

/// Counts the corners for a circle of the given radius at the given
/// density. There is no count where the corners are without end or more
/// than the machine can number.
pub fn count_corners(density: usize, radius: Measure) -> (count: Option<usize>)
    ensures
        match count {
            Some(n) => corner_count(density as nat, radius.bits) == Some(n as nat),
            None => match corner_count(density as nat, radius.bits) {
                Some(n) => n > usize::MAX,
                None => true,
            },
        },
{
    let bits = radius.bits;
    if density == 0 || !radius.positive() {
        return Some(0);
    }
    if bits == INFINITE {
        return None;
    }
    let field: u32 = bits / FIELD;
    let fraction: u32 = bits % FIELD;
    let mantissa: u32 = if field == 0 {
        fraction
    } else {
        fraction + FIELD
    };
    assert(1 <= mantissa < 0x100_0000);
    assert(field <= 254);
    proof {
        lemma_mul_upper_bound(density as int, 0xffff_ffff_ffff_ffff, mantissa as int, 0xff_ffff);
        lemma_mul_upper_bound(
            density as int * mantissa as int,
            0xffff_ffff_ffff_ffff * 0xff_ffff as int,
            TWO_PI_SCALED as int,
            0xff_ffff_ffff,
        );
        assert(1 <= density * mantissa) by (nonlinear_arith)
            requires
                1 <= density,
                1 <= mantissa,
        ;
        assert(TWO_PI_SCALED <= density * mantissa * TWO_PI_SCALED) by (nonlinear_arith)
            requires
                1 <= density * mantissa,
        ;
    }
    let length: u128 = (density as u128) * (mantissa as u128) * (TWO_PI_SCALED as u128);
    let limit: u128 = usize::MAX as u128;
    if field <= 186 {
        let places: u32 = if field == 0 {
            186
        } else {
            187 - field
        };
        let count = round(length, places);
        if count <= limit {
            Some(count as usize)
        } else {
            None
        }
    } else {
        let up: u32 = field - 187;
        proof {
            lemma_pow2_pos(up as nat);
            lemma2_to64();
            lemma_large_powers();
            assert(length <= length * pow2(up as nat)) by (nonlinear_arith)
                requires
                    1 <= pow2(up as nat),
                    0 <= length,
            ;
            if up >= 64 {
                lemma_powers_grow(64, up as nat);
                assert(pow2(up as nat) <= length * pow2(up as nat)) by (nonlinear_arith)
                    requires
                        1 <= length,
                        0 <= pow2(up as nat),
                ;
            } else {
                lemma_powers_grow(up as nat, 63);
                lemma2_to64_rest();
            }
        }
        if length > limit || up >= 64 {
            return None;
        }
        let scale = power_of_two(up);
        proof {
            lemma_mul_upper_bound(
                length as int,
                0xffff_ffff_ffff_ffff,
                scale as int,
                0x8000_0000_0000_0000,
            );
        }
        let count = length * scale;
        if count <= limit {
            Some(count as usize)
        } else {
            None
        }
    }
}

} // verus!
