//! The whole part of a double-precision number, read from its bit pattern.
//!
//! Upstream counts arrive as doubles. The library takes such a number as the
//! 64 bits that encode it (one sign bit, eleven exponent bits, fifty-two
//! fraction bits) and cuts it down to a signed integer: towards zero, never
//! rounding, with numbers beyond the integer range pinned to its ends and
//! not-a-number read as zero.

use vstd::prelude::*;
use vstd::arithmetic::power2::{
    lemma2_to64,
    lemma2_to64_rest,
    lemma_pow2_pos,
    lemma_pow2_strictly_increases,
    lemma_pow2_unfold,
    pow2,
};

verus! {

/// The sign bit is set.
pub open spec fn is_negative(bits: u64) -> bool {
    bits >= 0x8000_0000_0000_0000
}

/// The eleven exponent bits, as a number.
pub open spec fn exponent_field(bits: u64) -> int {
    (bits as int / 0x10_0000_0000_0000) % 2048
}

/// The fifty-two fraction bits, as a number.
pub open spec fn fraction_field(bits: u64) -> int {
    bits as int % 0x10_0000_0000_0000
}

/// The bits encode no number.
pub open spec fn is_nan(bits: u64) -> bool {
    exponent_field(bits) == 2047 && fraction_field(bits) != 0
}

/// The bits encode an infinity.
pub open spec fn is_infinite(bits: u64) -> bool {
    exponent_field(bits) == 2047 && fraction_field(bits) == 0
}

/// The integer `m` of a finite number whose magnitude is
/// `m * 2^(scale - 1075)`: the fraction bits, with the implicit leading bit
/// unless the number is subnormal.
pub open spec fn significand(bits: u64) -> int {
    if exponent_field(bits) == 0 {
        fraction_field(bits)
    } else {
        fraction_field(bits) + 0x10_0000_0000_0000
    }
}

/// The biased exponent that scales the significand; subnormal numbers share
/// the smallest one.
pub open spec fn scale(bits: u64) -> int {
    if exponent_field(bits) == 0 {
        1
    } else {
        exponent_field(bits)
    }
}

/// The magnitude of a finite number, rounded down to a whole number.
pub open spec fn whole_magnitude(bits: u64) -> int {
    let s = scale(bits);
    if s >= 1075 {
        significand(bits) * pow2((s - 1075) as nat)
    } else {
        significand(bits) / (pow2((1075 - s) as nat) as int)
    }
}

/// A finite number cut towards zero.
pub open spec fn signed_whole(bits: u64) -> int {
    if is_negative(bits) {
        -whole_magnitude(bits)
    } else {
        whole_magnitude(bits)
    }
}

/// The integer that stands for the number: zero for not-a-number, else the
/// number cut towards zero and pinned to the range of a signed 64-bit
/// integer.
pub open spec fn truncated(bits: u64) -> int {
    if is_nan(bits) {
        0
    } else if is_infinite(bits) {
        if is_negative(bits) {
            -0x8000_0000_0000_0000
        } else {
            0x7fff_ffff_ffff_ffff
        }
    } else if signed_whole(bits) > 0x7fff_ffff_ffff_ffff {
        0x7fff_ffff_ffff_ffff
    } else if signed_whole(bits) < -0x8000_0000_0000_0000 {
        -0x8000_0000_0000_0000
    } else {
        signed_whole(bits)
    }
}

/// Computes `2^k` for an exponent that fits.
fn power_of_two(k: u64) -> (d: u64)
    requires
        k <= 62,
    ensures
        d == pow2(k as nat),
        d >= 1,
{
    let mut d: u64 = 1;
    let mut i: u64 = 0;
    proof {
        lemma2_to64();
    }
    while i < k
        invariant
            i <= k <= 62,
            d == pow2(i as nat),
            d >= 1,
        decreases k - i,
    {
        proof {
            lemma_pow2_unfold((i + 1) as nat);
            lemma2_to64_rest();
            if i + 1 < 62 {
                lemma_pow2_strictly_increases((i + 1) as nat, 62);
            }
        }
        d = d * 2;
        i += 1;
    }
    d
}

/// Cuts a double, given by its bits, down to a signed integer.
pub fn truncate_double(bits: u64) -> (whole: i64)
    ensures
        whole == truncated(bits),
{
    let negative = bits >= 0x8000_0000_0000_0000;
    let e: u64 = (bits / 0x10_0000_0000_0000) % 2048;
    let f: u64 = bits % 0x10_0000_0000_0000;
    if e == 2047 {
        if f != 0 {
            return 0;
        }
        return if negative {
            i64::MIN
        } else {
            i64::MAX
        };
    }
    if e < 1023 {
        proof {
            let k = (1075 - scale(bits)) as nat;
            lemma2_to64_rest();
            if k > 53 {
                lemma_pow2_strictly_increases(53, k);
            }
            let m = significand(bits);
            let d = pow2(k) as int;
            assert(m / d == 0) by (nonlinear_arith)
                requires
                    0 <= m < d,
            ;
        }
        return 0;
    }
    let m: u64 = f + 0x10_0000_0000_0000;
    if e >= 1086 {
        proof {
            let k = (e - 1075) as nat;
            lemma2_to64();
            if k > 11 {
                lemma_pow2_strictly_increases(11, k);
            }
            let d = pow2(k) as int;
            assert(m * d >= 0x8000_0000_0000_0000) by (nonlinear_arith)
                requires
                    m >= 0x10_0000_0000_0000,
                    d >= 0x800,
            ;
        }
        return if negative {
            i64::MIN
        } else {
            i64::MAX
        };
    }
    let magnitude: u64 = if e >= 1075 {
        let d = power_of_two(e - 1075);
        proof {
            let k = (e - 1075) as nat;
            lemma2_to64();
            if k < 10 {
                lemma_pow2_strictly_increases(k, 10);
            }
            assert(m * d <= 0x7fff_ffff_ffff_ffff) by (nonlinear_arith)
                requires
                    0 <= m < 0x20_0000_0000_0000,
                    1 <= d <= 0x400,
            ;
        }
        m * d
    } else {
        let d = power_of_two(1075 - e);
        m / d
    };
    if negative {
        -(magnitude as i64)
    } else {
        magnitude as i64
    }
}

} // verus!
