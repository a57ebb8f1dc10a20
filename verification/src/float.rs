//! Conversion of IEEE 754 binary floating point values, given by their bit
//! patterns, to `u64` the way Rust's `as` does it: rounding toward zero,
//! saturating at `0` and `u64::MAX`, and mapping NaN to `0`.
use vstd::arithmetic::mul::{lemma_mul_inequality, lemma_mul_strict_inequality};
use vstd::arithmetic::power2::{
    lemma2_to64,
    lemma2_to64_rest,
    lemma_pow2_adds,
    lemma_pow2_pos,
    lemma_pow2_strictly_increases,
    pow2,
};
use vstd::bits::{lemma_u64_shl_is_mul, lemma_u64_shr_is_div};
use vstd::prelude::*;

verus! {

/// `floor(sig * 2^k)`, saturated at `u64::MAX`.
pub open spec fn scaled(sig: nat, k: int) -> u64 {
    if k >= 0 {
        if sig * pow2(k as nat) > u64::MAX {
            u64::MAX
        } else {
            (sig * pow2(k as nat)) as u64
        }
    } else {
        (sig / pow2((-k) as nat)) as u64
    }
}

/// What `f as u64` is for the `f32` `f` with bit pattern `bits`.
pub open spec fn f32_bits_to_u64(bits: u32) -> u64 {
    let negative = bits >= 0x8000_0000;
    let exp = (bits / 0x80_0000) % 256;
    let frac = bits % 0x80_0000;
    if exp == 255 {
        // infinities and NaN
        if frac == 0 && !negative {
            u64::MAX
        } else {
            0
        }
    } else if negative || exp < 127 {
        0
    } else {
        scaled((frac + 0x80_0000) as nat, exp - 150)
    }
}

/// What `f as u64` is for the `f64` `f` with bit pattern `bits`.
pub open spec fn f64_bits_to_u64(bits: u64) -> u64 {
    let negative = bits >= 0x8000_0000_0000_0000;
    let exp = (bits / 0x10_0000_0000_0000) % 2048;
    let frac = bits % 0x10_0000_0000_0000;
    if exp == 2047 {
        if frac == 0 && !negative {
            u64::MAX
        } else {
            0
        }
    } else if negative || exp < 1023 {
        0
    } else {
        scaled((frac + 0x10_0000_0000_0000) as nat, exp - 1075)
    }
}

/// `scaled(sig, k)` for a significand of exactly `width` bits.
fn scale(sig: u64, width: u64, k: i64) -> (r: u64)
    requires
        1 <= width <= 63,
        pow2((width - 1) as nat) <= sig < pow2(width as nat),
        -64 < k < 2048,
    ensures
        r == scaled(sig as nat, k as int),
{
    proof {
        lemma2_to64();
        lemma2_to64_rest();
    }
    if k >= 0 {
        if k + width as i64 > 64 {
            proof {
                let kn = k as nat;
                lemma_pow2_pos(kn);
                lemma_mul_inequality(pow2((width - 1) as nat) as int, sig as int, pow2(kn) as int);
                lemma_pow2_adds((width - 1) as nat, kn);
                if (width - 1 + kn) as nat > 64 {
                    lemma_pow2_strictly_increases(64, (width - 1 + kn) as nat);
                }
            }
            u64::MAX
        } else {
            proof {
                let kn = k as nat;
                lemma_pow2_pos(kn);
                lemma_mul_strict_inequality(sig as int, pow2(width as nat) as int, pow2(kn) as int);
                lemma_pow2_adds(width as nat, kn);
                if width + kn < 64 {
                    lemma_pow2_strictly_increases((width + kn) as nat, 64);
                }
                lemma_u64_shl_is_mul(sig, k as u64);
            }
            sig << (k as u64)
        }
    } else {
        proof {
            lemma_u64_shr_is_div(sig, (-k) as u64);
        }
        sig >> ((-k) as u64)
    }
}

/// `f as u64` for the `f32` `f` with bit pattern `bits`.
pub fn f32_to_u64(bits: u32) -> (r: u64)
    ensures
        r == f32_bits_to_u64(bits),
{
    let negative = bits >= 0x8000_0000;
    let exp = (bits / 0x80_0000) % 256;
    let frac = bits % 0x80_0000;
    if exp == 255 {
        if frac == 0 && !negative {
            u64::MAX
        } else {
            0
        }
    } else if negative || exp < 127 {
        0
    } else {
        proof {
            lemma2_to64();
        }
        scale((frac + 0x80_0000) as u64, 24, exp as i64 - 150)
    }
}

/// `f as u64` for the `f64` `f` with bit pattern `bits`.
pub fn f64_to_u64(bits: u64) -> (r: u64)
    ensures
        r == f64_bits_to_u64(bits),
{
    let negative = bits >= 0x8000_0000_0000_0000;
    let exp = (bits / 0x10_0000_0000_0000) % 2048;
    let frac = bits % 0x10_0000_0000_0000;
    if exp == 2047 {
        if frac == 0 && !negative {
            u64::MAX
        } else {
            0
        }
    } else if negative || exp < 1023 {
        0
    } else {
        proof {
            lemma2_to64();
            lemma2_to64_rest();
        }
        scale(frac + 0x10_0000_0000_0000, 53, exp as i64 - 1075)
    }
}

} // verus!
