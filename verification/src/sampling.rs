use vstd::prelude::*;

use vstd::arithmetic::power2::{
    pow2, lemma_pow2_pos, lemma_pow2_strictly_increases, lemma2_to64,
};
use vstd::arithmetic::mul::{
    lemma_mul_basics, lemma_mul_inequality, lemma_mul_is_commutative, lemma_mul_upper_bound,
};
use vstd::arithmetic::div_mod::lemma_fundamental_div_mod_converse;
use vstd::bits::{
    low_bits_mask, lemma_u64_shr_is_div, lemma_u64_shl_is_mul, lemma_u64_low_bits_mask_is_mod,
    lemma_u64_mul_pow2_le_max_iff_max_shr,
};

verus! {

/// Gains are fixed-point fractions of this unit: a gain of `GAIN_UNIT`
/// is full scale (1.0), `GAIN_UNIT / 2` is half scale, and so on.
pub const GAIN_UNIT: u32 = 1000000;

/// Sign field of a 32-bit float bit pattern.
pub open spec fn f32_sign(bits: u32) -> u32 {
    bits >> 31
}

/// Biased exponent field of a 32-bit float bit pattern.
pub open spec fn f32_exp(bits: u32) -> u32 {
    (bits >> 23) & 0xff
}

/// Fraction field of a 32-bit float bit pattern.
pub open spec fn f32_frac(bits: u32) -> u32 {
    bits & 0x7fffff
}

/// Effective significand: the fraction with the implicit leading bit of a
/// normal number, or the bare fraction of a subnormal one. A finite pattern
/// with exponent field `e` and significand `m` stands for the magnitude
/// `m * 2^max(e, 1) / 2^150`.
pub open spec fn f32_mant(bits: u32) -> u32 {
    if f32_exp(bits) == 0 {
        f32_frac(bits)
    } else {
        (f32_frac(bits) + 0x800000) as u32
    }
}

/// The exponent that `f32_mant` is scaled by: subnormals share the smallest
/// normal exponent.
pub open spec fn f32_eff_exp(bits: u32) -> nat {
    if f32_exp(bits) == 0 {
        1
    } else {
        f32_exp(bits) as nat
    }
}

/// `floor(v * scale)` where `v` is the finite non-negative magnitude held
/// by `bits`: the scaled significand shifted by the exponent, exactly.
pub open spec fn scaled_floor(bits: u32, scale: u32) -> nat {
    let m = (f32_mant(bits) * scale) as nat;
    if f32_eff_exp(bits) >= 150 {
        m * pow2((f32_eff_exp(bits) - 150) as nat)
    } else {
        m / pow2((150 - f32_eff_exp(bits)) as nat)
    }
}

/// Whether `v * scale` is an integer, i.e. the floor loses nothing.
pub open spec fn scaled_is_exact(bits: u32, scale: u32) -> bool {
    f32_eff_exp(bits) >= 150 || (f32_mant(bits) * scale) as nat % pow2(
        (150 - f32_eff_exp(bits)) as nat,
    ) == 0
}

/// `ceil(v * scale)` for the magnitude held by `bits`.
pub open spec fn scaled_ceil(bits: u32, scale: u32) -> nat {
    if scaled_is_exact(bits, scale) {
        scaled_floor(bits, scale)
    } else {
        scaled_floor(bits, scale) + 1
    }
}

/// The length in samples of an envelope stage whose duration parameter has
/// bit pattern `bits`, at `rate` samples per second: the exact product
/// rounded up, clamped to at least one sample — a stage is never skipped by
/// a zero, negative or denormal duration — and saturated at `u32::MAX`.
/// A non-finite duration pins the stage at the saturated length.
pub open spec fn stage_samples_spec(bits: u32, rate: u32) -> u32 {
    if f32_sign(bits) == 1 {
        1
    } else if f32_exp(bits) == 255 {
        u32::MAX
    } else {
        let q = scaled_ceil(bits, rate);
        if q < 1 {
            1
        } else if q > u32::MAX {
            u32::MAX
        } else {
            q as u32
        }
    }
}

/// The fixed-point level (in units of `GAIN_UNIT`) of a gain parameter with
/// bit pattern `bits`: the exact product rounded down, clamped to 0..=1 in
/// fixed point. Negative patterns clamp to silence, values above full scale
/// and non-finite ones to full scale.
pub open spec fn level_units_spec(bits: u32) -> u32 {
    if f32_sign(bits) == 1 {
        0
    } else if f32_exp(bits) == 255 {
        GAIN_UNIT
    } else {
        let q = scaled_floor(bits, GAIN_UNIT);
        if q > GAIN_UNIT {
            GAIN_UNIT
        } else {
            q as u32
        }
    }
}

/// Quotient and remainder-is-nonzero flag of `p / 2^k`, for any `k`.
fn floor_shift(p: u64, k: u32) -> (r: (u64, bool))
    requires
        1 <= k,
    ensures
        r.0 == p as nat / pow2(k as nat),
        r.1 == (p as nat % pow2(k as nat) != 0),
        r.0 <= p,
{
    if k >= 64 {
        proof {
            lemma2_to64();
            if k > 64 {
                lemma_pow2_strictly_increases(64, k as nat);
            }
            lemma_fundamental_div_mod_converse(p as int, pow2(k as nat) as int, 0, p as int);
        }
        (0, p != 0)
    } else {
        let shifted: u64 = 1u64 << k;
        proof {
            lemma2_to64();
            lemma_pow2_pos(k as nat);
            lemma_pow2_strictly_increases(k as nat, 64);
            lemma_u64_shl_is_mul(1u64, k as u64);
            lemma_mul_basics(pow2(k as nat) as int);
        }
        let mask: u64 = shifted - 1;
        proof {
            assert(mask == low_bits_mask(k as nat));
            lemma_u64_shr_is_div(p, k as u64);
            lemma_u64_low_bits_mask_is_mod(p, k as nat);
            lemma_pow2_pos(k as nat);
            vstd::arithmetic::div_mod::lemma_div_is_ordered_by_denominator(
                p as int,
                1,
                pow2(k as nat) as int,
            );
        }
        (p >> k, p & mask != 0)
    }
}

/// Splits a finite, non-negative bit pattern into its scaled significand
/// `mant * scale` and effective exponent, the form the specs above use.
fn mant_times(bits: u32, scale: u32) -> (r: (u64, u32))
    requires
        f32_sign(bits) != 1,
        f32_exp(bits) != 255,
    ensures
        r.0 == f32_mant(bits) * scale,
        r.1 == f32_eff_exp(bits),
        1 <= r.1 <= 254,
        r.0 < 0x100000000000000,
{
    let e: u32 = (bits >> 23) & 0xff;
    let frac: u32 = bits & 0x7fffff;
    proof {
        assert(bits & 0x7fffff < 0x800000) by (bit_vector);
        assert((bits >> 23) & 0xff < 0x100) by (bit_vector);
    }
    let mant: u64 = if e == 0 {
        frac as u64
    } else {
        (frac as u64) + 0x800000
    };
    let eff: u32 = if e == 0 {
        1
    } else {
        e
    };
    proof {
        lemma_mul_upper_bound(mant as int, 0xffffff, scale as int, 0xffffffff);
    }
    (mant * (scale as u64), eff)
}

/// The stage length in samples for a duration parameter: see
/// [`stage_samples_spec`] for the exact policy.
pub fn stage_samples(bits: u32, rate: u32) -> (n: u32)
    ensures
        n == stage_samples_spec(bits, rate),
        1 <= n,
{
    if bits >> 31 == 1 {
        return 1;
    }
    if (bits >> 23) & 0xff == 255 {
        return u32::MAX;
    }
    let (p, eff) = mant_times(bits, rate);
    if eff >= 150 {
        let k: u32 = eff - 150;
        if p == 0 {
            proof {
                lemma_mul_basics(pow2(k as nat) as int);
            }
            return 1;
        }
        proof {
            lemma_pow2_pos(k as nat);
            lemma_mul_inequality(1, p as int, pow2(k as nat) as int);
        }
        if k >= 32 {
            proof {
                lemma2_to64();
                if k > 32 {
                    lemma_pow2_strictly_increases(32, k as nat);
                }
            }
            return u32::MAX;
        }
        proof {
            lemma_u64_mul_pow2_le_max_iff_max_shr(p, k as u64, u32::MAX as u64);
        }
        if p > (u32::MAX as u64) >> k {
            return u32::MAX;
        }
        proof {
            lemma_u64_shl_is_mul(p, k as u64);
        }
        let v: u64 = p << k;
        v as u32
    } else {
        let k: u32 = 150 - eff;
        let (fl, inexact) = floor_shift(p, k);
        let q: u64 = if inexact {
            fl + 1
        } else {
            fl
        };
        if q < 1 {
            1
        } else if q > u32::MAX as u64 {
            u32::MAX
        } else {
            q as u32
        }
    }
}

/// The fixed-point level for a gain parameter: see [`level_units_spec`]
/// for the exact policy.
pub fn level_units(bits: u32) -> (s: u32)
    ensures
        s == level_units_spec(bits),
        s <= GAIN_UNIT,
{
    if bits >> 31 == 1 {
        return 0;
    }
    if (bits >> 23) & 0xff == 255 {
        return GAIN_UNIT;
    }
    let (p, eff) = mant_times(bits, GAIN_UNIT);
    if eff >= 150 {
        let k: u32 = eff - 150;
        proof {
            assert(bits & 0x7fffff < 0x800000) by (bit_vector);
            assert(f32_mant(bits) >= 0x800000);
            lemma_pow2_pos(k as nat);
            lemma_mul_inequality(1, pow2(k as nat) as int, p as int);
            lemma_mul_inequality(0x800000, f32_mant(bits) as int, GAIN_UNIT as int);
            lemma_mul_basics(p as int);
            lemma_mul_is_commutative(p as int, pow2(k as nat) as int);
            assert(p * pow2(k as nat) >= p);
            assert(scaled_floor(bits, GAIN_UNIT) == p * pow2(k as nat));
            assert(level_units_spec(bits) == GAIN_UNIT);
        }
        GAIN_UNIT
    } else {
        let k: u32 = 150 - eff;
        let (fl, _) = floor_shift(p, k);
        proof {
            assert(scaled_floor(bits, GAIN_UNIT) == fl);
        }
        if fl > GAIN_UNIT as u64 {
            GAIN_UNIT
        } else {
            fl as u32
        }
    }
}

} // verus!
