//! Control-sampler mapping: from raw knob readings to filter parameters.
//!
//! The sampling task reads two raw unsigned readings in `[0, RAW_MAX]`,
//! one per knob. Knob one maps to the cutoff frequency by exponential
//! interpolation between 20 Hz and 20 kHz — perceptual pitch is
//! logarithmic, so linear knob rotation must produce logarithmic frequency
//! change. Knob two maps to the quality factor by linear interpolation
//! between 0.1 and 6.0. The gain is a fixed constant, not knob-controlled.
//!
//! The exponential is computed in fixed point: the exponent
//! `raw / RAW_MAX * log2(20000 / 20)` splits into its integer part (a
//! power of two) and its fraction, interpolated by a quadratic that is
//! exact at both ends of each octave. Both mappings stay inside the
//! filter's valid parameter domain by construction, so a published
//! parameter set is always accepted at the system sample rate.

use crate::channel::{ParamChannel, CHANNEL_CAPACITY};
use crate::filter::{valid_params, FilterParams, FX_ONE};
use crate::processor::SAMPLE_RATE_HZ;
use vstd::arithmetic::div_mod::{
    lemma_div_is_ordered, lemma_div_multiples_vanish, lemma_div_pos_is_pos,
    lemma_fundamental_div_mod, lemma_mod_bound, lemma_multiply_divide_lt,
};
use vstd::arithmetic::mul::lemma_mul_inequality;
use vstd::arithmetic::power2::{
    lemma2_to64, lemma_pow2_adds, lemma_pow2_pos, lemma_pow2_strictly_increases, pow2,
};
use vstd::prelude::*;

verus! {

/// Largest raw reading of a control knob (a 16-bit conversion).
pub const RAW_MAX: u16 = 65_535;

/// Lowest mapped cutoff frequency: 20 Hz, in millihertz.
pub const MIN_FREQ_MHZ: u32 = 20_000;

/// Highest mapped cutoff frequency: 20 kHz, in millihertz.
pub const MAX_FREQ_MHZ: u32 = 20_000_000;

/// Lowest mapped quality factor: 0.1, in thousandths.
pub const MIN_Q_MILLI: u32 = 100;

/// Highest mapped quality factor: 6.0, in thousandths.
pub const MAX_Q_MILLI: u32 = 6_000;

/// The fixed gain published with every parameter set, in thousandths.
pub const DEFAULT_GAIN_MILLI: i32 = 0;

/// `log2(MAX_FREQ_MHZ / MIN_FREQ_MHZ)` at scale [`FX_ONE`], rounded to
/// nearest: the knob's full travel spans this many octaves.
pub const LOG2_SPAN_FX: u64 = 10_449_882;

/// Linear coefficient of the per-octave interpolation of `2^x`:
/// `0.65625` at scale [`FX_ONE`].
pub const EXP2_LIN: u64 = 688_128;

/// Quadratic coefficient of the per-octave interpolation of `2^x`:
/// `0.34375` at scale [`FX_ONE`]. The two coefficients sum to one, so the
/// interpolation is exact at both ends of each octave.
pub const EXP2_QUAD: u64 = 360_448;

/// Quadratic interpolation of `2^(f / FX_ONE)` on one octave, at scale
/// [`FX_ONE`]: `1 + 0.65625 f + 0.34375 f^2`, truncating as computed.
pub open spec fn exp2_frac_spec(f: int) -> int
    recommends
        0 <= f < FX_ONE,
{
    FX_ONE + EXP2_LIN * f / (FX_ONE as int) + EXP2_QUAD * (f * f / (FX_ONE as int)) / (
    FX_ONE as int)
}

/// The frequency in millihertz that a raw knob reading maps to:
/// `MIN_FREQ * 2^(raw / RAW_MAX * log2(MAX_FREQ / MIN_FREQ))`, computed in
/// fixed point and capped at [`MAX_FREQ_MHZ`]. The per-octave
/// interpolation can land a fraction of a percent high near the top of the
/// travel; the cap keeps the mapping inside its stated 20 Hz to 20 kHz
/// range.
pub open spec fn frequency_for(raw: u16) -> int {
    let e = raw * LOG2_SPAN_FX / (RAW_MAX as int);
    let k = e / (FX_ONE as int);
    let f = e % (FX_ONE as int);
    let v = MIN_FREQ_MHZ * pow2(k as nat) * exp2_frac_spec(f) / (FX_ONE as int);
    if v > MAX_FREQ_MHZ {
        MAX_FREQ_MHZ as int
    } else {
        v
    }
}

/// The quality factor in thousandths that a raw knob reading maps to:
/// linear interpolation from `MIN_Q_MILLI` to `MAX_Q_MILLI`.
pub open spec fn quality_for(raw: u16) -> int {
    MIN_Q_MILLI + (MAX_Q_MILLI - MIN_Q_MILLI) * raw / (RAW_MAX as int)
}

/// The parameter set published for a pair of raw knob readings.
pub open spec fn params_for(raw_frequency: u16, raw_quality: u16) -> FilterParams {
    FilterParams {
        frequency_mhz: frequency_for(raw_frequency) as u32,
        quality_milli: quality_for(raw_quality) as u32,
        gain_milli: DEFAULT_GAIN_MILLI,
    }
}

/// `2^k` for the small exponents the frequency mapping can produce.
fn pow2_small(k: u64) -> (p: u64)
    requires
        k <= 9,
    ensures
        p == pow2(k as nat),
{
    proof {
        lemma2_to64();
    }
    match k {
        0 => 1,
        1 => 2,
        2 => 4,
        3 => 8,
        4 => 16,
        5 => 32,
        6 => 64,
        7 => 128,
        8 => 256,
        _ => 512,
    }
}

/// Maps a raw knob reading to the cutoff frequency in millihertz. The
/// result always lies between [`MIN_FREQ_MHZ`] and [`MAX_FREQ_MHZ`], in
/// particular strictly below the Nyquist limit of the system sample rate.
pub fn map_frequency(raw: u16) -> (frequency_mhz: u32)
    ensures
        frequency_mhz == frequency_for(raw),
        MIN_FREQ_MHZ <= frequency_mhz <= MAX_FREQ_MHZ,
{
    let e = (raw as u64) * LOG2_SPAN_FX / 65_535;
    proof {
        lemma_mul_inequality(raw as int, 65_535, LOG2_SPAN_FX as int);
        lemma_div_is_ordered(
            (raw as int) * (LOG2_SPAN_FX as int),
            65_535 * (LOG2_SPAN_FX as int),
            65_535,
        );
        lemma_div_multiples_vanish(LOG2_SPAN_FX as int, 65_535);
        assert(e <= LOG2_SPAN_FX);
        lemma_multiply_divide_lt(e as int, FX_ONE as int, 10);
    }
    let k = e / (FX_ONE as u64);
    let f = e % (FX_ONE as u64);
    let scale = pow2_small(k);
    proof {
        lemma2_to64();
        assert(1 <= scale <= 512);
        lemma_mul_inequality(f as int, FX_ONE - 1, EXP2_LIN as int);
        lemma_div_is_ordered(
            (EXP2_LIN as int) * (f as int),
            (EXP2_LIN as int) * (FX_ONE - 1),
            FX_ONE as int,
        );
        assert((EXP2_LIN as int) * (FX_ONE - 1) / (FX_ONE as int) < EXP2_LIN) by {
            lemma_multiply_divide_lt(
                (EXP2_LIN as int) * (FX_ONE - 1),
                FX_ONE as int,
                EXP2_LIN as int,
            );
        }
        assert((f as int) * (f as int) < (FX_ONE as int) * (FX_ONE as int)) by (nonlinear_arith)
            requires
                0 <= f < FX_ONE,
        ;
    }
    let lin = EXP2_LIN * f / (FX_ONE as u64);
    let sq = f * f / (FX_ONE as u64);
    proof {
        lemma_multiply_divide_lt((f as int) * (f as int), FX_ONE as int, FX_ONE as int);
        lemma_mul_inequality(sq as int, FX_ONE - 1, EXP2_QUAD as int);
        lemma_div_is_ordered(
            (EXP2_QUAD as int) * (sq as int),
            (EXP2_QUAD as int) * (FX_ONE - 1),
            FX_ONE as int,
        );
        lemma_multiply_divide_lt(
            (EXP2_QUAD as int) * (FX_ONE - 1),
            FX_ONE as int,
            EXP2_QUAD as int,
        );
    }
    let quad = EXP2_QUAD * sq / (FX_ONE as u64);
    let interp = FX_ONE as u64 + lin + quad;
    proof {
        assert(FX_ONE <= interp <= 2 * FX_ONE - 2);
        assert(20_000 * (scale as int) * (interp as int) <= 20_000 * 512 * (2 * FX_ONE - 2))
            by (nonlinear_arith)
            requires
                1 <= scale <= 512,
                FX_ONE <= interp <= 2 * FX_ONE - 2,
        ;
        assert(20_000 * (scale as int) * (interp as int) >= 20_000 * (FX_ONE as int))
            by (nonlinear_arith)
            requires
                1 <= scale,
                FX_ONE <= interp,
        ;
    }
    let base = 20_000u64 * scale;
    proof {
        assert((base as int) * (interp as int) <= 10_240_000 * (2 * FX_ONE - 2))
            by (nonlinear_arith)
            requires
                0 <= base <= 10_240_000,
                0 <= interp <= 2 * FX_ONE - 2,
                FX_ONE == 1_048_576i64,
        ;
        assert(20_000 * (scale as int) * (interp as int) == (base as int) * (interp as int));
    }
    let numerator = base * interp;
    let frequency = numerator / (FX_ONE as u64);
    proof {
        lemma_div_is_ordered(20_000 * (FX_ONE as int), numerator as int, FX_ONE as int);
        lemma_div_multiples_vanish(20_000, FX_ONE as int);
    }
    if frequency > 20_000_000 {
        20_000_000
    } else {
        frequency as u32
    }
}

/// Maps a raw knob reading to the quality factor in thousandths. The
/// result always lies in `[MIN_Q_MILLI, MAX_Q_MILLI]`.
pub fn map_quality(raw: u16) -> (quality_milli: u32)
    ensures
        quality_milli == quality_for(raw),
        MIN_Q_MILLI <= quality_milli <= MAX_Q_MILLI,
{
    let span = 5_900u64 * (raw as u64);
    proof {
        lemma_mul_inequality(raw as int, 65_535, 5_900);
        lemma_div_is_ordered(5_900 * (raw as int), 5_900int * 65_535, 65_535);
        lemma_div_multiples_vanish(5_900, 65_535);
    }
    100u32 + (span / 65_535) as u32
}

/// Derives the full parameter set for a pair of raw knob readings. By
/// construction the result is valid at the system sample rate: the
/// mapping can never produce an out-of-range parameter set.
pub fn derive_params(raw_frequency: u16, raw_quality: u16) -> (params: FilterParams)
    ensures
        params == params_for(raw_frequency, raw_quality),
        valid_params(params, SAMPLE_RATE_HZ),
{
    FilterParams {
        frequency_mhz: map_frequency(raw_frequency),
        quality_milli: map_quality(raw_quality),
        gain_milli: DEFAULT_GAIN_MILLI,
    }
}

/// The per-octave interpolation of the exponential mapping is monotone
/// and stays within its octave: one at the bottom, just below two at the
/// top.
proof fn lemma_exp2_frac_props(f1: int, f2: int)
    requires
        0 <= f1 <= f2 < FX_ONE,
    ensures
        exp2_frac_spec(f1) <= exp2_frac_spec(f2),
        FX_ONE <= exp2_frac_spec(f1),
        exp2_frac_spec(f2) <= 2 * FX_ONE - 2,
{
    let s_one = FX_ONE as int;
    let lin_c = EXP2_LIN as int;
    let quad_c = EXP2_QUAD as int;
    lemma_mul_inequality(f1, f2, lin_c);
    lemma_div_is_ordered(lin_c * f1, lin_c * f2, s_one);
    assert(f1 * f1 <= f2 * f2 && 0 <= f1 * f1) by (nonlinear_arith)
        requires
            0 <= f1 <= f2,
    ;
    lemma_div_is_ordered(f1 * f1, f2 * f2, s_one);
    lemma_mul_inequality(f1 * f1 / s_one, f2 * f2 / s_one, quad_c);
    lemma_div_is_ordered(quad_c * (f1 * f1 / s_one), quad_c * (f2 * f2 / s_one), s_one);
    lemma_div_pos_is_pos(lin_c * f1, s_one);
    lemma_div_pos_is_pos(f1 * f1, s_one);
    assert(0 <= quad_c * (f1 * f1 / s_one)) by (nonlinear_arith)
        requires
            0 <= f1 * f1 / s_one,
            quad_c == 360_448,
    ;
    lemma_div_pos_is_pos(quad_c * (f1 * f1 / s_one), s_one);
    assert(lin_c * f2 <= lin_c * (s_one - 1)) by {
        lemma_mul_inequality(f2, s_one - 1, lin_c);
    }
    lemma_div_is_ordered(lin_c * f2, lin_c * (s_one - 1), s_one);
    lemma_multiply_divide_lt(lin_c * (s_one - 1), s_one, lin_c);
    assert(f2 * f2 < s_one * s_one) by (nonlinear_arith)
        requires
            0 <= f2 < s_one,
    ;
    lemma_multiply_divide_lt(f2 * f2, s_one, s_one);
    assert(quad_c * (f2 * f2 / s_one) <= quad_c * (s_one - 1)) by {
        lemma_mul_inequality(f2 * f2 / s_one, s_one - 1, quad_c);
    }
    lemma_div_is_ordered(quad_c * (f2 * f2 / s_one), quad_c * (s_one - 1), s_one);
    lemma_multiply_divide_lt(quad_c * (s_one - 1), s_one, quad_c);
}

/// Turning the frequency knob up never lowers the mapped cutoff: the
/// exponential frequency mapping is monotone over the whole knob travel,
/// across octave boundaries included.
pub proof fn lemma_frequency_monotone(raw1: u16, raw2: u16)
    requires
        raw1 <= raw2,
    ensures
        frequency_for(raw1) <= frequency_for(raw2),
{
    let s_one = FX_ONE as int;
    let span = LOG2_SPAN_FX as int;
    let e1 = raw1 * span / (RAW_MAX as int);
    let e2 = raw2 * span / (RAW_MAX as int);
    lemma_mul_inequality(raw1 as int, raw2 as int, span);
    lemma_div_is_ordered((raw1 as int) * span, (raw2 as int) * span, RAW_MAX as int);
    assert(0 <= (raw1 as int) * span) by (nonlinear_arith)
        requires
            0 <= raw1,
            span == 10_449_882,
    ;
    lemma_div_pos_is_pos((raw1 as int) * span, RAW_MAX as int);
    let k1 = e1 / s_one;
    let f1 = e1 % s_one;
    let k2 = e2 / s_one;
    let f2 = e2 % s_one;
    lemma_div_pos_is_pos(e1, s_one);
    lemma_div_is_ordered(e1, e2, s_one);
    lemma_fundamental_div_mod(e1, s_one);
    lemma_fundamental_div_mod(e2, s_one);
    lemma_mod_bound(e1, s_one);
    lemma_mod_bound(e2, s_one);
    let w1 = pow2(k1 as nat) as int;
    let w2 = pow2(k2 as nat) as int;
    lemma_pow2_pos(k1 as nat);
    lemma_pow2_pos(k2 as nat);
    let p1 = exp2_frac_spec(f1);
    let p2 = exp2_frac_spec(f2);
    if k1 == k2 {
        assert(f1 <= f2);
        lemma_exp2_frac_props(f1, f2);
        assert(20_000 * w1 * p1 <= 20_000 * w2 * p2) by (nonlinear_arith)
            requires
                w1 == w2,
                w1 >= 1,
                0 <= p1 <= p2,
        ;
        lemma_div_is_ordered(20_000 * w1 * p1, 20_000 * w2 * p2, s_one);
    } else {
        assert(k1 < k2);
        lemma_exp2_frac_props(f1, f1);
        lemma_exp2_frac_props(f2, f2);
        // Top of the lower octave: strictly below twice its base.
        assert(20_000 * w1 * p1 < s_one * (40_000 * w1)) by (nonlinear_arith)
            requires
                w1 >= 1,
                0 <= p1 <= 2 * s_one - 2,
                s_one == 1_048_576,
        ;
        lemma_multiply_divide_lt(20_000 * w1 * p1, s_one, 40_000 * w1);
        // Bottom of the higher octave: at least its base.
        assert(20_000 * w2 * p2 >= s_one * (20_000 * w2)) by (nonlinear_arith)
            requires
                w2 >= 1,
                p2 >= s_one,
        ;
        lemma_div_is_ordered(s_one * (20_000 * w2), 20_000 * w2 * p2, s_one);
        lemma_div_multiples_vanish(20_000 * w2, s_one);
        // The octave bases themselves are ordered: pow2 doubles per step.
        lemma_pow2_adds(1, k1 as nat);
        lemma2_to64();
        if k1 + 1 < k2 {
            lemma_pow2_strictly_increases((k1 + 1) as nat, k2 as nat);
        }
        assert(2 * w1 <= w2);
        assert(40_000 * w1 <= 20_000 * w2) by (nonlinear_arith)
            requires
                2 * w1 <= w2,
        ;
    }
}

/// One control-sampling cycle after the raw readings are in hand: maps
/// them into the parameter domain and publishes the result into the
/// channel without blocking. A full channel drops the new set silently —
/// the next cycle retries naturally.
pub fn sample_and_publish(channel: &mut ParamChannel, raw_frequency: u16, raw_quality: u16) -> (accepted: bool)
    ensures
        accepted == (old(channel).pending().len() < CHANNEL_CAPACITY),
        accepted ==> final(channel).pending() == old(channel).pending().push(
            params_for(raw_frequency, raw_quality),
        ),
        !accepted ==> final(channel).pending() == old(channel).pending(),
{
    let params = derive_params(raw_frequency, raw_quality);
    channel.try_publish(params)
}

} // verus!
