//! Single-channel second-order recursive filter ("biquad").
//!
//! A filter holds five coefficients and four delay registers. Coefficients
//! are recomputed from the stored parameters whenever the parameters or the
//! sample rate change, by the standard biquad design equations parameterised
//! by the normalised angular frequency and the quality factor. The
//! per-sample transform computes one output from the current input, the two
//! past inputs and the two past outputs, then shifts the delay registers.
//!
//! All arithmetic is fixed point at scale [`FX_ONE`] (`1 << 20`), so that
//! every value and every rounding step is stated exactly. Frequencies are
//! carried in millihertz and quality factors in thousandths, which keeps the
//! whole parameter domain of the instrument in integers: 20 Hz is
//! `20_000` millihertz, a quality of 0.71 is `710` thousandths. The sine of
//! the design equations is Bhaskara's rational approximation, exact enough
//! that the lowpass keeps unity gain at DC to within a fraction of a
//! percent.

use vstd::arithmetic::div_mod::{
    lemma_div_is_ordered, lemma_div_pos_is_pos, lemma_fundamental_div_mod, lemma_mod_bound,
    lemma_multiply_divide_lt,
};
use vstd::prelude::*;

verus! {

/// Fixed-point scale: the representation of 1.0.
pub const FX_ONE: i64 = 1_048_576;

/// Largest coefficient magnitude the engine stores: 2.0 in fixed point.
/// Normalised biquad coefficients all lie within this bound; the design
/// routine saturates to it so the bound holds unconditionally.
pub const COEFF_LIMIT: i64 = 2_097_152;

/// `pi` at scale [`FX_ONE`], rounded to nearest.
pub const PI_FX: u64 = 3_294_199;

/// `2 * pi` at scale [`FX_ONE`], rounded down.
pub const TWO_PI_FX: u64 = 6_588_397;

/// `pi / 2` at scale [`FX_ONE`], rounded down.
pub const HALF_PI_FX: u64 = 1_647_099;

/// `5 * pi^2` at scale [`FX_ONE`] squared, rounded to nearest.
pub const FIVE_PI_SQ_FX2: u64 = 54_258_724_002_735;

/// Closed set of supported response shapes. Fixed once a filter is
/// constructed; further shapes extend the enumeration without changing the
/// public contract.
#[derive(Clone, Copy, PartialEq, Eq, Structural, Debug)]
pub enum FilterType {
    Lowpass,
}

/// The three scalar parameters that drive the filter: cutoff frequency in
/// millihertz, quality factor in thousandths, and gain in thousandths (the
/// gain is used only by shelving or peaking shapes and is ignored by the
/// pure lowpass). A value object: compared and copied, never mutated.
#[derive(Clone, Copy, PartialEq, Eq, Structural, Debug)]
pub struct FilterParams {
    /// Cutoff frequency in millihertz; must be positive and below the
    /// Nyquist limit of the sample rate to be accepted.
    pub frequency_mhz: u32,
    /// Quality (resonance) factor in thousandths; must be positive to be
    /// accepted.
    pub quality_milli: u32,
    /// Gain in thousandths; unused by the lowpass shape.
    pub gain_milli: i32,
}

/// The five coefficients of the recursive difference equation, at scale
/// [`FX_ONE`].
#[derive(Clone, Copy, PartialEq, Eq, Structural, Debug)]
pub struct Coefficients {
    pub b0: i64,
    pub b1: i64,
    pub b2: i64,
    pub a1: i64,
    pub a2: i64,
}

/// The filter's memory: the two past inputs and the two past outputs.
#[derive(Clone, Copy, PartialEq, Eq, Structural, Debug)]
pub struct DelayState {
    pub x1: i64,
    pub x2: i64,
    pub y1: i64,
    pub y2: i64,
}

/// Configuration errors, detected synchronously and reported to the caller;
/// an invalid setting is never silently clamped.
#[derive(Clone, Copy, PartialEq, Eq, Structural, Debug)]
pub enum ConfigError {
    /// The sample rate was zero.
    InvalidSampleRate,
    /// The frequency was zero or at least the Nyquist limit.
    InvalidFrequency,
    /// The quality factor was zero.
    InvalidQuality,
}

/// A parameter set is valid at a sample rate exactly when the frequency is
/// positive and strictly below half the sample rate, and the quality factor
/// is positive.
pub open spec fn valid_params(p: FilterParams, sample_rate_hz: u32) -> bool {
    0 < p.frequency_mhz && 2 * p.frequency_mhz < 1000 * sample_rate_hz && 0 < p.quality_milli
}

/// Bhaskara's rational approximation of the sine on `[0, pi]`, at scale
/// [`FX_ONE`]: `sin x ~ 16 x (pi - x) / (5 pi^2 - 4 x (pi - x))`, computed
/// with truncating division and saturated at one.
pub open spec fn sin_fx_spec(x: int) -> int
    recommends
        0 <= x <= PI_FX,
{
    let u = x * (PI_FX - x);
    let den = (FIVE_PI_SQ_FX2 - 4 * u) / (FX_ONE as int);
    let r = 16 * u / den;
    if r > FX_ONE { FX_ONE as int } else { r }
}

/// The normalised angular frequency `2 pi f / rate` at scale [`FX_ONE`],
/// with the frequency in millihertz and the rate in hertz.
pub open spec fn omega_fx_spec(frequency_mhz: u32, sample_rate_hz: u32) -> int
    recommends
        sample_rate_hz > 0,
{
    TWO_PI_FX * frequency_mhz / (1000 * sample_rate_hz)
}

/// Saturates a value into `[-COEFF_LIMIT, COEFF_LIMIT]`.
pub open spec fn sat_coeff(v: int) -> int {
    if v > COEFF_LIMIT {
        COEFF_LIMIT as int
    } else if v < -COEFF_LIMIT {
        -COEFF_LIMIT
    } else {
        v
    }
}

/// The lowpass design equations in fixed point, truncating at each division
/// exactly as the executable computation does. The sine and cosine of the
/// angular frequency come from the half-angle identities applied to
/// [`sin_fx_spec`]; `alpha = sin w0 / (2 q)` sets the resonance; the five
/// coefficients are the standard lowpass placement normalised by
/// `a0 = 1 + alpha`.
pub open spec fn lowpass_coeffs_spec(sample_rate_hz: u32, p: FilterParams) -> Coefficients
    recommends
        valid_params(p, sample_rate_hz),
{
    let w0 = omega_fx_spec(p.frequency_mhz, sample_rate_hz);
    let h = w0 / 2;
    let s = sin_fx_spec(h);
    let c = sin_fx_spec(h + HALF_PI_FX);
    let sin0 = 2 * s * c / (FX_ONE as int);
    let cos0 = FX_ONE - 2 * s * s / (FX_ONE as int);
    let alpha = sin0 * 500 / (p.quality_milli as int);
    let a0 = FX_ONE + alpha;
    let b1 = (FX_ONE - cos0) * FX_ONE / a0;
    let b0 = b1 / 2;
    let a1 = if cos0 >= 0 {
        -(2 * cos0 * FX_ONE / a0)
    } else {
        2 * -cos0 * FX_ONE / a0
    };
    let a2 = if alpha <= FX_ONE {
        (FX_ONE - alpha) * FX_ONE / a0
    } else {
        -((alpha - FX_ONE) * FX_ONE / a0)
    };
    Coefficients {
        b0: sat_coeff(b0) as i64,
        b1: sat_coeff(b1) as i64,
        b2: sat_coeff(b0) as i64,
        a1: sat_coeff(a1) as i64,
        a2: sat_coeff(a2) as i64,
    }
}

/// The coefficients a filter of the given type derives from a sample rate
/// and a parameter set: a pure function of exactly that triple.
pub open spec fn coeffs_for(ftype: FilterType, sample_rate_hz: u32, p: FilterParams) -> Coefficients {
    match ftype {
        FilterType::Lowpass => lowpass_coeffs_spec(sample_rate_hz, p),
    }
}

/// All five coefficients lie within [`COEFF_LIMIT`]; this is what bounds the
/// accumulator of the per-sample transform.
pub open spec fn coeffs_bounded(c: Coefficients) -> bool {
    &&& -COEFF_LIMIT <= c.b0 <= COEFF_LIMIT
    &&& -COEFF_LIMIT <= c.b1 <= COEFF_LIMIT
    &&& -COEFF_LIMIT <= c.b2 <= COEFF_LIMIT
    &&& -COEFF_LIMIT <= c.a1 <= COEFF_LIMIT
    &&& -COEFF_LIMIT <= c.a2 <= COEFF_LIMIT
}

/// Division truncating toward zero, as the executable code computes it on
/// signed values (the divisor is positive).
pub open spec fn trunc_div(a: int, d: int) -> int
    recommends
        d > 0,
{
    if a >= 0 {
        a / d
    } else {
        -((-a) / d)
    }
}

/// Saturates a value into the representable sample range.
pub open spec fn sat_sample(v: int) -> int {
    if v > i64::MAX {
        i64::MAX as int
    } else if v < i64::MIN {
        i64::MIN as int
    } else {
        v
    }
}

/// The output of one step of the difference equation
/// `y = b0 x + b1 x1 + b2 x2 - a1 y1 - a2 y2` at scale [`FX_ONE`], truncated
/// and saturated into the sample range.
pub open spec fn tick_output(c: Coefficients, st: DelayState, x: i64) -> int {
    let acc = c.b0 * x + c.b1 * st.x1 + c.b2 * st.x2 - c.a1 * st.y1 - c.a2 * st.y2;
    sat_sample(trunc_div(acc, FX_ONE as int))
}

/// The delay registers after one step: the inputs and outputs each shift by
/// one place.
pub open spec fn shifted(st: DelayState, x: i64, y: i64) -> DelayState {
    DelayState { x1: x, x2: st.x1, y1: y, y2: st.y1 }
}

/// The parameter set a freshly constructed filter starts from: 440 Hz, a
/// quality of 0.71, unity-neutral gain.
pub open spec fn default_params() -> FilterParams {
    FilterParams { frequency_mhz: 440_000, quality_milli: 710, gain_milli: 0 }
}

/// All-zero coefficients: the transform of a filter whose sample rate has
/// not been set yet maps every input to zero.
pub open spec fn zero_coeffs() -> Coefficients {
    Coefficients { b0: 0, b1: 0, b2: 0, a1: 0, a2: 0 }
}

/// Cleared delay registers.
pub open spec fn zero_state() -> DelayState {
    DelayState { x1: 0, x2: 0, y1: 0, y2: 0 }
}

/// Single-channel second-order recursive filter. Invariant: the
/// coefficients are always those derived from the last applied type, sample
/// rate and parameters (and bounded by [`COEFF_LIMIT`]); the delay state
/// persists across parameter changes so that continuous sweeps do not click.
#[derive(Clone, Copy, PartialEq, Eq, Structural, Debug)]
pub struct Filter {
    /// Response shape; immutable once constructed.
    pub ftype: FilterType,
    /// Sample rate in hertz; zero until `set_sample_rate` is first called.
    pub sample_rate_hz: u32,
    /// The last stored parameters.
    pub params: FilterParams,
    /// Coefficients derived from `(ftype, sample_rate_hz, params)`.
    pub coeffs: Coefficients,
    /// The delay registers.
    pub state: DelayState,
}

/// Decides validity of a parameter set at a sample rate, exactly as
/// [`valid_params`] states it.
pub fn params_valid(p: &FilterParams, sample_rate_hz: u32) -> (b: bool)
    ensures
        b == valid_params(*p, sample_rate_hz),
{
    p.frequency_mhz > 0 && (p.frequency_mhz as u64) * 2 < (sample_rate_hz as u64) * 1000
        && p.quality_milli > 0
}

/// Bhaskara's sine approximation on `[0, pi]` in fixed point.
fn sin_fx(x: u64) -> (r: u64)
    requires
        x <= PI_FX,
    ensures
        r == sin_fx_spec(x as int),
        r <= FX_ONE,
{
    proof {
        assert((x as int) * (PI_FX - x as int) <= (PI_FX as int) * (PI_FX as int))
            by (nonlinear_arith)
            requires
                0 <= x <= PI_FX,
        ;
    }
    let u = x * (PI_FX - x);
    let den = (FIVE_PI_SQ_FX2 - 4 * u) / (FX_ONE as u64);
    proof {
        assert(den >= 1) by {
            assert(4 * (u as int) <= 4 * 3_294_199 * 3_294_199);
            assert(FIVE_PI_SQ_FX2 - 4 * (u as int) >= FX_ONE);
            lemma_div_is_ordered(FX_ONE as int, FIVE_PI_SQ_FX2 - 4 * (u as int), FX_ONE as int);
            assert((FX_ONE as int) / (FX_ONE as int) == 1);
        }
    }
    let r = (16 * u) / den;
    if r > FX_ONE as u64 {
        FX_ONE as u64
    } else {
        r
    }
}

/// The normalised angular frequency in fixed point.
fn omega_fx(frequency_mhz: u32, sample_rate_hz: u32) -> (w0: u64)
    requires
        0 < frequency_mhz,
        2 * frequency_mhz < 1000 * sample_rate_hz,
    ensures
        w0 == omega_fx_spec(frequency_mhz, sample_rate_hz),
        w0 <= PI_FX,
{
    let num = TWO_PI_FX * (frequency_mhz as u64);
    let den = 1000 * (sample_rate_hz as u64);
    let w0 = num / den;
    proof {
        assert(num < den * PI_FX) by (nonlinear_arith)
            requires
                num == TWO_PI_FX * frequency_mhz,
                den == 1000 * sample_rate_hz,
                2 * frequency_mhz < 1000 * sample_rate_hz,
                TWO_PI_FX == 6_588_397u64,
                PI_FX == 3_294_199u64,
        ;
        lemma_multiply_divide_lt(num as int, den as int, PI_FX as int);
    }
    w0
}

/// Computes the lowpass coefficients for a valid parameter set.
fn lowpass_coeffs(sample_rate_hz: u32, p: &FilterParams) -> (c: Coefficients)
    requires
        valid_params(*p, sample_rate_hz),
    ensures
        c == lowpass_coeffs_spec(sample_rate_hz, *p),
        coeffs_bounded(c),
{
    let w0 = omega_fx(p.frequency_mhz, sample_rate_hz);
    let h = w0 / 2;
    let s = sin_fx(h);
    let c_half = sin_fx(h + HALF_PI_FX);
    proof {
        assert(2 * (s as int) * (c_half as int) <= 2 * (FX_ONE as int) * (FX_ONE as int)
            && 2 * (s as int) * (s as int) <= 2 * (FX_ONE as int) * (FX_ONE as int))
            by (nonlinear_arith)
            requires
                0 <= s <= FX_ONE,
                0 <= c_half <= FX_ONE,
        ;
    }
    let sin0 = 2 * s * c_half / (FX_ONE as u64);
    let cos_shift = 2 * s * s / (FX_ONE as u64);
    proof {
        assert(sin0 <= 2 * FX_ONE) by {
            lemma_div_is_ordered(
                2 * (s as int) * (c_half as int),
                2 * (FX_ONE as int) * (FX_ONE as int),
                FX_ONE as int,
            );
        }
        assert(cos_shift <= 2 * FX_ONE) by {
            lemma_div_is_ordered(
                2 * (s as int) * (s as int),
                2 * (FX_ONE as int) * (FX_ONE as int),
                FX_ONE as int,
            );
        }
    }
    let cos0: i64 = FX_ONE - cos_shift as i64;
    let alpha = sin0 * 500 / (p.quality_milli as u64);
    let a0 = FX_ONE as u64 + alpha;
    let one_minus_cos: u64 = (FX_ONE - cos0) as u64;
    let b1u = one_minus_cos * (FX_ONE as u64) / a0;
    let b1 = sat_coeff_exec(b1u as i64);
    let b0 = sat_coeff_exec((b1u / 2) as i64);
    let a1mag = if cos0 >= 0 {
        2 * (cos0 as u64) * (FX_ONE as u64) / a0
    } else {
        2 * ((-cos0) as u64) * (FX_ONE as u64) / a0
    };
    let a1 = if cos0 >= 0 {
        sat_coeff_exec(-(a1mag as i64))
    } else {
        sat_coeff_exec(a1mag as i64)
    };
    let a2 = if alpha <= FX_ONE as u64 {
        sat_coeff_exec(((FX_ONE as u64 - alpha) * (FX_ONE as u64) / a0) as i64)
    } else {
        sat_coeff_exec(-(((alpha - FX_ONE as u64) * (FX_ONE as u64) / a0) as i64))
    };
    proof {
        lemma_lowpass_parts_bounded(s as int, c_half as int, sin0 as int, cos0 as int,
            alpha as int, a0 as int);
    }
    Coefficients { b0, b1, b2: b0, a1, a2 }
}

/// Bounds on the intermediate values of the lowpass design: with the sine
/// values at most one, every pre-saturation coefficient magnitude stays
/// within range of `i64` arithmetic.
proof fn lemma_lowpass_parts_bounded(s: int, c_half: int, sin0: int, cos0: int, alpha: int, a0: int)
    requires
        0 <= s <= FX_ONE,
        0 <= c_half <= FX_ONE,
        0 <= sin0 <= 2 * FX_ONE,
        -FX_ONE <= cos0 <= FX_ONE,
        alpha >= 0,
        a0 == FX_ONE + alpha,
    ensures
        (FX_ONE - cos0) * FX_ONE / a0 <= 2 * FX_ONE,
        cos0 >= 0 ==> 2 * cos0 * FX_ONE / a0 <= 2 * FX_ONE,
        cos0 < 0 ==> 2 * (-cos0) * FX_ONE / a0 <= 2 * FX_ONE,
        alpha <= FX_ONE ==> (FX_ONE - alpha) * FX_ONE / a0 <= FX_ONE,
        alpha > FX_ONE ==> (alpha - FX_ONE) * FX_ONE / a0 <= FX_ONE,
{
    assert((FX_ONE - cos0) * FX_ONE <= 2 * FX_ONE * a0) by (nonlinear_arith)
        requires
            -FX_ONE <= cos0 <= FX_ONE,
            a0 >= FX_ONE,
    ;
    assert((FX_ONE - cos0) * FX_ONE / a0 <= 2 * FX_ONE * a0 / a0) by {
        lemma_div_is_ordered((FX_ONE - cos0) * FX_ONE, 2 * FX_ONE * a0, a0);
    }
    assert(2 * FX_ONE * a0 / a0 == 2 * FX_ONE) by (nonlinear_arith)
        requires
            a0 >= FX_ONE,
    ;
    if cos0 >= 0 {
        assert(2 * cos0 * FX_ONE <= 2 * FX_ONE * a0) by (nonlinear_arith)
            requires
                0 <= cos0 <= FX_ONE,
                a0 >= FX_ONE,
        ;
        lemma_div_is_ordered(2 * cos0 * FX_ONE, 2 * FX_ONE * a0, a0);
    } else {
        assert(2 * (-cos0) * FX_ONE <= 2 * FX_ONE * a0) by (nonlinear_arith)
            requires
                -FX_ONE <= cos0 < 0,
                a0 >= FX_ONE,
        ;
        lemma_div_is_ordered(2 * (-cos0) * FX_ONE, 2 * FX_ONE * a0, a0);
    }
    assert(FX_ONE * a0 / a0 == FX_ONE) by (nonlinear_arith)
        requires
            a0 >= FX_ONE,
    ;
    if alpha <= FX_ONE {
        assert((FX_ONE - alpha) * FX_ONE <= FX_ONE * a0) by (nonlinear_arith)
            requires
                0 <= alpha <= FX_ONE,
                a0 == FX_ONE + alpha,
        ;
        lemma_div_is_ordered((FX_ONE - alpha) * FX_ONE, FX_ONE * a0, a0);
    } else {
        assert((alpha - FX_ONE) * FX_ONE <= FX_ONE * a0) by (nonlinear_arith)
            requires
                alpha > FX_ONE,
                a0 == FX_ONE + alpha,
        ;
        lemma_div_is_ordered((alpha - FX_ONE) * FX_ONE, FX_ONE * a0, a0);
    }
}

/// Saturates into the coefficient range, exactly as [`sat_coeff`] states.
fn sat_coeff_exec(v: i64) -> (r: i64)
    ensures
        r == sat_coeff(v as int),
{
    if v > COEFF_LIMIT {
        COEFF_LIMIT
    } else if v < -COEFF_LIMIT {
        -COEFF_LIMIT
    } else {
        v
    }
}

impl Filter {
    /// Well-formedness: the stored coefficients are bounded, which the
    /// per-sample transform relies on.
    pub open spec fn wf(self) -> bool {
        coeffs_bounded(self.coeffs)
    }

    /// Constructs a filter of the given response shape with the default
    /// parameters, no sample rate yet, zero coefficients and cleared delay
    /// registers. `set_sample_rate` must be called before first use.
    pub fn new(ftype: FilterType) -> (f: Filter)
        ensures
            f == (Filter {
                ftype,
                sample_rate_hz: 0,
                params: default_params(),
                coeffs: zero_coeffs(),
                state: zero_state(),
            }),
            f.wf(),
    {
        Filter {
            ftype,
            sample_rate_hz: 0,
            params: FilterParams { frequency_mhz: 440_000, quality_milli: 710, gain_milli: 0 },
            coeffs: Coefficients { b0: 0, b1: 0, b2: 0, a1: 0, a2: 0 },
            state: DelayState { x1: 0, x2: 0, y1: 0, y2: 0 },
        }
    }

    /// Sets the sample rate and recomputes the coefficients from the stored
    /// parameters at the new rate. Fails when the rate is zero, and when
    /// the stored parameters are not valid at the new rate — the stored
    /// frequency at or above the new Nyquist limit, or a non-positive
    /// stored quality — reporting the offending setting, never keeping
    /// stale coefficients silently. On failure nothing changes; the delay
    /// state is never touched.
    pub fn set_sample_rate(&mut self, sample_rate_hz: u32) -> (r: Result<(), ConfigError>)
        requires
            old(self).wf(),
        ensures
            final(self).wf(),
            r is Ok <==> sample_rate_hz > 0 && valid_params(old(self).params, sample_rate_hz),
            r is Ok ==> *final(self) == (Filter {
                sample_rate_hz,
                coeffs: coeffs_for(old(self).ftype, sample_rate_hz, old(self).params),
                ..*old(self)
            }),
            r is Err ==> *final(self) == *old(self),
            sample_rate_hz == 0 ==> r == Err::<(), ConfigError>(ConfigError::InvalidSampleRate),
            (sample_rate_hz > 0 && (old(self).params.frequency_mhz == 0 || 2 * old(
                self,
            ).params.frequency_mhz >= 1000 * sample_rate_hz)) ==> r == Err::<(), ConfigError>(
                ConfigError::InvalidFrequency,
            ),
            (sample_rate_hz > 0 && 0 < old(self).params.frequency_mhz && 2 * old(
                self,
            ).params.frequency_mhz < 1000 * sample_rate_hz && old(self).params.quality_milli == 0)
                ==> r == Err::<(), ConfigError>(ConfigError::InvalidQuality),
    {
        if sample_rate_hz == 0 {
            return Err(ConfigError::InvalidSampleRate);
        }
        if self.params.frequency_mhz == 0 || (self.params.frequency_mhz as u64) * 2 >= (
        sample_rate_hz as u64) * 1000 {
            return Err(ConfigError::InvalidFrequency);
        }
        if self.params.quality_milli == 0 {
            return Err(ConfigError::InvalidQuality);
        }
        self.sample_rate_hz = sample_rate_hz;
        match self.ftype {
            FilterType::Lowpass => {
                self.coeffs = lowpass_coeffs(sample_rate_hz, &self.params);
            },
        }
        Ok(())
    }

    /// Stores a parameter set and recomputes the coefficients. Fails exactly
    /// when the set is invalid at the current sample rate — frequency out of
    /// `(0, rate / 2)` or quality not positive — and then changes nothing:
    /// no partial mutation. On success the delay state is deliberately kept,
    /// so continuous parameter sweeps do not click.
    pub fn set_params(&mut self, params: FilterParams) -> (r: Result<(), ConfigError>)
        requires
            old(self).wf(),
        ensures
            final(self).wf(),
            r is Ok <==> valid_params(params, old(self).sample_rate_hz),
            r is Ok ==> *final(self) == (Filter {
                params,
                coeffs: coeffs_for(old(self).ftype, old(self).sample_rate_hz, params),
                ..*old(self)
            }),
            r is Err ==> *final(self) == *old(self),
            (params.frequency_mhz == 0 || 2 * params.frequency_mhz >= 1000 * old(
                self,
            ).sample_rate_hz) ==> r == Err::<(), ConfigError>(ConfigError::InvalidFrequency),
            (0 < params.frequency_mhz && 2 * params.frequency_mhz < 1000 * old(self).sample_rate_hz
                && params.quality_milli == 0) ==> r == Err::<(), ConfigError>(
                ConfigError::InvalidQuality,
            ),
    {
        if params.frequency_mhz == 0
            || (params.frequency_mhz as u64) * 2 >= (self.sample_rate_hz as u64) * 1000 {
            return Err(ConfigError::InvalidFrequency);
        }
        if params.quality_milli == 0 {
            return Err(ConfigError::InvalidQuality);
        }
        match self.ftype {
            FilterType::Lowpass => {
                self.coeffs = lowpass_coeffs(self.sample_rate_hz, &params);
            },
        }
        self.params = params;
        Ok(())
    }

    /// One step of the per-sample transform: computes
    /// `y = b0 x + b1 x1 + b2 x2 - a1 y1 - a2 y2`, shifts the delay
    /// registers, and returns `y`. Total: any input sample yields an
    /// in-range output, saturated at the representation limits.
    pub fn tick(&mut self, input: i64) -> (output: i64)
        requires
            old(self).wf(),
        ensures
            final(self).wf(),
            output == tick_output(old(self).coeffs, old(self).state, input),
            *final(self) == (Filter {
                state: shifted(old(self).state, input, output),
                ..*old(self)
            }),
    {
        let c = self.coeffs;
        let st = self.state;
        proof {
            lemma_product_bound(c.b0 as int, input as int);
            lemma_product_bound(c.b1 as int, st.x1 as int);
            lemma_product_bound(c.b2 as int, st.x2 as int);
            lemma_product_bound(c.a1 as int, st.y1 as int);
            lemma_product_bound(c.a2 as int, st.y2 as int);
        }
        let acc: i128 = (c.b0 as i128) * (input as i128) + (c.b1 as i128) * (st.x1 as i128) + (
        c.b2 as i128) * (st.x2 as i128) - (c.a1 as i128) * (st.y1 as i128) - (c.a2 as i128) * (
        st.y2 as i128);
        let output: i64 = if acc >= 0 {
            let q = (acc as u128) / (FX_ONE as u128);
            proof {
                lemma_div_is_ordered(q as int, acc as int, 1);
            }
            if q > i64::MAX as u128 {
                i64::MAX
            } else {
                q as i64
            }
        } else {
            let mag = ((-acc) as u128) / (FX_ONE as u128);
            if mag >= 9_223_372_036_854_775_808u128 {
                i64::MIN
            } else {
                -(mag as i64)
            }
        };
        self.state = DelayState { x1: input, x2: st.x1, y1: output, y2: st.y1 };
        output
    }
}

/// The product of a bounded coefficient and any sample magnitude stays far
/// inside the `i128` range.
proof fn lemma_product_bound(coeff: int, sample: int)
    requires
        -COEFF_LIMIT <= coeff <= COEFF_LIMIT,
        i64::MIN <= sample <= i64::MAX,
    ensures
        -0x200_0000_0000_0000_0000_0000 <= coeff * sample <= 0x200_0000_0000_0000_0000_0000,
{
    assert(-0x200_0000_0000_0000_0000_0000 <= coeff * sample <= 0x200_0000_0000_0000_0000_0000)
        by (nonlinear_arith)
        requires
            -COEFF_LIMIT <= coeff <= COEFF_LIMIT,
            i64::MIN <= sample <= i64::MAX,
    ;
}

/// The coefficients a successful parameter update installs are a pure
/// function of the filter type, the sample rate and the parameter set
/// alone: two filters that agree on type and rate derive the same
/// coefficients from the same parameters, whatever their prior coefficients
/// or delay state — so applying the same parameters twice yields the same
/// coefficients both times.
pub proof fn lemma_coeffs_pure(f1: Filter, f2: Filter, p: FilterParams)
    requires
        f1.ftype == f2.ftype,
        f1.sample_rate_hz == f2.sample_rate_hz,
    ensures
        coeffs_for(f1.ftype, f1.sample_rate_hz, p) == coeffs_for(f2.ftype, f2.sample_rate_hz, p),
{
}

/// The fixed-point sine approximation stays within `[0, FX_ONE]` on its
/// whole domain.
pub proof fn lemma_sin_fx_range(x: int)
    requires
        0 <= x <= PI_FX,
    ensures
        0 <= sin_fx_spec(x) <= FX_ONE,
{
    let u = x * (PI_FX - x);
    assert(0 <= u <= (PI_FX as int) * (PI_FX as int)) by (nonlinear_arith)
        requires
            0 <= x <= PI_FX,
            u == x * (PI_FX - x),
    ;
    let den = (FIVE_PI_SQ_FX2 - 4 * u) / (FX_ONE as int);
    assert(den >= 1) by {
        assert(FIVE_PI_SQ_FX2 - 4 * u >= FX_ONE);
        lemma_div_is_ordered(FX_ONE as int, FIVE_PI_SQ_FX2 - 4 * u, FX_ONE as int);
        assert((FX_ONE as int) / (FX_ONE as int) == 1);
    }
    lemma_div_pos_is_pos(16 * u, den);
}

/// At DC the lowpass keeps unity gain up to rounding: for every valid
/// parameter set, the DC numerator `b0 + b1 + b2` and the DC denominator
/// `FX_ONE + a1 + a2` of the derived coefficient set differ by at most four
/// units at scale [`FX_ONE`], whatever the quality factor. This is the
/// static core of the steady-state property: a constant input drives the
/// output toward the input value.
pub proof fn lemma_lowpass_dc_gain(sample_rate_hz: u32, p: FilterParams)
    requires
        valid_params(p, sample_rate_hz),
    ensures
        ({
            let co = lowpass_coeffs_spec(sample_rate_hz, p);
            -4 <= (co.b0 + co.b1 + co.b2) - (FX_ONE + co.a1 + co.a2) <= 2
        }),
{
    let s_one = FX_ONE as int;
    let w0 = omega_fx_spec(p.frequency_mhz, sample_rate_hz);
    assert(0 <= w0 <= PI_FX) by {
        lemma_div_pos_is_pos(
            (TWO_PI_FX as int) * (p.frequency_mhz as int),
            1000 * (sample_rate_hz as int),
        );
        assert((TWO_PI_FX as int) * (p.frequency_mhz as int) < (1000 * (sample_rate_hz as int))
            * (PI_FX as int)) by (nonlinear_arith)
            requires
                2 * (p.frequency_mhz as int) < 1000 * (sample_rate_hz as int),
                TWO_PI_FX == 6_588_397u64,
                PI_FX == 3_294_199u64,
        ;
        lemma_multiply_divide_lt(
            (TWO_PI_FX as int) * (p.frequency_mhz as int),
            1000 * (sample_rate_hz as int),
            PI_FX as int,
        );
    }
    let h = w0 / 2;
    lemma_sin_fx_range(h);
    lemma_sin_fx_range(h + HALF_PI_FX);
    let s = sin_fx_spec(h);
    let c = sin_fx_spec(h + HALF_PI_FX);
    let sin0 = 2 * s * c / s_one;
    let cos_shift = 2 * s * s / s_one;
    assert(2 * s * c <= 2 * s_one * s_one && 2 * s * s <= 2 * s_one * s_one && 0 <= 2 * s * c && 0
        <= 2 * s * s) by (nonlinear_arith)
        requires
            0 <= s <= s_one,
            0 <= c <= s_one,
            s_one == 1_048_576,
    ;
    assert(2 * s_one * s_one / s_one == 2 * s_one) by (nonlinear_arith)
        requires
            s_one == 1_048_576,
    ;
    lemma_div_pos_is_pos(2 * s * c, s_one);
    lemma_div_pos_is_pos(2 * s * s, s_one);
    lemma_div_is_ordered(2 * s * c, 2 * s_one * s_one, s_one);
    lemma_div_is_ordered(2 * s * s, 2 * s_one * s_one, s_one);
    let cos0 = FX_ONE - cos_shift;
    assert(-s_one <= cos0 <= s_one);
    let alpha = sin0 * 500 / (p.quality_milli as int);
    assert(0 <= sin0 * 500) by (nonlinear_arith)
        requires
            sin0 >= 0,
    ;
    lemma_div_pos_is_pos(sin0 * 500, p.quality_milli as int);
    let d = s_one + alpha;
    lemma_lowpass_parts_bounded(s, c, sin0, cos0, alpha, d);
    let xv = (s_one - cos0) * s_one;
    assert(0 <= xv <= 2 * s_one * s_one) by (nonlinear_arith)
        requires
            -s_one <= cos0 <= s_one,
            s_one == 1_048_576,
            xv == (s_one - cos0) * s_one,
    ;
    let b1 = xv / d;
    let b0 = b1 / 2;
    lemma_div_pos_is_pos(xv, d);
    lemma_div_pos_is_pos(b1, 2);
    lemma_fundamental_div_mod(xv, d);
    lemma_mod_bound(xv, d);
    lemma_fundamental_div_mod(b1, 2);
    lemma_mod_bound(b1, 2);
    let co = lowpass_coeffs_spec(sample_rate_hz, p);
    assert(co.b0 == b0 && co.b1 == b1 && co.b2 == b0);
    if cos0 >= 0 {
        let bv = 2 * cos0 * s_one;
        assert(0 <= bv) by (nonlinear_arith)
            requires
                cos0 >= 0,
                s_one == 1_048_576,
                bv == 2 * cos0 * s_one,
        ;
        lemma_div_pos_is_pos(bv, d);
        lemma_fundamental_div_mod(bv, d);
        lemma_mod_bound(bv, d);
        if alpha <= s_one {
            let cv = (s_one - alpha) * s_one;
            assert(0 <= cv) by (nonlinear_arith)
                requires
                    alpha <= s_one,
                    s_one == 1_048_576,
                    cv == (s_one - alpha) * s_one,
            ;
            lemma_div_pos_is_pos(cv, d);
            lemma_fundamental_div_mod(cv, d);
            lemma_mod_bound(cv, d);
            assert(cv - bv == 2 * xv - d * s_one) by (nonlinear_arith)
                requires
                    cv == (s_one - alpha) * s_one,
                    bv == 2 * cos0 * s_one,
                    xv == (s_one - cos0) * s_one,
                    d == s_one + alpha,
            ;
            assert(co.a1 == -(bv / d) && co.a2 == cv / d);
            assert(-4 <= (b0 + b1 + b0) - (s_one + (-(bv / d)) + cv / d) <= 2)
                by (nonlinear_arith)
                requires
                    xv == d * (xv / d) + xv % d,
                    0 <= xv % d < d,
                    bv == d * (bv / d) + bv % d,
                    0 <= bv % d < d,
                    cv == d * (cv / d) + cv % d,
                    0 <= cv % d < d,
                    b1 == 2 * (b1 / 2) + b1 % 2,
                    0 <= b1 % 2 < 2,
                    b1 == xv / d,
                    b0 == b1 / 2,
                    cv - bv == 2 * xv - d * s_one,
                    d >= 1,
            ;
        } else {
            let cv = (alpha - s_one) * s_one;
            assert(0 <= cv) by (nonlinear_arith)
                requires
                    alpha > s_one,
                    s_one == 1_048_576,
                    cv == (alpha - s_one) * s_one,
            ;
            lemma_div_pos_is_pos(cv, d);
            lemma_fundamental_div_mod(cv, d);
            lemma_mod_bound(cv, d);
            assert(bv + cv == d * s_one - 2 * xv) by (nonlinear_arith)
                requires
                    cv == (alpha - s_one) * s_one,
                    bv == 2 * cos0 * s_one,
                    xv == (s_one - cos0) * s_one,
                    d == s_one + alpha,
            ;
            assert(co.a1 == -(bv / d) && co.a2 == -(cv / d));
            assert(-4 <= (b0 + b1 + b0) - (s_one + (-(bv / d)) + (-(cv / d))) <= 2)
                by (nonlinear_arith)
                requires
                    xv == d * (xv / d) + xv % d,
                    0 <= xv % d < d,
                    bv == d * (bv / d) + bv % d,
                    0 <= bv % d < d,
                    cv == d * (cv / d) + cv % d,
                    0 <= cv % d < d,
                    b1 == 2 * (b1 / 2) + b1 % 2,
                    0 <= b1 % 2 < 2,
                    b1 == xv / d,
                    b0 == b1 / 2,
                    bv + cv == d * s_one - 2 * xv,
                    d >= 1,
            ;
        }
    } else {
        let bv = 2 * (-cos0) * s_one;
        assert(0 <= bv) by (nonlinear_arith)
            requires
                cos0 < 0,
                s_one == 1_048_576,
                bv == 2 * (-cos0) * s_one,
        ;
        lemma_div_pos_is_pos(bv, d);
        lemma_fundamental_div_mod(bv, d);
        lemma_mod_bound(bv, d);
        if alpha <= s_one {
            let cv = (s_one - alpha) * s_one;
            assert(0 <= cv) by (nonlinear_arith)
                requires
                    alpha <= s_one,
                    s_one == 1_048_576,
                    cv == (s_one - alpha) * s_one,
            ;
            lemma_div_pos_is_pos(cv, d);
            lemma_fundamental_div_mod(cv, d);
            lemma_mod_bound(cv, d);
            assert(bv + cv == 2 * xv - d * s_one) by (nonlinear_arith)
                requires
                    cv == (s_one - alpha) * s_one,
                    bv == 2 * (-cos0) * s_one,
                    xv == (s_one - cos0) * s_one,
                    d == s_one + alpha,
            ;
            assert(co.a1 == bv / d && co.a2 == cv / d);
            assert(-4 <= (b0 + b1 + b0) - (s_one + bv / d + cv / d) <= 2) by (nonlinear_arith)
                requires
                    xv == d * (xv / d) + xv % d,
                    0 <= xv % d < d,
                    bv == d * (bv / d) + bv % d,
                    0 <= bv % d < d,
                    cv == d * (cv / d) + cv % d,
                    0 <= cv % d < d,
                    b1 == 2 * (b1 / 2) + b1 % 2,
                    0 <= b1 % 2 < 2,
                    b1 == xv / d,
                    b0 == b1 / 2,
                    bv + cv == 2 * xv - d * s_one,
                    d >= 1,
            ;
        } else {
            let cv = (alpha - s_one) * s_one;
            assert(0 <= cv) by (nonlinear_arith)
                requires
                    alpha > s_one,
                    s_one == 1_048_576,
                    cv == (alpha - s_one) * s_one,
            ;
            lemma_div_pos_is_pos(cv, d);
            lemma_fundamental_div_mod(cv, d);
            lemma_mod_bound(cv, d);
            assert(bv - cv == 2 * xv - d * s_one) by (nonlinear_arith)
                requires
                    cv == (alpha - s_one) * s_one,
                    bv == 2 * (-cos0) * s_one,
                    xv == (s_one - cos0) * s_one,
                    d == s_one + alpha,
            ;
            assert(co.a1 == bv / d && co.a2 == -(cv / d));
            assert(-4 <= (b0 + b1 + b0) - (s_one + bv / d + (-(cv / d))) <= 2)
                by (nonlinear_arith)
                requires
                    xv == d * (xv / d) + xv % d,
                    0 <= xv % d < d,
                    bv == d * (bv / d) + bv % d,
                    0 <= bv % d < d,
                    cv == d * (cv / d) + cv % d,
                    0 <= cv % d < d,
                    b1 == 2 * (b1 / 2) + b1 % 2,
                    0 <= b1 % 2 < 2,
                    b1 == xv / d,
                    b0 == b1 / 2,
                    bv - cv == 2 * xv - d * s_one,
                    d >= 1,
            ;
        }
    }
}

/// A steady state of the per-sample transform under a constant input is
/// pinned to the input by the DC gain. When the delay registers hold
/// `(x, x, y, y)`, one more step returns `y` again (and `y` is strictly
/// inside the sample range, so no saturation occurred), the resting value
/// satisfies `|(y - x) * (FX_ONE + a1 + a2)| < FX_ONE + 4 * |x|` for the
/// coefficients of every valid parameter set: relative to the DC
/// denominator, the resting value deviates from the input only by the
/// rounding of one step and of the DC gain itself. Together with the
/// DC-gain bound this pins the value a constant input settles toward,
/// whatever the quality factor; the approach to that value over time is
/// observed by test, not proved.
pub proof fn lemma_dc_steady_state(sample_rate_hz: u32, p: FilterParams, x: i64, y: i64)
    requires
        valid_params(p, sample_rate_hz),
        tick_output(
            lowpass_coeffs_spec(sample_rate_hz, p),
            DelayState { x1: x, x2: x, y1: y, y2: y },
            x,
        ) == y,
        i64::MIN < y < i64::MAX,
    ensures
        ({
            let co = lowpass_coeffs_spec(sample_rate_hz, p);
            let gain_den = FX_ONE + co.a1 + co.a2;
            -(FX_ONE + 4 * vstd::math::abs(x as int)) < (y - x) * gain_den < FX_ONE + 4
                * vstd::math::abs(x as int)
        }),
{
    let s_one = FX_ONE as int;
    let co = lowpass_coeffs_spec(sample_rate_hz, p);
    let acc = co.b0 * x + co.b1 * x + co.b2 * x - co.a1 * y - co.a2 * y;
    let t = trunc_div(acc, s_one);
    assert(t == y);
    if acc >= 0 {
        lemma_fundamental_div_mod(acc, s_one);
        lemma_mod_bound(acc, s_one);
    } else {
        lemma_fundamental_div_mod(-acc, s_one);
        lemma_mod_bound(-acc, s_one);
    }
    assert(-s_one < acc - s_one * y < s_one);
    lemma_lowpass_dc_gain(sample_rate_hz, p);
    let margin = s_one + 4 * vstd::math::abs(x as int);
    assert(-margin < (y - x) * (s_one + co.a1 + co.a2) < margin) by (nonlinear_arith)
        requires
            acc == co.b0 * x + co.b1 * x + co.b2 * x - co.a1 * y - co.a2 * y,
            -s_one < acc - s_one * y < s_one,
            -4 <= (co.b0 + co.b1 + co.b2) - (s_one + co.a1 + co.a2) <= 2,
            margin == s_one + 4 * vstd::math::abs(x as int),
            -vstd::math::abs(x as int) <= x <= vstd::math::abs(x as int),
            s_one == 1_048_576,
    ;
}

/// The per-sample transform can never produce an out-of-range value: for
/// every coefficient set, delay state and input sample the output lies in
/// the representable sample range. Together with `set_params` accepting
/// every valid parameter set, this is the fixed-point counterpart of
/// "finite in, finite out".
pub proof fn lemma_tick_output_in_range(c: Coefficients, st: DelayState, x: i64)
    ensures
        i64::MIN <= tick_output(c, st, x) <= i64::MAX,
{
}

} // verus!
