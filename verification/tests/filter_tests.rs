//! Tests for the single-channel filter: parameter validation, coefficient
//! purity, and the fixed-point per-sample transform.

use daisy_kickstart::filter::{
    params_valid, ConfigError, Filter, FilterParams, FilterType, FX_ONE,
};

fn params(frequency_mhz: u32, quality_milli: u32) -> FilterParams {
    FilterParams { frequency_mhz, quality_milli, gain_milli: 0 }
}

fn configured(frequency_mhz: u32, quality_milli: u32) -> Filter {
    let mut f = Filter::new(FilterType::Lowpass);
    assert!(f.set_sample_rate(48_000).is_ok());
    assert!(f.set_params(params(frequency_mhz, quality_milli)).is_ok());
    f
}

#[test]
fn sample_rate_zero_is_rejected() {
    let mut f = Filter::new(FilterType::Lowpass);
    assert_eq!(f.set_sample_rate(0), Err(ConfigError::InvalidSampleRate));
    // Nothing set yet, so every parameter set is rejected too.
    assert_eq!(
        f.set_params(params(1_000_000, 710)),
        Err(ConfigError::InvalidFrequency)
    );
}

#[test]
fn valid_params_are_accepted() {
    let mut f = Filter::new(FilterType::Lowpass);
    assert!(f.set_sample_rate(48_000).is_ok());
    assert_eq!(f.set_params(params(1_000_000, 710)), Ok(()));
    // Just below the Nyquist limit of 24 kHz.
    assert_eq!(f.set_params(params(23_999_999, 710)), Ok(()));
}

#[test]
fn invalid_params_leave_filter_unchanged() {
    let mut f = configured(1_000_000, 710);
    let coeffs_before = f.coeffs;
    let _ = f.tick(FX_ONE);
    let state_before = f.state;
    let params_before = f.params;

    // Zero frequency.
    assert_eq!(f.set_params(params(0, 710)), Err(ConfigError::InvalidFrequency));
    // Frequency at the Nyquist limit (24 kHz at a 48 kHz rate).
    assert_eq!(
        f.set_params(params(24_000_000, 710)),
        Err(ConfigError::InvalidFrequency)
    );
    // Frequency above the Nyquist limit.
    assert_eq!(
        f.set_params(params(30_000_000, 710)),
        Err(ConfigError::InvalidFrequency)
    );
    // Zero quality.
    assert_eq!(f.set_params(params(1_000_000, 0)), Err(ConfigError::InvalidQuality));

    // No partial mutation on any failure.
    assert_eq!(f.coeffs, coeffs_before);
    assert_eq!(f.state, state_before);
    assert_eq!(f.params, params_before);
}

#[test]
fn params_valid_agrees_with_set_params() {
    let mut f = Filter::new(FilterType::Lowpass);
    assert!(f.set_sample_rate(48_000).is_ok());
    let cases = [
        params(1_000_000, 710),
        params(0, 710),
        params(24_000_000, 710),
        params(1_000_000, 0),
    ];
    for p in cases {
        assert_eq!(params_valid(&p, 48_000), f.set_params(p).is_ok());
    }
}

#[test]
fn rate_change_that_invalidates_stored_params_is_rejected() {
    let mut f = configured(1_000_000, 710);
    let before = f;
    // At 1 kHz the stored 1 kHz cutoff sits above the new 500 Hz Nyquist
    // limit: the change is reported, never applied with stale
    // coefficients.
    assert_eq!(f.set_sample_rate(1_000), Err(ConfigError::InvalidFrequency));
    assert_eq!(f, before);
    // A rate that keeps the stored parameters valid is accepted and the
    // coefficients are recomputed for it.
    assert_eq!(f.set_sample_rate(96_000), Ok(()));
    assert_eq!(f.sample_rate_hz, 96_000);
    assert_ne!(f.coeffs, before.coeffs);
}

#[test]
fn same_params_give_same_coefficients() {
    let mut f = configured(1_000_000, 710);
    let first = f.coeffs;
    // Run some audio through, then apply the identical parameters again.
    for _ in 0..100 {
        let _ = f.tick(FX_ONE / 3);
    }
    assert!(f.set_params(params(1_000_000, 710)).is_ok());
    assert_eq!(f.coeffs, first);

    // A second filter with a different history derives the same values.
    let g = configured(1_000_000, 710);
    assert_eq!(g.coeffs, first);
}

#[test]
fn lowpass_coefficients_exact_value() {
    // 1 kHz cutoff, quality 0.71, at 48 kHz: the fixed-point design
    // equations give exactly these five values at scale 2^20.
    let f = configured(1_000_000, 710);
    assert_eq!(f.coeffs.b0, 4_223);
    assert_eq!(f.coeffs.b1, 8_447);
    assert_eq!(f.coeffs.b2, 4_223);
    assert_eq!(f.coeffs.a1, -1_901_358);
    assert_eq!(f.coeffs.a2, 869_676);
}

#[test]
fn tick_impulse_response_exact_values() {
    let mut f = configured(1_000_000, 710);
    let mut outputs = Vec::new();
    outputs.push(f.tick(FX_ONE));
    for _ in 0..4 {
        outputs.push(f.tick(0));
    }
    assert_eq!(outputs, vec![4_223, 16_104, 29_921, 40_898, 49_343]);
}

#[test]
fn tick_before_sample_rate_outputs_zero() {
    let mut f = Filter::new(FilterType::Lowpass);
    assert_eq!(f.tick(FX_ONE), 0);
    assert_eq!(f.tick(-FX_ONE), 0);
}

#[test]
fn dc_input_converges_to_unity_gain() {
    // A constant input converges toward the same output value, whatever
    // the quality factor: the lowpass has unity gain at DC.
    for quality_milli in [710u32, 4_000u32] {
        let mut f = configured(1_000_000, quality_milli);
        let mut y = 0i64;
        for _ in 0..8_000 {
            y = f.tick(FX_ONE);
        }
        let error = (y - FX_ONE).abs();
        assert!(
            error <= FX_ONE / 500,
            "quality {quality_milli}: converged to {y}, expected near {FX_ONE}"
        );
    }
}

#[test]
fn delay_state_survives_parameter_change() {
    let mut f = configured(1_000_000, 710);
    let _ = f.tick(FX_ONE);
    let _ = f.tick(FX_ONE / 2);
    let state_before = f.state;
    assert!(f.set_params(params(2_000_000, 1_000)).is_ok());
    // Parameter sweeps must not click: the delay registers are kept.
    assert_eq!(f.state, state_before);
}
