//! Tests for the control-sampler mappings from raw knob readings to filter
//! parameters.

use daisy_kickstart::channel::ParamChannel;
use daisy_kickstart::filter::FilterParams;
use daisy_kickstart::processor::Processor;
use daisy_kickstart::sampler::{
    derive_params, map_frequency, map_quality, sample_and_publish, MAX_FREQ_MHZ, MAX_Q_MILLI,
    MIN_FREQ_MHZ, MIN_Q_MILLI,
};

#[test]
fn quality_mapping_endpoints_and_midpoint() {
    // Linear interpolation from 0.1 to 6.0.
    assert_eq!(map_quality(0), MIN_Q_MILLI);
    assert_eq!(map_quality(65_535), MAX_Q_MILLI);
    assert_eq!(map_quality(32_768), 3_050);
}

#[test]
fn frequency_mapping_endpoints() {
    // Knob fully down: exactly 20 Hz.
    assert_eq!(map_frequency(0), MIN_FREQ_MHZ);
    // Knob fully up: the interpolation would land a fraction of a percent
    // above the top of the range and is capped at exactly 20 kHz.
    assert_eq!(map_frequency(65_535), MAX_FREQ_MHZ);
    assert_eq!(map_frequency(65_534), MAX_FREQ_MHZ);
}

#[test]
fn frequency_mapping_is_exponential() {
    // Half travel lands near the geometric mean of 20 Hz and 20 kHz
    // (about 632.5 Hz), not near the arithmetic midpoint of 10 kHz.
    assert_eq!(map_frequency(32_768), 632_707);
    assert_eq!(map_frequency(16_384), 112_445);
}

#[test]
fn frequency_mapping_is_monotone_on_a_grid() {
    let mut previous = map_frequency(0);
    for step in 1..=1_024u32 {
        let raw = (step * 64 - 1).min(65_535) as u16;
        let value = map_frequency(raw);
        assert!(value >= previous, "not monotone at raw {raw}");
        previous = value;
    }
}

#[test]
fn derived_params_are_always_accepted() {
    // The mapping stays inside the filter's valid domain by construction,
    // so an update with a derived set can never fail.
    let mut p = Processor::new();
    for raw in [0u16, 1, 17, 1_000, 32_768, 65_534, 65_535] {
        let params = derive_params(raw, raw);
        assert_eq!(p.update(params), Ok(()));
    }
}

#[test]
fn derived_gain_is_the_fixed_constant() {
    let params = derive_params(12_345, 54_321);
    assert_eq!(params.gain_milli, 0);
}

#[test]
fn sample_and_publish_reaches_the_consumer() {
    let mut ch = ParamChannel::new();
    assert!(sample_and_publish(&mut ch, 32_768, 32_768));
    let expected = FilterParams {
        frequency_mhz: 632_707,
        quality_milli: 3_050,
        gain_milli: 0,
    };
    assert_eq!(ch.coalescing_drain(), Some(expected));
}
