//! Tests for the stereo processor and the combined audio-task step.

use daisy_kickstart::channel::ParamChannel;
use daisy_kickstart::filter::{Filter, FilterParams, FilterType, FX_ONE};
use daisy_kickstart::processor::{
    audio_task_step, AudioFrame, Processor, BLOCK_LENGTH, SAMPLE_RATE_HZ,
};

fn params(frequency_mhz: u32, quality_milli: u32, gain_milli: i32) -> FilterParams {
    FilterParams { frequency_mhz, quality_milli, gain_milli }
}

fn dc_block() -> Vec<AudioFrame> {
    vec![AudioFrame { left: FX_ONE, right: FX_ONE }; BLOCK_LENGTH]
}

#[test]
fn new_processor_is_consistent_across_channels() {
    let p = Processor::new();
    assert_eq!(p.filter_left.sample_rate_hz, SAMPLE_RATE_HZ);
    assert_eq!(p.filter_left.coeffs, p.filter_right.coeffs);
    assert_eq!(p.filter_left.params, p.filter_right.params);
}

#[test]
fn update_applies_to_both_channels() {
    let mut p = Processor::new();
    assert_eq!(p.update(params(1_000_000, 710, 1_000)), Ok(()));
    assert_eq!(p.filter_left.params, params(1_000_000, 710, 1_000));
    assert_eq!(p.filter_right.params, params(1_000_000, 710, 1_000));
    assert_eq!(p.filter_left.coeffs, p.filter_right.coeffs);
}

#[test]
fn invalid_update_propagates_and_changes_nothing() {
    let mut p = Processor::new();
    assert!(p.update(params(1_000_000, 710, 0)).is_ok());
    let left_before = p.filter_left;
    let right_before = p.filter_right;
    // 24 kHz is the Nyquist limit at the fixed 48 kHz rate.
    assert!(p.update(params(24_000_000, 710, 0)).is_err());
    assert!(p.update(params(0, 710, 0)).is_err());
    assert!(p.update(params(1_000_000, 0, 0)).is_err());
    assert_eq!(p.filter_left, left_before);
    assert_eq!(p.filter_right, right_before);
}

#[test]
fn end_to_end_block_is_channel_symmetric() {
    // Construct at the fixed 48 kHz rate, apply 1 kHz / 0.71 / gain 1.0,
    // and process one block of 32 identical frames: both channels share
    // parameters and input, so the output must match sample for sample.
    let mut p = Processor::new();
    assert_eq!(p.update(params(1_000_000, 710, 1_000)), Ok(()));
    let mut block = dc_block();
    p.process(&mut block);
    assert_eq!(block.len(), BLOCK_LENGTH);
    for frame in &block {
        assert_eq!(frame.left, frame.right);
        assert!(frame.left.abs() <= 2 * FX_ONE);
    }
    // And the filters end in identical states.
    assert_eq!(p.filter_left.state, p.filter_right.state);
}

#[test]
fn process_matches_a_single_filter_run() {
    let mut p = Processor::new();
    assert!(p.update(params(1_000_000, 710, 0)).is_ok());
    let mut block = dc_block();
    p.process(&mut block);

    let mut reference = Filter::new(FilterType::Lowpass);
    assert!(reference.set_sample_rate(SAMPLE_RATE_HZ).is_ok());
    assert!(reference.set_params(params(1_000_000, 710, 0)).is_ok());
    for frame in &block {
        let expected = reference.tick(FX_ONE);
        assert_eq!(frame.left, expected);
    }
}

#[test]
fn audio_task_step_applies_only_the_latest_params() {
    let mut p = Processor::new();
    let mut ch = ParamChannel::new();
    assert!(ch.try_publish(params(500_000, 500, 0)));
    assert!(ch.try_publish(params(2_000_000, 1_500, 0)));
    assert!(ch.try_publish(params(4_000_000, 3_000, 0)));

    let mut block = dc_block();
    let drained = audio_task_step(&mut p, &mut ch, &mut block);
    // The drain coalesces: exactly one update happened, with the last
    // published value; the earlier two were never applied.
    assert_eq!(drained, Some(params(4_000_000, 3_000, 0)));
    assert_eq!(p.filter_left.params, params(4_000_000, 3_000, 0));
    assert_eq!(p.filter_right.params, params(4_000_000, 3_000, 0));
    // The channel is empty afterwards.
    assert_eq!(ch.coalescing_drain(), None);
}

#[test]
fn audio_task_step_without_pending_params_keeps_configuration() {
    let mut p = Processor::new();
    assert!(p.update(params(1_000_000, 710, 0)).is_ok());
    let coeffs_before = p.filter_left.coeffs;
    let mut ch = ParamChannel::new();
    let mut block = dc_block();
    let drained = audio_task_step(&mut p, &mut ch, &mut block);
    assert_eq!(drained, None);
    assert_eq!(p.filter_left.coeffs, coeffs_before);
}

#[test]
fn audio_task_step_ignores_an_invalid_pending_set() {
    let mut p = Processor::new();
    assert!(p.update(params(1_000_000, 710, 0)).is_ok());
    let params_before = p.filter_left.params;
    let mut ch = ParamChannel::new();
    // A raw producer could publish an out-of-range set; the step drains
    // it but the processor keeps its configuration.
    assert!(ch.try_publish(params(0, 710, 0)));
    let mut block = dc_block();
    let drained = audio_task_step(&mut p, &mut ch, &mut block);
    assert_eq!(drained, Some(params(0, 710, 0)));
    assert_eq!(p.filter_left.params, params_before);
}
