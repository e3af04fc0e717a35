//! Tests for the bounded non-blocking parameter channel and its coalescing
//! drain.

use daisy_kickstart::channel::{ParamChannel, CHANNEL_CAPACITY};
use daisy_kickstart::filter::FilterParams;

fn params(frequency_mhz: u32) -> FilterParams {
    FilterParams { frequency_mhz, quality_milli: 710, gain_milli: 0 }
}

#[test]
fn empty_channel_drains_to_nothing() {
    let mut ch = ParamChannel::new();
    assert_eq!(ch.coalescing_drain(), None);
    assert_eq!(ch.coalescing_drain(), None);
}

#[test]
fn drain_keeps_only_the_most_recent() {
    let mut ch = ParamChannel::new();
    assert!(ch.try_publish(params(100_000)));
    assert!(ch.try_publish(params(200_000)));
    assert!(ch.try_publish(params(300_000)));
    // Exactly the last published value survives; the earlier two are
    // discarded, never observable again.
    assert_eq!(ch.coalescing_drain(), Some(params(300_000)));
    assert_eq!(ch.coalescing_drain(), None);
}

#[test]
fn publish_to_full_channel_fails_without_side_effect() {
    let mut ch = ParamChannel::new();
    for i in 0..CHANNEL_CAPACITY {
        assert!(ch.try_publish(params(1_000 * (i as u32 + 1))));
    }
    // The channel is full: the new value is rejected immediately.
    assert!(!ch.try_publish(params(999_999)));
    assert!(!ch.try_publish(params(888_888)));
    // The consumer still sees the last accepted value, not the rejected
    // ones.
    assert_eq!(
        ch.coalescing_drain(),
        Some(params(1_000 * CHANNEL_CAPACITY as u32))
    );
    // After the drain there is room again.
    assert!(ch.try_publish(params(777_777)));
    assert_eq!(ch.coalescing_drain(), Some(params(777_777)));
}

#[test]
fn capacity_is_one_less_than_the_ring_slots() {
    let mut ch = ParamChannel::new();
    for i in 0..CHANNEL_CAPACITY {
        assert!(ch.try_publish(params(i as u32 + 1)), "slot {i} should accept");
    }
    assert!(!ch.try_publish(params(0)));
}
