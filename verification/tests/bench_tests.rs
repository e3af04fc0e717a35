//! Tests for the cycle-counter arithmetic of the benchmark harness.

use daisy_kickstart::bench::{
    cycles_to_duration, elapsed_cycles, measured_duration, TimeScale, MS, NS, US,
};

#[test]
fn elapsed_without_wraparound() {
    assert_eq!(elapsed_cycles(100, 350), 250);
    assert_eq!(elapsed_cycles(0, 0), 0);
    assert_eq!(elapsed_cycles(7, 7), 0);
}

#[test]
fn elapsed_across_wraparound() {
    // The counter wrapped: 0x10 - 0xFFFF_FFF0 modulo 2^32 is exactly 0x20.
    assert_eq!(elapsed_cycles(0xFFFF_FFF0, 0x0000_0010), 0x20);
    // One single tick across the wrap boundary.
    assert_eq!(elapsed_cycles(0xFFFF_FFFF, 0x0000_0000), 1);
}

#[test]
fn wraparound_duration_at_400_mhz() {
    let cycles = elapsed_cycles(0xFFFF_FFF0, 0x0000_0010);
    assert_eq!(cycles, 32);
    // 32 cycles at 400 MHz are 80 nanoseconds.
    assert_eq!(cycles_to_duration(cycles, 400_000_000, TimeScale::Nano), 80);
    assert_eq!(
        measured_duration(0xFFFF_FFF0, 0x0000_0010, 400_000_000, TimeScale::Nano),
        80
    );
}

#[test]
fn duration_in_each_scale() {
    // One full second worth of cycles at 48 MHz.
    assert_eq!(cycles_to_duration(48_000_000, 48_000_000, TimeScale::Milli), 1_000);
    assert_eq!(cycles_to_duration(48_000_000, 48_000_000, TimeScale::Micro), 1_000_000);
    assert_eq!(
        cycles_to_duration(48_000_000, 48_000_000, TimeScale::Nano),
        1_000_000_000
    );
    assert_eq!(MS, 1_000);
    assert_eq!(US, 1_000_000);
    assert_eq!(NS, 1_000_000_000);
}

#[test]
fn duration_rounds_down() {
    // 3 cycles at 400 MHz are 7.5 ns; the conversion truncates.
    assert_eq!(cycles_to_duration(3, 400_000_000, TimeScale::Nano), 7);
}
