//! Cycle-counter arithmetic for the benchmarking harness.
//!
//! The harness wraps a unit of work between two readings of a free-running
//! 32-bit hardware cycle counter. The reading itself is hardware work and
//! lives outside this crate; what is verified here is the arithmetic: the
//! elapsed count including a possible counter wraparound, and the conversion
//! of cycles into a wall-clock duration at a known core clock frequency.

use vstd::prelude::*;

verus! {

/// Milliseconds in one second.
pub const MS: u32 = 1_000;

/// Microseconds in one second.
pub const US: u32 = 1_000_000;

/// Nanoseconds in one second.
pub const NS: u32 = 1_000_000_000;

/// Unit in which a measured duration is reported.
#[derive(Clone, Copy, PartialEq, Eq, Structural, Debug)]
pub enum TimeScale {
    Milli,
    Micro,
    Nano,
}

impl TimeScale {
    /// How many of this unit make up one second.
    pub open spec fn units_per_second(self) -> u32 {
        match self {
            TimeScale::Milli => MS,
            TimeScale::Micro => US,
            TimeScale::Nano => NS,
        }
    }

    /// Executable counterpart of `units_per_second`.
    pub fn units(self) -> (u: u32)
        ensures
            u == self.units_per_second(),
    {
        match self {
            TimeScale::Milli => MS,
            TimeScale::Micro => US,
            TimeScale::Nano => NS,
        }
    }
}

/// Count of distinct values of the 32-bit cycle counter.
pub open spec fn counter_modulus() -> int {
    0x1_0000_0000
}

/// Cycles elapsed from the reading `before` to the reading `after` of a
/// free-running 32-bit counter, assuming at most one wraparound in between.
pub open spec fn elapsed_spec(before: u32, after: u32) -> int {
    if after >= before {
        after - before
    } else {
        counter_modulus() - before + after
    }
}

/// Duration, in the given unit, of `cycles` cycles at `clock_hz` cycles per
/// second, rounded down.
pub open spec fn duration_spec(cycles: int, clock_hz: u32, scale: TimeScale) -> int {
    cycles * scale.units_per_second() / clock_hz as int
}

/// Elapsed cycles between two readings of the cycle counter. When the
/// counter wrapped between the readings, the elapsed count is
/// `(max counter value - before) + after + 1`, never an underflow.
pub fn elapsed_cycles(before: u32, after: u32) -> (elapsed: u32)
    ensures
        elapsed == elapsed_spec(before, after),
        elapsed == (after - before + counter_modulus()) % counter_modulus(),
{
    if after >= before {
        after - before
    } else {
        (u32::MAX - before) + after + 1
    }
}

/// Converts a cycle count into a duration in the given unit at a core clock
/// of `clock_hz` cycles per second.
pub fn cycles_to_duration(cycles: u32, clock_hz: u32, scale: TimeScale) -> (t: u64)
    requires
        clock_hz > 0,
    ensures
        t == duration_spec(cycles as int, clock_hz, scale),
{
    let units: u32 = scale.units();
    proof {
        assert((cycles as int) * (units as int) <= 0xFFFF_FFFFi64 * 1_000_000_000i64)
            by (nonlinear_arith)
            requires
                cycles <= 0xFFFF_FFFFu32,
                units <= 1_000_000_000u32,
        ;
    }
    ((cycles as u64) * (units as u64)) / (clock_hz as u64)
}

/// Duration of the span between two counter readings, in the given unit:
/// the composition of `elapsed_cycles` and `cycles_to_duration`, matching
/// how a measurement wraps a unit of work.
pub fn measured_duration(before: u32, after: u32, clock_hz: u32, scale: TimeScale) -> (t: u64)
    requires
        clock_hz > 0,
    ensures
        t == duration_spec(elapsed_spec(before, after), clock_hz, scale),
{
    let cycles = elapsed_cycles(before, after);
    cycles_to_duration(cycles, clock_hz, scale)
}

} // verus!
