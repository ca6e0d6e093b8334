//! Timing and retry configuration, with the values the node ships with.

use vstd::prelude::*;

verus! {

/// Period between two sampling cycles, in milliseconds.
pub const SAMPLE_PERIOD_MILLIS: u64 = 100;

/// How long a conversion waits for the converter to signal a result, in
/// microseconds.
pub const READY_TIMEOUT_MICROS: u32 = 50_000;

/// Pause between two looks at the data line while waiting for a result, in
/// microseconds.
pub const READY_POLL_MICROS: u32 = 10;

/// Minimum time the clock line is held high for one pulse, in microseconds.
pub const CLOCK_HIGH_MICROS: u32 = 1;

/// Minimum time the clock line is held low after one pulse, in microseconds.
pub const CLOCK_LOW_MICROS: u32 = 1;

/// Longest time the clock line may stay high within a pulse, in microseconds.
/// A converter that sees the clock high for longer powers down and loses the
/// conversion.
pub const CLOCK_HIGH_LIMIT_MICROS: u32 = 50;

/// Number of conversions the start-up calibration attempts at most.
pub const CALIBRATION_ATTEMPTS: u32 = 10;

/// Settling delay after a failed calibration attempt, in processor cycles.
pub const CALIBRATION_SETTLE_CYCLES: u32 = 1_000_000;

/// Timing of one conversion on the two-wire interface. All times are in
/// microseconds.
#[derive(Clone, Copy, Debug, PartialEq, Eq, Structural)]
pub struct Timing {
    /// Time after which a conversion that saw no result gives up.
    pub ready_timeout_micros: u32,
    /// Pause before each look at the data line while waiting for a result.
    pub ready_poll_micros: u32,
    /// Minimum high time of a clock pulse.
    pub clock_high_micros: u32,
    /// Minimum low time after a clock pulse.
    pub clock_low_micros: u32,
    /// Longest high time of a clock pulse that the converter tolerates.
    pub clock_high_limit_micros: u32,
}

impl Timing {
    /// The timing built from the constants of this module.
    pub open spec fn standard_spec() -> Timing {
        Timing {
            ready_timeout_micros: READY_TIMEOUT_MICROS,
            ready_poll_micros: READY_POLL_MICROS,
            clock_high_micros: CLOCK_HIGH_MICROS,
            clock_low_micros: CLOCK_LOW_MICROS,
            clock_high_limit_micros: CLOCK_HIGH_LIMIT_MICROS,
        }
    }

    /// The timing built from the constants of this module.
    pub fn standard() -> (timing: Timing)
        ensures
            timing == Timing::standard_spec(),
    {
        Timing {
            ready_timeout_micros: READY_TIMEOUT_MICROS,
            ready_poll_micros: READY_POLL_MICROS,
            clock_high_micros: CLOCK_HIGH_MICROS,
            clock_low_micros: CLOCK_LOW_MICROS,
            clock_high_limit_micros: CLOCK_HIGH_LIMIT_MICROS,
        }
    }
}

} // verus!
