//! The timer capability's configuration: how often to produce a raw tick.
//! The effective tick period is the longer of the desired period and the
//! shortest period the cap allows.

use vstd::prelude::*;

verus! {

/// The default desired rate, in frames per second.
pub const INTERVAL_DEFAULT: u32 = 1;

/// The default cap on the rate, in frames per second.
pub const MAX_FPS_DEFAULT: u32 = 10;

/// The timer's configuration: the desired tick rate and the cap on it,
/// both in frames per second.
#[derive(Debug)]
pub struct TimerConfig {
    /// The desired tick rate.
    pub interval_fps: u32,
    /// The highest allowed tick rate.
    pub max_fps: u32,
}

impl Default for TimerConfig {
    /// The configuration used when the environment sets nothing.
    fn default() -> (r: TimerConfig)
        ensures
            r.interval_fps == INTERVAL_DEFAULT,
            r.max_fps == MAX_FPS_DEFAULT,
    {
        TimerConfig { interval_fps: INTERVAL_DEFAULT, max_fps: MAX_FPS_DEFAULT }
    }
}

impl TimerConfig {
    /// A configuration from the optional environment settings, each
    /// falling back to its default.
    pub fn new(interval_fps: Option<u32>, max_fps: Option<u32>) -> (r: TimerConfig)
        ensures
            r.interval_fps == (match interval_fps {
                Some(v) => v,
                None => INTERVAL_DEFAULT,
            }),
            r.max_fps == (match max_fps {
                Some(v) => v,
                None => MAX_FPS_DEFAULT,
            }),
    {
        TimerConfig {
            interval_fps: match interval_fps {
                Some(v) => v,
                None => INTERVAL_DEFAULT,
            },
            max_fps: match max_fps {
                Some(v) => v,
                None => MAX_FPS_DEFAULT,
            },
        }
    }

    /// The tick period in milliseconds: the desired period, but never
    /// shorter than the cap allows.
    pub fn get_delay_ms(&self) -> (r: u64)
        requires
            self.interval_fps >= 1,
            self.max_fps >= 1,
        ensures
            r as int == if 1000int / (self.interval_fps as int) >= 1000int / (self.max_fps as int) {
                1000int / (self.interval_fps as int)
            } else {
                1000int / (self.max_fps as int)
            },
    {
        let delay_at_max: u64 = 1000u64 / (self.max_fps as u64);
        let desired_delay: u64 = 1000u64 / (self.interval_fps as u64);
        if desired_delay >= delay_at_max {
            desired_delay
        } else {
            delay_at_max
        }
    }
}

} // verus!
