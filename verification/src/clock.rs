//! The frame clock: deriving delta-time, frames-per-second and
//! milliseconds-per-frame from a monotonic high-resolution counter.
//!
//! The counter itself lives behind the presentation boundary; the clock
//! is handed each new sample and keeps only the previous one.

use vstd::prelude::*;
use crate::fixed::FIXED_ONE;

verus! {

/// Largest counter advance between two frames the clock admits.
pub const ELAPSED_LIMIT: u64 = 1_000_000_000_000;

/// Largest counter frequency (ticks per second) the clock admits.
pub const FREQ_LIMIT: u64 = 1_000_000_000_000;

/// What one clock tick derives, each value in fixed-point steps:
/// seconds elapsed since the previous frame, frames per second, and
/// milliseconds per frame.
#[derive(Clone, Copy, Debug, PartialEq, Eq, Structural)]
pub struct FrameMetrics {
    pub delta_time: i64,
    pub fps: i64,
    pub ms_per_frame: i64,
}

/// The frame clock: the previous counter sample and the counter's fixed
/// frequency in ticks per second.
#[derive(Clone, Copy, Debug, PartialEq, Eq, Structural)]
pub struct FrameClock {
    pub last_counter: u64,
    pub frequency: u64,
}

impl FrameClock {
    /// The clock is usable: its frequency is positive and small enough
    /// that every derived value fits a fixed-point scalar.
    pub open spec fn wf(self) -> bool {
        1 <= self.frequency <= FREQ_LIMIT
    }

    /// A clock over a counter of the given frequency, starting from the
    /// given sample.
    pub fn new(initial_counter: u64, frequency: u64) -> (r: FrameClock)
        requires
            1 <= frequency <= FREQ_LIMIT,
        ensures
            r.last_counter == initial_counter,
            r.frequency == frequency,
            r.wf(),
    {
        FrameClock { last_counter: initial_counter, frequency }
    }

    /// Advance the clock to a new counter sample and derive the frame
    /// metrics, exactly:
    /// `delta_time = elapsed / frequency` seconds,
    /// `ms_per_frame = 1000 * delta_time`, and
    /// `fps = frequency / elapsed`, each rounded down onto the
    /// fixed-point grid.  A frame of zero elapsed ticks would divide by
    /// zero in the frames-per-second rule; the clock then reports the
    /// sentinel `fps == 0` rather than fail.
    pub fn tick(&mut self, new_counter: u64) -> (m: FrameMetrics)
        requires
            old(self).wf(),
            old(self).last_counter <= new_counter,
            new_counter - old(self).last_counter <= ELAPSED_LIMIT,
        ensures
            final(self).last_counter == new_counter,
            final(self).frequency == old(self).frequency,
            final(self).wf(),
            ({
                let elapsed = new_counter - old(self).last_counter;
                let freq = old(self).frequency as int;
                &&& m.delta_time == (elapsed * FIXED_ONE) as int / freq
                &&& m.ms_per_frame == (elapsed * 1000 * FIXED_ONE) as int / freq
                &&& elapsed > 0 ==> m.fps == (old(self).frequency * FIXED_ONE) as int / elapsed as int
                &&& elapsed == 0 ==> m.fps == 0
                &&& 0 <= m.delta_time
                &&& 0 <= m.fps
                &&& 0 <= m.ms_per_frame
            }),
    {
        let elapsed: u64 = new_counter - self.last_counter;
        let freq: u64 = self.frequency;
        let delta_time: u64 = elapsed * (FIXED_ONE as u64) / freq;
        let ms_per_frame: u64 = elapsed * 1000 * (FIXED_ONE as u64) / freq;
        let fps: u64 = if elapsed == 0 {
            0
        } else {
            freq * (FIXED_ONE as u64) / elapsed
        };
        proof {
            vstd::arithmetic::div_mod::lemma_div_nonincreasing(
                (elapsed * 1000 * FIXED_ONE) as int,
                freq as int,
            );
            vstd::arithmetic::div_mod::lemma_div_is_ordered(
                (elapsed * FIXED_ONE) as int,
                (elapsed * 1000 * FIXED_ONE) as int,
                freq as int,
            );
            if elapsed > 0 {
                vstd::arithmetic::div_mod::lemma_div_nonincreasing(
                    (freq * FIXED_ONE) as int,
                    elapsed as int,
                );
            }
        }
        self.last_counter = new_counter;
        FrameMetrics {
            delta_time: delta_time as i64,
            fps: fps as i64,
            ms_per_frame: ms_per_frame as i64,
        }
    }
}

} // verus!
