//! Frame pacing: how long to wait after a frame's work so that frames follow
//! one another at the configured rate.
//!
//! The controller only decides.  Reading the clock and sleeping are done by
//! the program that runs the frame loop.

use vstd::prelude::*;

verus! {

/// The number of microseconds in a second.
pub const MICROS_PER_SECOND: u128 = 1_000_000;

/// Holds the time that one frame may take.
#[derive(Clone, Copy, Debug, PartialEq, Eq, Structural)]
pub struct FrameController {
    pub budget_micros: u128,
}

/// What to do once a frame's work is complete.
#[derive(Clone, Copy, Debug, PartialEq, Eq, Structural)]
pub enum Pacing {
    /// The work took `elapsed` of a budget of `budget` microseconds: sleep
    /// for `remaining`.
    Sleep { elapsed: u128, budget: u128, remaining: u128 },
    /// The work took longer than the budget: report it and go on at once.
    Overrun { elapsed: u128, budget: u128 },
}

/// The pacing of a frame that took `elapsed` microseconds of `budget`.
pub open spec fn pacing_of(elapsed: u128, budget: u128) -> Pacing {
    if elapsed <= budget {
        Pacing::Sleep { elapsed, budget, remaining: (budget - elapsed) as u128 }
    } else {
        Pacing::Overrun { elapsed, budget }
    }
}

impl FrameController {
    /// A controller for `fps` frames a second.
    pub fn new(fps: usize) -> (r: FrameController)
        requires
            fps > 0,
        ensures
            r.budget_micros == MICROS_PER_SECOND as int / fps as int,
    {
        FrameController { budget_micros: MICROS_PER_SECOND / (fps as u128) }
    }

    /// Decides what follows a frame whose work took `elapsed_micros`.  A
    /// frame is never dropped: the answer is to sleep out the rest of the
    /// budget, or, past the budget, not to sleep at all.
    pub fn frame_done(&self, elapsed_micros: u128) -> (r: Pacing)
        ensures
            r == pacing_of(elapsed_micros, self.budget_micros),
    {
        if elapsed_micros <= self.budget_micros {
            Pacing::Sleep {
                elapsed: elapsed_micros,
                budget: self.budget_micros,
                remaining: self.budget_micros - elapsed_micros,
            }
        } else {
            Pacing::Overrun { elapsed: elapsed_micros, budget: self.budget_micros }
        }
    }
}

} // verus!
