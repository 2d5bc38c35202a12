//! The cadence of the receive loop: how long to pause after each poll of the
//! transport, and when to sweep the pending batches.

use vstd::prelude::*;

verus! {

/// Rounds of the receive loop between two sweeps (about a minute at one
/// round per 50 ms).
pub const SWEEP_EVERY: u32 = 1200;

/// The maximum age, in seconds, that the periodic sweep keeps.
pub const SWEEP_MAX_AGE_SECONDS: i64 = 60;

/// The maximum age, in seconds, that a sweep asked for by the user keeps.
pub const MANUAL_SWEEP_MAX_AGE_SECONDS: i64 = 30;

/// What one round of the receive loop met.
#[derive(Clone, Copy, PartialEq, Eq, Structural, Debug)]
pub enum PollOutcome {
    /// A message was taken and decided on.
    Message,
    /// No message was waiting.
    Empty,
    /// The transport failed.
    Failed,
    /// The shared state was held elsewhere; nothing was polled.
    Busy,
}

/// What to do after a round: the rounds counted since the last sweep,
/// whether to sweep now, and how long to pause.
#[derive(Clone, Copy, PartialEq, Eq, Structural, Debug)]
pub struct RoundPlan {
    pub rounds: u32,
    pub sweep: bool,
    pub pause_ms: u64,
}

/// The pause after a round: none after a message, a short one on an empty
/// poll or a busy state, a long one after a failure.
pub open spec fn pause_for(outcome: PollOutcome) -> u64 {
    match outcome {
        PollOutcome::Message => 0,
        PollOutcome::Empty => 50,
        PollOutcome::Failed => 1000,
        PollOutcome::Busy => 100,
    }
}

/// The plan after a round with `outcome`, `rounds` rounds after the last
/// sweep. A busy round is not counted; every other one is, and the one that
/// brings the count to [`SWEEP_EVERY`] sweeps and starts it again.
pub fn next_round(rounds: u32, outcome: PollOutcome) -> (r: RoundPlan)
    ensures
        r.pause_ms == pause_for(outcome),
        outcome is Busy ==> r.rounds == rounds && !r.sweep,
        !(outcome is Busy) ==> r.sweep == (rounds + 1 >= SWEEP_EVERY),
        !(outcome is Busy) ==> r.rounds == (if r.sweep { 0 } else { rounds + 1 }),
{
    let pause_ms: u64 = match outcome {
        PollOutcome::Message => 0,
        PollOutcome::Empty => 50,
        PollOutcome::Failed => 1000,
        PollOutcome::Busy => 100,
    };
    match outcome {
        PollOutcome::Busy => RoundPlan { rounds, sweep: false, pause_ms },
        _ => if rounds >= SWEEP_EVERY - 1 {
            RoundPlan { rounds: 0, sweep: true, pause_ms }
        } else {
            RoundPlan { rounds: rounds + 1, sweep: false, pause_ms }
        },
    }
}

} // verus!
