//! The typed job payloads the core hands to the durable queue. Delivery is
//! at least once; both handlers are safe to re-run, the rating engine by
//! the idempotency of its decision.

use vstd::prelude::*;

verus! {

/// One unit of background work, as a tagged payload: no string dispatch.
#[derive(Clone, Copy, Debug, PartialEq, Eq, Structural)]
pub enum JobPayload {
    /// Drive the match with this id from start to finished.
    RunMatch { game_id: u128 },
    /// Apply the rating updates for this leaderboard match.
    UpdateRatings { leaderboard_game_id: u128 },
}

impl JobPayload {
    /// The stable name a job row carries for this payload.
    pub fn name(&self) -> (r: &'static str)
        ensures
            (self is RunMatch) ==> r@ == "run_match"@,
            (self is UpdateRatings) ==> r@ == "update_ratings"@,
    {
        match self {
            JobPayload::RunMatch { .. } => "run_match",
            JobPayload::UpdateRatings { .. } => "update_ratings",
        }
    }
}

} // verus!
