//! Leaderboards and participant entries: the rating pool each snake competes
//! in, the per-entry counters, and the boundary checks for joining and
//! leaving a leaderboard.
//!
//! Skill is carried as a [`skillratings::weng_lin::WengLinRating`] value,
//! opaque to the proofs; everything the logic itself reads — ids, counters,
//! the denormalized display score — is held as plain integers. Display
//! scores are kept in thousandths (milli-units) of a rating point.

use vstd::prelude::*;

verus! {

/// Snakes per match.
pub const MATCH_SIZE: usize = 4;

/// Games a snake must have played before it is ranked rather than in
/// placement.
pub const MIN_GAMES_FOR_RANKING: u32 = 10;

/// Target number of matches per leaderboard per day.
pub const GAMES_PER_DAY: u32 = 100;

/// Seconds between two matchmaker runs.
pub const MATCHMAKER_INTERVAL_SECS: u32 = 900;

/// A named competitive context with its own rating pool. Never deleted;
/// disabling hides it from the matchmaker.
pub struct Leaderboard {
    pub leaderboard_id: u128,
    pub name: String,
    /// Epoch milliseconds of the moment the leaderboard was disabled.
    pub disabled_at_ms: Option<i64>,
    pub created_at_ms: i64,
    pub updated_at_ms: i64,
}

impl Leaderboard {
    /// An active leaderboard is one that has not been disabled; only active
    /// leaderboards take part in matchmaking.
    pub fn is_active(&self) -> (r: bool)
        ensures
            r == self.disabled_at_ms is None,
    {
        self.disabled_at_ms.is_none()
    }
}

/// One snake's enrollment in one leaderboard; carries its rating and
/// counters. Mutated only by the rating engine and by opt-in/opt-out.
#[derive(Clone, Copy)]
pub struct LeaderboardEntry {
    pub leaderboard_entry_id: u128,
    pub leaderboard_id: u128,
    pub battlesnake_id: u128,
    /// The Weng-Lin skill rating (mu, sigma); opaque here, updated through
    /// the rating engine.
    pub rating: skillratings::weng_lin::WengLinRating,
    /// Denormalized display score, `mu - 3 * sigma`, in milli-units.
    pub display_score_milli: i64,
    pub games_played: u32,
    pub first_place_finishes: u32,
    pub non_first_finishes: u32,
    /// Epoch milliseconds of the moment the entry was paused.
    pub disabled_at_ms: Option<i64>,
    pub created_at_ms: i64,
    pub updated_at_ms: i64,
}

impl LeaderboardEntry {
    /// Counter consistency: every finished game is either a first-place
    /// finish or a non-first finish.
    pub open spec fn wf(self) -> bool {
        self.games_played == self.first_place_finishes + self.non_first_finishes
    }

    /// Whether this entry still takes part in matchmaking and ranking.
    pub fn is_active(&self) -> (r: bool)
        ensures
            r == self.disabled_at_ms is None,
    {
        self.disabled_at_ms.is_none()
    }

    /// Whether this entry has played enough games to be ranked.
    pub fn is_ranked(&self) -> (r: bool)
        ensures
            r == (self.games_played >= MIN_GAMES_FOR_RANKING),
    {
        self.games_played >= MIN_GAMES_FOR_RANKING
    }

    /// The entry as it stands after one rated game: the new rating and
    /// display score are taken over, the game counters move by exactly one,
    /// and identity fields are untouched.
    pub fn apply_result(
        &self,
        new_rating: skillratings::weng_lin::WengLinRating,
        new_display_score_milli: i64,
        is_first_place: bool,
        now_ms: i64,
    ) -> (e: LeaderboardEntry)
        requires
            self.games_played < u32::MAX,
            self.wf(),
        ensures
            e.leaderboard_entry_id == self.leaderboard_entry_id,
            e.leaderboard_id == self.leaderboard_id,
            e.battlesnake_id == self.battlesnake_id,
            e.rating == new_rating,
            e.display_score_milli == new_display_score_milli,
            e.games_played == self.games_played + 1,
            e.first_place_finishes == self.first_place_finishes + (
            if is_first_place {
                1int
            } else {
                0int
            }),
            e.non_first_finishes == self.non_first_finishes + (
            if is_first_place {
                0int
            } else {
                1int
            }),
            e.disabled_at_ms == self.disabled_at_ms,
            e.created_at_ms == self.created_at_ms,
            e.updated_at_ms == now_ms,
            e.wf(),
    {
        LeaderboardEntry {
            rating: new_rating,
            display_score_milli: new_display_score_milli,
            games_played: self.games_played + 1,
            first_place_finishes: self.first_place_finishes + (
            if is_first_place {
                1
            } else {
                0
            }),
            non_first_finishes: self.non_first_finishes + (
            if is_first_place {
                0
            } else {
                1
            }),
            updated_at_ms: now_ms,
            ..*self
        }
    }
}

/// The display score in milli-units for a rating given in milli-units:
/// `mu - 3 * sigma`, the user-facing rank value, conservative on
/// uncertainty. Whoever stores a rating must store this with it.
pub fn display_score_milli_of(mu_milli: i64, sigma_milli: i64) -> (score: i64)
    requires
        i64::MIN <= mu_milli - 3 * sigma_milli <= i64::MAX,
    ensures
        score == mu_milli - 3 * sigma_milli,
{
    (mu_milli as i128 - 3 * sigma_milli as i128) as i64
}

/// The per-snake facts the opt-in boundary checks read.
pub struct SnakeInfo {
    pub battlesnake_id: u128,
    pub owner_user_id: u128,
    pub is_public: bool,
}

/// Why an opt-in or opt-out request is rejected at the boundary.
#[derive(Clone, Copy, Debug, PartialEq, Eq, Structural)]
pub enum MembershipError {
    LeaderboardNotFound,
    LeaderboardNotActive,
    SnakeNotFound,
    SnakeNotOwned,
    SnakeNotPublic,
    EntryNotFound,
    EntryNotInLeaderboard,
}

/// Boundary check for opting a snake in to a leaderboard: the leaderboard
/// must exist and be active, and the snake must exist, belong to the
/// requesting user, and be public. The first failed check, in that order,
/// is reported.
pub fn validate_opt_in(lb: &Option<Leaderboard>, snake: &Option<SnakeInfo>, user_id: u128) -> (r:
    Result<(), MembershipError>)
    ensures
        r == (if lb is None {
            Err::<(), MembershipError>(MembershipError::LeaderboardNotFound)
        } else if lb.unwrap().disabled_at_ms is Some {
            Err(MembershipError::LeaderboardNotActive)
        } else if snake is None {
            Err(MembershipError::SnakeNotFound)
        } else if snake.unwrap().owner_user_id != user_id {
            Err(MembershipError::SnakeNotOwned)
        } else if !snake.unwrap().is_public {
            Err(MembershipError::SnakeNotPublic)
        } else {
            Ok(())
        }),
{
    match lb {
        None => Err(MembershipError::LeaderboardNotFound),
        Some(l) => {
            if l.disabled_at_ms.is_some() {
                return Err(MembershipError::LeaderboardNotActive);
            }
            match snake {
                None => Err(MembershipError::SnakeNotFound),
                Some(s) => {
                    if s.owner_user_id != user_id {
                        Err(MembershipError::SnakeNotOwned)
                    } else if !s.is_public {
                        Err(MembershipError::SnakeNotPublic)
                    } else {
                        Ok(())
                    }
                },
            }
        },
    }
}

/// Boundary check for pausing an entry: the entry must exist, belong to the
/// named leaderboard, and the snake it enrolls must exist and belong to the
/// requesting user. The first failed check, in that order, is reported.
pub fn validate_opt_out(
    entry: &Option<LeaderboardEntry>,
    leaderboard_id: u128,
    snake: &Option<SnakeInfo>,
    user_id: u128,
) -> (r: Result<(), MembershipError>)
    ensures
        r == (if entry is None {
            Err::<(), MembershipError>(MembershipError::EntryNotFound)
        } else if entry.unwrap().leaderboard_id != leaderboard_id {
            Err(MembershipError::EntryNotInLeaderboard)
        } else if snake is None {
            Err(MembershipError::SnakeNotFound)
        } else if snake.unwrap().owner_user_id != user_id {
            Err(MembershipError::SnakeNotOwned)
        } else {
            Ok(())
        }),
{
    match entry {
        None => Err(MembershipError::EntryNotFound),
        Some(e) => {
            if e.leaderboard_id != leaderboard_id {
                return Err(MembershipError::EntryNotInLeaderboard);
            }
            match snake {
                None => Err(MembershipError::SnakeNotFound),
                Some(s) => {
                    if s.owner_user_id != user_id {
                        Err(MembershipError::SnakeNotOwned)
                    } else {
                        Ok(())
                    }
                },
            }
        },
    }
}

/// Number of scores strictly greater than `score` among `scores`.
pub open spec fn spec_count_higher(scores: Seq<i64>, score: i64) -> nat
    decreases scores.len(),
{
    if scores.len() == 0 {
        0
    } else {
        spec_count_higher(scores.drop_last(), score) + (if scores.last() > score {
            1nat
        } else {
            0nat
        })
    }
}

/// Competition rank of an entry among the given ranked scores: one more
/// than the number of strictly higher scores, or `None` while the entry is
/// still in placement.
pub fn rank_for_score(ranked_scores: &Vec<i64>, display_score_milli: i64, games_played: u32) -> (r:
    Option<u64>)
    requires
        ranked_scores@.len() < u64::MAX,
    ensures
        games_played < MIN_GAMES_FOR_RANKING ==> r is None,
        games_played >= MIN_GAMES_FOR_RANKING ==> r == Some(
            (1 + spec_count_higher(ranked_scores@, display_score_milli)) as u64,
        ),
{
    if games_played < MIN_GAMES_FOR_RANKING {
        return None;
    }
    let mut count: u64 = 0;
    let mut i: usize = 0;
    while i < ranked_scores.len()
        invariant
            0 <= i <= ranked_scores@.len(),
            ranked_scores@.len() < u64::MAX,
            count == spec_count_higher(ranked_scores@.subrange(0, i as int), display_score_milli),
            count <= i,
        decreases ranked_scores@.len() - i,
    {
        proof {
            assert(ranked_scores@.subrange(0, i + 1).drop_last() =~= ranked_scores@.subrange(
                0,
                i as int,
            ));
            assert(ranked_scores@.subrange(0, i + 1).last() == ranked_scores@[i as int]);
        }
        if ranked_scores[i] > display_score_milli {
            count += 1;
        }
        i += 1;
    }
    proof {
        assert(ranked_scores@.subrange(0, ranked_scores@.len() as int) =~= ranked_scores@);
    }
    Some(1 + count)
}

} // verus!
