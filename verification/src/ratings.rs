//! The rating engine: the pure computation of per-participant rating
//! updates after a match, and the idempotent decision taken by the
//! "update ratings" job handler.
//!
//! The numeric model is Weng-Lin multi-team Bayesian rating with one-player
//! teams, computed by the `skillratings` crate; everything around that call
//! — pairing participants with their entries, defaulted placements, the
//! at-most-once decision, counter updates — is verified here.

use vstd::prelude::*;

use crate::leaderboard::LeaderboardEntry;

verus! {

/// `skillratings::weng_lin::WengLinRating` — a (mu, sigma) pair of floats
/// — declared opaquely: the proofs carry rating values through without
/// reading them.
#[verifier::external_type_specification]
#[verifier::external_body]
pub struct ExWengLinRating(skillratings::weng_lin::WengLinRating);

/// What `skillratings::weng_lin::weng_lin_multi_team` returns for one-player
/// teams under the default `WengLinConfig`: a deterministic function of the
/// ratings and their ranks alone.
pub uninterp spec fn weng_lin_updates(
    ratings: Seq<skillratings::weng_lin::WengLinRating>,
    ranks: Seq<usize>,
) -> Seq<skillratings::weng_lin::WengLinRating>;

/// Relies on `skillratings::weng_lin::weng_lin_multi_team` with the default
/// `WengLinConfig` and one single-player team per participant: it returns
/// exactly one team of one updated rating per input team, in input order.
#[verifier::external_body]
fn weng_lin_rate(
    ratings: &Vec<skillratings::weng_lin::WengLinRating>,
    ranks: &Vec<usize>,
) -> (updated: Vec<skillratings::weng_lin::WengLinRating>)
    requires
        ratings@.len() == ranks@.len(),
    ensures
        updated@ == weng_lin_updates(ratings@, ranks@),
        updated@.len() == ratings@.len(),
{
    let config = skillratings::weng_lin::WengLinConfig::new();
    let teams: Vec<Vec<skillratings::weng_lin::WengLinRating>> =
        ratings.iter().map(|r| vec![*r]).collect();
    let teams_and_ranks: Vec<(&[skillratings::weng_lin::WengLinRating], skillratings::MultiTeamOutcome)> =
        teams
        .iter()
        .zip(ranks.iter())
        .map(|(team, rank)| (team.as_slice(), skillratings::MultiTeamOutcome::new(*rank)))
        .collect();
    let new_teams = skillratings::weng_lin::weng_lin_multi_team(&teams_and_ranks, &config);
    new_teams.into_iter().map(|mut team| team.remove(0)).collect()
}

/// Computed rating update for a single snake in a game, paired one-to-one
/// with the entry it was computed from.
#[derive(Clone, Copy)]
pub struct RatingUpdate {
    pub leaderboard_entry_id: u128,
    pub battlesnake_id: u128,
    /// Final placement in the match; 1 is the winner.
    pub placement: u32,
    pub old_rating: skillratings::weng_lin::WengLinRating,
    pub new_rating: skillratings::weng_lin::WengLinRating,
    pub is_first_place: bool,
}

/// The ratings of the entries, in order.
pub open spec fn ratings_of(pairs: Seq<(LeaderboardEntry, u32)>) -> Seq<
    skillratings::weng_lin::WengLinRating,
> {
    pairs.map_values(|p: (LeaderboardEntry, u32)| p.0.rating)
}

/// The placements of the entries, in order, as ranks.
pub open spec fn ranks_of(pairs: Seq<(LeaderboardEntry, u32)>) -> Seq<usize> {
    pairs.map_values(|p: (LeaderboardEntry, u32)| p.1 as usize)
}

/// What a correct batch of updates for the given (entry, placement) pairs
/// looks like: one update per pair, in order, keeping the pair's identity
/// and placement, with the new rating taken from the Weng-Lin computation
/// over exactly these ratings and placements.
pub open spec fn rating_updates_ok(
    pairs: Seq<(LeaderboardEntry, u32)>,
    updates: Seq<RatingUpdate>,
) -> bool {
    &&& updates.len() == pairs.len()
    &&& updates.map_values(|u: RatingUpdate| u.new_rating) == weng_lin_updates(
        ratings_of(pairs),
        ranks_of(pairs),
    )
    &&& forall|i: int|
        0 <= i < pairs.len() ==> {
            &&& (#[trigger] updates[i]).leaderboard_entry_id == pairs[i].0.leaderboard_entry_id
            &&& updates[i].battlesnake_id == pairs[i].0.battlesnake_id
            &&& updates[i].placement == pairs[i].1
            &&& updates[i].old_rating == pairs[i].0.rating
            &&& updates[i].is_first_place == (pairs[i].1 == 1)
        }
}

/// Pure computation: the rating updates for a finished match.
///
/// The i-th update is for the i-th input entry; it keeps that entry's ids
/// and placement, records the old rating, and takes its new rating from the
/// Weng-Lin multi-team computation over all participants.
pub fn calculate_rating_updates(entries_with_placements: &Vec<(LeaderboardEntry, u32)>) -> (updates:
    Vec<RatingUpdate>)
    ensures
        rating_updates_ok(entries_with_placements@, updates@),
{
    let n = entries_with_placements.len();
    let mut ratings: Vec<skillratings::weng_lin::WengLinRating> = Vec::new();
    let mut ranks: Vec<usize> = Vec::new();
    let mut i: usize = 0;
    while i < n
        invariant
            0 <= i <= n,
            n == entries_with_placements@.len(),
            ratings@ == ratings_of(entries_with_placements@.subrange(0, i as int)),
            ranks@ == ranks_of(entries_with_placements@.subrange(0, i as int)),
        decreases n - i,
    {
        ratings.push(entries_with_placements[i].0.rating);
        ranks.push(entries_with_placements[i].1 as usize);
        proof {
            assert(ratings@ =~= ratings_of(entries_with_placements@.subrange(0, i + 1)));
            assert(ranks@ =~= ranks_of(entries_with_placements@.subrange(0, i + 1)));
        }
        i += 1;
    }
    proof {
        assert(entries_with_placements@.subrange(0, n as int) =~= entries_with_placements@);
    }
    let new_ratings = weng_lin_rate(&ratings, &ranks);

    let mut updates: Vec<RatingUpdate> = Vec::new();
    let mut i: usize = 0;
    while i < n
        invariant
            0 <= i <= n,
            n == entries_with_placements@.len(),
            new_ratings@ == weng_lin_updates(
                ratings_of(entries_with_placements@),
                ranks_of(entries_with_placements@),
            ),
            new_ratings@.len() == n,
            updates@.len() == i,
            updates@.map_values(|u: RatingUpdate| u.new_rating) == new_ratings@.subrange(
                0,
                i as int,
            ),
            forall|j: int|
                0 <= j < i ==> {
                    &&& (#[trigger] updates@[j]).leaderboard_entry_id
                        == entries_with_placements@[j].0.leaderboard_entry_id
                    &&& updates@[j].battlesnake_id == entries_with_placements@[j].0.battlesnake_id
                    &&& updates@[j].placement == entries_with_placements@[j].1
                    &&& updates@[j].old_rating == entries_with_placements@[j].0.rating
                    &&& updates@[j].is_first_place == (entries_with_placements@[j].1 == 1)
                },
        decreases n - i,
    {
        let (entry, placement) = entries_with_placements[i];
        updates.push(
            RatingUpdate {
                leaderboard_entry_id: entry.leaderboard_entry_id,
                battlesnake_id: entry.battlesnake_id,
                placement,
                old_rating: entry.rating,
                new_rating: new_ratings[i],
                is_first_place: placement == 1,
            },
        );
        proof {
            assert(updates@.map_values(|u: RatingUpdate| u.new_rating) =~= new_ratings@.subrange(
                0,
                i + 1,
            ));
        }
        i += 1;
    }
    proof {
        assert(new_ratings@.subrange(0, n as int) =~= new_ratings@);
    }
    updates
}

/// One snake's row in a finished match, as the join table records it: the
/// entry id is stored on rows written by the current matchmaker and absent
/// on rows from before it was introduced; the placement is absent until the
/// match finishes.
#[derive(Clone, Copy)]
pub struct GameSnake {
    pub battlesnake_id: u128,
    pub leaderboard_entry_id: Option<u128>,
    pub placement: Option<u32>,
}

/// A snake's placement, defaulted to last place (the field count of the
/// match) when the match never recorded one.
pub open spec fn spec_placement_or_default(p: Option<u32>, default_placement: u32) -> u32 {
    match p {
        Some(v) => v,
        None => default_placement,
    }
}

/// The (entry, placement) pairs the engine rates: one per game snake whose
/// leaderboard entry was found, in game order, with defaulted placements.
pub open spec fn spec_rating_pairs(
    game_snakes: Seq<GameSnake>,
    entries: Seq<Option<LeaderboardEntry>>,
    default_placement: u32,
) -> Seq<(LeaderboardEntry, u32)>
    decreases game_snakes.len(),
{
    if game_snakes.len() == 0 || entries.len() == 0 {
        Seq::empty()
    } else {
        let rest = spec_rating_pairs(game_snakes.drop_last(), entries.drop_last(),
        default_placement);
        match entries.last() {
            Some(e) => rest.push(
                (e, spec_placement_or_default(game_snakes.last().placement, default_placement)),
            ),
            None => rest,
        }
    }
}

/// Pair each game snake with its leaderboard entry, skipping snakes whose
/// entry could not be found and defaulting missing placements to the field
/// count.
pub fn pair_entries_with_placements(
    game_snakes: &Vec<GameSnake>,
    entries: &Vec<Option<LeaderboardEntry>>,
) -> (pairs: Vec<(LeaderboardEntry, u32)>)
    requires
        game_snakes@.len() == entries@.len(),
        game_snakes@.len() <= u32::MAX,
    ensures
        pairs@ == spec_rating_pairs(game_snakes@, entries@, game_snakes@.len() as u32),
{
    let n = game_snakes.len();
    let default_placement: u32 = n as u32;
    let mut pairs: Vec<(LeaderboardEntry, u32)> = Vec::new();
    let mut i: usize = 0;
    while i < n
        invariant
            0 <= i <= n,
            n == game_snakes@.len() && n == entries@.len(),
            default_placement == n as u32,
            pairs@ == spec_rating_pairs(
                game_snakes@.subrange(0, i as int),
                entries@.subrange(0, i as int),
                default_placement,
            ),
        decreases n - i,
    {
        match &entries[i] {
            Some(entry) => {
                let placement = match game_snakes[i].placement {
                    Some(p) => p,
                    None => default_placement,
                };
                pairs.push((*entry, placement));
            },
            None => {},
        }
        proof {
            assert(game_snakes@.subrange(0, i + 1).drop_last() =~= game_snakes@.subrange(
                0,
                i as int,
            ));
            assert(entries@.subrange(0, i + 1).drop_last() =~= entries@.subrange(0, i as int));
            assert(game_snakes@.subrange(0, i + 1).last() == game_snakes@[i as int]);
            assert(entries@.subrange(0, i + 1).last() == entries@[i as int]);
        }
        i += 1;
    }
    proof {
        assert(game_snakes@.subrange(0, n as int) =~= game_snakes@);
        assert(entries@.subrange(0, n as int) =~= entries@);
    }
    pairs
}

/// What one invocation of the rating engine decides to do.
pub enum RatingDecision {
    /// A result row already exists for this leaderboard match: an earlier
    /// invocation applied the ratings, and this one must write nothing.
    AlreadyApplied,
    /// Fewer than two participants have a leaderboard entry: there is
    /// nothing to model, and the invocation succeeds without writing.
    NothingToRate,
    /// Apply exactly these updates, then write one audit row per update.
    Apply(Vec<RatingUpdate>),
}

/// The decision of one rating-engine invocation, taken inside the
/// transaction.
///
/// `existing_result_rows` is the number of match-result rows already
/// recorded for this leaderboard match; any prior row makes the invocation
/// a no-op, which is what makes at-least-once job delivery safe. Otherwise
/// the engine pairs the match's snakes with their (locked) entries and
/// computes the updates.
pub fn decide_rating_pass(
    existing_result_rows: u64,
    game_snakes: &Vec<GameSnake>,
    entries: &Vec<Option<LeaderboardEntry>>,
) -> (d: RatingDecision)
    requires
        game_snakes@.len() == entries@.len(),
        game_snakes@.len() <= u32::MAX,
    ensures
        (d is AlreadyApplied) <==> existing_result_rows > 0,
        existing_result_rows == 0 ==> ((d is NothingToRate) <==> spec_rating_pairs(
            game_snakes@,
            entries@,
            game_snakes@.len() as u32,
        ).len() < 2),
        (d is Apply) <==> (existing_result_rows == 0 && spec_rating_pairs(
            game_snakes@,
            entries@,
            game_snakes@.len() as u32,
        ).len() >= 2),
        d matches RatingDecision::Apply(updates) ==> rating_updates_ok(
            spec_rating_pairs(game_snakes@, entries@, game_snakes@.len() as u32),
            updates@,
        ),
{
    if existing_result_rows > 0 {
        return RatingDecision::AlreadyApplied;
    }
    let pairs = pair_entries_with_placements(game_snakes, entries);
    if pairs.len() < 2 {
        return RatingDecision::NothingToRate;
    }
    RatingDecision::Apply(calculate_rating_updates(&pairs))
}

} // verus!
