//! The matchmaker: how many matches one run owes a leaderboard, and which
//! skill-similar participants each match is composed of.
//!
//! Selection is skill-band with jitter: a uniformly random seed entry is
//! drawn, every entry is scored by its display-score distance to the seed
//! plus uniform noise, and the closest `match_size` entries win. The noise
//! varies the groups and breaks ties; the contracts therefore pin the size,
//! the provenance and the distinctness of the selection — the facts that
//! hold for every draw.

use vstd::prelude::*;

use crate::leaderboard::{
    GAMES_PER_DAY, Leaderboard, LeaderboardEntry, MATCH_SIZE, MATCHMAKER_INTERVAL_SECS,
};

verus! {

/// The ids of the leaderboards a matchmaker pass works on: the active
/// ones, in order; a disabled leaderboard is passed over entirely.
pub open spec fn spec_matchmaker_targets(lbs: Seq<Leaderboard>) -> Seq<u128>
    decreases lbs.len(),
{
    if lbs.len() == 0 {
        Seq::empty()
    } else {
        let rest = spec_matchmaker_targets(lbs.drop_last());
        if lbs.last().disabled_at_ms is None {
            rest.push(lbs.last().leaderboard_id)
        } else {
            rest
        }
    }
}

/// Which leaderboards one matchmaker pass visits: every active one, in
/// order, and no disabled one.
pub fn matchmaker_targets(lbs: &Vec<Leaderboard>) -> (targets: Vec<u128>)
    ensures
        targets@ == spec_matchmaker_targets(lbs@),
{
    let mut targets: Vec<u128> = Vec::new();
    let mut i: usize = 0;
    while i < lbs.len()
        invariant
            0 <= i <= lbs@.len(),
            targets@ == spec_matchmaker_targets(lbs@.subrange(0, i as int)),
        decreases lbs@.len() - i,
    {
        proof {
            assert(lbs@.subrange(0, i + 1).drop_last() =~= lbs@.subrange(0, i as int));
            assert(lbs@.subrange(0, i + 1).last() == lbs@[i as int]);
        }
        if lbs[i].is_active() {
            targets.push(lbs[i].leaderboard_id);
        }
        i += 1;
    }
    proof {
        assert(lbs@.subrange(0, lbs@.len() as int) =~= lbs@);
    }
    targets
}

/// Upper bound (exclusive) of the selection jitter, in milli-units of
/// display score: a uniform offset in `[0, 5)` rating points.
pub const JITTER_BOUND_MILLI: u64 = 5000;

/// Relies on `rand::random_range` over `0..n`: a draw from the thread-local
/// generator, uniform over the range. Nothing ties one draw to another;
/// every outcome lies below `n`.
#[verifier::external_body]
fn random_below(n: u64) -> (r: u64)
    requires
        n > 0,
    ensures
        r < n,
{
    rand::random_range(0..n)
}

/// Board edge length of a created match, in cells.
#[derive(Clone, Copy, Debug, PartialEq, Eq, Structural)]
pub enum GameBoardSize {
    Small,
    Medium,
    Large,
}

impl GameBoardSize {
    /// The edge length in cells: 7, 11 or 19.
    pub fn dimension(self) -> (d: u32)
        ensures
            self is Small ==> d == 7,
            self is Medium ==> d == 11,
            self is Large ==> d == 19,
    {
        match self {
            GameBoardSize::Small => 7,
            GameBoardSize::Medium => 11,
            GameBoardSize::Large => 19,
        }
    }
}

/// Rule variant of a created match.
#[derive(Clone, Copy, Debug, PartialEq, Eq, Structural)]
pub enum GameType {
    Standard,
}

/// Matches one matchmaker run owes a leaderboard: the daily target spread
/// evenly over the day's runs, rounded up, and at least one.
pub open spec fn spec_games_per_run(games_per_day: u32, interval_secs: u32) -> int {
    let runs_per_day = 86400int / (interval_secs as int);
    let games = (games_per_day + runs_per_day - 1) as int / runs_per_day;
    if games < 1 {
        1
    } else {
        games
    }
}

/// How many matches to create for one leaderboard in one run.
///
/// Derived from the run interval so the two can never drift apart: with the
/// defaults of 900 seconds and 100 games per day this is ⌈100 / 96⌉ = 2.
pub fn games_per_run(games_per_day: u32, interval_secs: u32) -> (n: u64)
    requires
        0 < interval_secs <= 86400,
    ensures
        n == spec_games_per_run(games_per_day, interval_secs),
        1 <= n,
{
    let runs_per_day: u64 = 86400 / (interval_secs as u64);
    proof {
        vstd::arithmetic::div_mod::lemma_div_is_ordered_by_denominator(
            86400,
            interval_secs as int,
            86400,
        );
        vstd::arithmetic::div_mod::lemma_div_basics_5(86400, interval_secs as int);
        assert(86400int / 86400int == 1);
        assert(1 <= runs_per_day <= 86400);
    }
    let games: u64 = (games_per_day as u64 + runs_per_day - 1) / runs_per_day;
    if games < 1 {
        1
    } else {
        games
    }
}

/// `sel` was drawn from `entries` at the distinct positions `idx`, in that
/// order.
pub open spec fn spec_selected_from(
    sel: Seq<LeaderboardEntry>,
    entries: Seq<LeaderboardEntry>,
    idx: Seq<int>,
) -> bool {
    &&& idx.len() == sel.len()
    &&& forall|j: int|
        0 <= j < idx.len() ==> 0 <= #[trigger] idx[j] < entries.len() && sel[j] == entries[idx[j]]
    &&& forall|j: int, k: int| 0 <= j < k < idx.len() ==> idx[j] != idx[k]
}

/// Select the participants of one match by skill-band with jitter.
///
/// Returns no entries when fewer than `match_size` are available, and
/// otherwise exactly `match_size` entries drawn from distinct positions of
/// `entries` — the snakes whose display scores lie closest to a random seed
/// entry's, after adding uniform noise below [`JITTER_BOUND_MILLI`].
/// Distances depend on scores alone, so the pool's order only breaks the
/// ties the jitter leaves; callers hand the pool sorted by display score.
pub fn select_match(entries: &Vec<LeaderboardEntry>, match_size: usize) -> (sel: Vec<
    LeaderboardEntry,
>)
    ensures
        entries@.len() < match_size ==> sel@.len() == 0,
        entries@.len() >= match_size ==> sel@.len() == match_size,
        exists|idx: Seq<int>| spec_selected_from(sel@, entries@, idx),
{
    let n = entries.len();
    if n < match_size || match_size == 0 {
        let sel: Vec<LeaderboardEntry> = Vec::new();
        proof {
            assert(spec_selected_from(sel@, entries@, Seq::<int>::empty()));
        }
        return sel;
    }

    let seed_idx = random_below(n as u64) as usize;
    let seed_score = entries[seed_idx].display_score_milli;

    // Jittered distance of every entry to the seed.
    let mut dist: Vec<i128> = Vec::new();
    let mut i: usize = 0;
    while i < n
        invariant
            0 <= i <= n,
            n == entries@.len(),
            dist@.len() == i,
        decreases n - i,
    {
        let gap = entries[i].display_score_milli as i128 - seed_score as i128;
        let gap_abs = if gap < 0 {
            -gap
        } else {
            gap
        };
        let jitter = random_below(JITTER_BOUND_MILLI);
        dist.push(gap_abs + jitter as i128);
        i += 1;
    }

    // Repeatedly take the not-yet-chosen entry with the smallest jittered
    // distance; scan order breaks remaining ties.
    let mut remaining: Vec<usize> = Vec::new();
    let mut i: usize = 0;
    while i < n
        invariant
            0 <= i <= n,
            remaining@.len() == i,
            forall|p: int| 0 <= p < i ==> #[trigger] remaining@[p] == p,
        decreases n - i,
    {
        remaining.push(i);
        i += 1;
    }

    let mut sel: Vec<LeaderboardEntry> = Vec::new();
    let ghost mut chosen: Seq<int> = Seq::empty();
    let mut t: usize = 0;
    while t < match_size
        invariant
            0 <= t <= match_size,
            match_size <= n,
            n == entries@.len(),
            dist@.len() == n,
            remaining@.len() == n - t,
            sel@.len() == t,
            forall|p: int| 0 <= p < remaining@.len() ==> 0 <= #[trigger] remaining@[p] < n,
            forall|p: int, q: int|
                0 <= p < q < remaining@.len() ==> remaining@[p] != remaining@[q],
            chosen.len() == t,
            forall|j: int|
                0 <= j < t ==> 0 <= #[trigger] chosen[j] < n && sel@[j] == entries@[chosen[j]],
            forall|j: int, k: int| 0 <= j < k < t ==> chosen[j] != chosen[k],
            forall|j: int, p: int|
                0 <= j < t && 0 <= p < remaining@.len() ==> chosen[j] != remaining@[p] as int,
        decreases match_size - t,
    {
        // Position in `remaining` of the entry with the smallest distance.
        let mut best_p: usize = 0;
        let mut p: usize = 1;
        while p < remaining.len()
            invariant
                remaining@.len() > 0,
                dist@.len() == n,
                forall|q: int| 0 <= q < remaining@.len() ==> 0 <= #[trigger] remaining@[q] < n,
                0 <= best_p < remaining@.len(),
                1 <= p <= remaining@.len(),
            decreases remaining@.len() - p,
        {
            if dist[remaining[p]] < dist[remaining[best_p]] {
                best_p = p;
            }
            p += 1;
        }
        let best = remaining.remove(best_p);
        sel.push(entries[best]);
        proof {
            chosen = chosen.push(best as int);
        }
        t += 1;
    }
    proof {
        assert(spec_selected_from(sel@, entries@, chosen));
    }
    sel
}

/// `ids` are the entry ids of entries drawn from distinct positions of
/// `entries`, in that order.
pub open spec fn spec_ids_selected_from(
    ids: Seq<u128>,
    entries: Seq<LeaderboardEntry>,
    idx: Seq<int>,
) -> bool {
    &&& idx.len() == ids.len()
    &&& forall|j: int|
        0 <= j < idx.len() ==> 0 <= #[trigger] idx[j] < entries.len() && ids[j] == entries[idx[j]].leaderboard_entry_id
    &&& forall|j: int, k: int| 0 <= j < k < idx.len() ==> idx[j] != idx[k]
}

/// One match the matchmaker decided to create: the board, the rule variant
/// and the participant entries, keyed by entry id so duplicate opt-ins stay
/// deterministic.
pub struct MatchPlan {
    pub board_size: GameBoardSize,
    pub game_type: GameType,
    pub entry_ids: Vec<u128>,
}

/// A well-formed plan for the given pool: a standard match on the medium
/// board between `MATCH_SIZE` entries drawn from distinct positions of the
/// pool.
pub open spec fn spec_plan_ok(plan: MatchPlan, entries: Seq<LeaderboardEntry>) -> bool {
    &&& plan.board_size == GameBoardSize::Medium
    &&& plan.game_type == GameType::Standard
    &&& plan.entry_ids@.len() == MATCH_SIZE
    &&& exists|idx: Seq<int>| spec_ids_selected_from(plan.entry_ids@, entries, idx)
}

/// The matches one matchmaker run creates for one leaderboard, given its
/// active entries.
///
/// A pool smaller than [`MATCH_SIZE`] produces no matches at all; otherwise
/// the run owes the leaderboard exactly [`games_per_run`] matches, each a
/// jittered skill-band selection of [`MATCH_SIZE`] distinct entries.
pub fn plan_matches_for_leaderboard(entries: &Vec<LeaderboardEntry>) -> (plans: Vec<MatchPlan>)
    ensures
        entries@.len() < MATCH_SIZE ==> plans@.len() == 0,
        entries@.len() >= MATCH_SIZE ==> plans@.len() == spec_games_per_run(
            GAMES_PER_DAY,
            MATCHMAKER_INTERVAL_SECS,
        ),
        forall|i: int| 0 <= i < plans@.len() ==> spec_plan_ok(#[trigger] plans@[i], entries@),
{
    let mut plans: Vec<MatchPlan> = Vec::new();
    if entries.len() < MATCH_SIZE {
        return plans;
    }
    let games = games_per_run(GAMES_PER_DAY, MATCHMAKER_INTERVAL_SECS);
    let mut g: u64 = 0;
    while g < games
        invariant
            0 <= g <= games,
            entries@.len() >= MATCH_SIZE,
            plans@.len() == g,
            forall|i: int| 0 <= i < g ==> spec_plan_ok(#[trigger] plans@[i], entries@),
        decreases games - g,
    {
        let selected = select_match(entries, MATCH_SIZE);
        let mut entry_ids: Vec<u128> = Vec::new();
        let mut j: usize = 0;
        while j < selected.len()
            invariant
                0 <= j <= selected@.len(),
                entry_ids@.len() == j,
                forall|k: int|
                    0 <= k < j ==> #[trigger] entry_ids@[k] == selected@[k].leaderboard_entry_id,
            decreases selected@.len() - j,
        {
            entry_ids.push(selected[j].leaderboard_entry_id);
            j += 1;
        }
        let plan = MatchPlan {
            board_size: GameBoardSize::Medium,
            game_type: GameType::Standard,
            entry_ids,
        };
        proof {
            let idx = choose|idx: Seq<int>| spec_selected_from(selected@, entries@, idx);
            assert(spec_selected_from(selected@, entries@, idx));
            assert forall|k: int|
                0 <= k < idx.len() implies 0 <= idx[k] < entries@.len()
                && plan.entry_ids@[k] == entries@[idx[k]].leaderboard_entry_id by {
                assert(selected@[k] == entries@[idx[k]]);
                assert(plan.entry_ids@[k] == selected@[k].leaderboard_entry_id);
            }
            assert(spec_ids_selected_from(plan.entry_ids@, entries@, idx));
            assert(spec_plan_ok(plan, entries@));
        }
        plans.push(plan);
        g += 1;
    }
    plans
}

} // verus!
