//! The turn driver's decision core: the state carried from turn to turn and
//! the derivation of final placements once the match ends.
//!
//! The loop itself — fan out the `/move` calls, hand the answers to the
//! rules simulator, persist the turn — is outside work; what is decided
//! here is what each turn remembers (the previous directions that feed the
//! fallback) and how survival translates into placements.

use vstd::prelude::*;

use crate::direction::Direction;
use crate::snake_client::MoveResult;

verus! {

/// Lifecycle of a match record.
#[derive(Clone, Copy, Debug, PartialEq, Eq, Structural)]
pub enum MatchStatus {
    Waiting,
    Running,
    Finished,
}

/// `a` outlasts `b`: the snake with death turn `a` was still alive when the
/// snake with death turn `b` died. `None` stands for a snake alive at the
/// end of the match.
pub open spec fn spec_outlasts(a: Option<u32>, b: Option<u32>) -> bool {
    match (a, b) {
        (None, Some(_)) => true,
        (Some(x), Some(y)) => x > y,
        _ => false,
    }
}

/// How many of the given death turns outlast `t`.
pub open spec fn spec_count_outlasting(death_turns: Seq<Option<u32>>, t: Option<u32>) -> nat
    decreases death_turns.len(),
{
    if death_turns.len() == 0 {
        0
    } else {
        spec_count_outlasting(death_turns.drop_last(), t) + (if spec_outlasts(
            death_turns.last(),
            t,
        ) {
            1nat
        } else {
            0nat
        })
    }
}

/// Whether `a` and `b` outlast exactly the same opponents: alive snakes tie
/// with each other, and so do snakes that died on the same turn.
pub open spec fn spec_same_survival(a: Option<u32>, b: Option<u32>) -> bool {
    match (a, b) {
        (None, None) => true,
        (Some(x), Some(y)) => x == y,
        _ => false,
    }
}

/// Final placements from each snake's death turn, competition-style.
///
/// A snake's placement is one more than the number of snakes that outlasted
/// it: snakes alive at the end tie at placement one, snakes that died
/// earlier place worse, equal death turns share a placement, and the next
/// placement skips the shared ones — two snakes tied for first put the
/// third at placement three.
pub fn derive_placements(death_turns: &Vec<Option<u32>>) -> (placements: Vec<u32>)
    requires
        death_turns@.len() < u32::MAX,
    ensures
        placements@.len() == death_turns@.len(),
        forall|i: int|
            0 <= i < death_turns@.len() ==> #[trigger] placements@[i] == 1
                + spec_count_outlasting(death_turns@, death_turns@[i]),
{
    let n = death_turns.len();
    let mut placements: Vec<u32> = Vec::new();
    let mut i: usize = 0;
    while i < n
        invariant
            0 <= i <= n,
            n == death_turns@.len(),
            n < u32::MAX,
            placements@.len() == i,
            forall|k: int|
                0 <= k < i ==> #[trigger] placements@[k] == 1 + spec_count_outlasting(
                    death_turns@,
                    death_turns@[k],
                ),
        decreases n - i,
    {
        let mine = death_turns[i];
        let mut count: u32 = 0;
        let mut j: usize = 0;
        while j < n
            invariant
                0 <= j <= n,
                n == death_turns@.len(),
                n < u32::MAX,
                mine == death_turns@[i as int],
                0 <= i < n,
                count == spec_count_outlasting(death_turns@.subrange(0, j as int), mine),
                count <= j,
            decreases n - j,
        {
            proof {
                assert(death_turns@.subrange(0, j + 1).drop_last() =~= death_turns@.subrange(
                    0,
                    j as int,
                ));
                assert(death_turns@.subrange(0, j + 1).last() == death_turns@[j as int]);
            }
            let outlasts = match (death_turns[j], mine) {
                (None, Some(_)) => true,
                (Some(x), Some(y)) => x > y,
                _ => false,
            };
            if outlasts {
                count += 1;
            }
            j += 1;
        }
        proof {
            assert(death_turns@.subrange(0, n as int) =~= death_turns@);
        }
        placements.push(1 + count);
        i += 1;
    }
    placements
}

/// Snakes that tie — both alive at the end, or dead on the same turn — get
/// the same placement, and a snake that outlasts another always places
/// strictly better.
pub proof fn lemma_placements_respect_survival(
    death_turns: Seq<Option<u32>>,
    placements: Seq<u32>,
    i: int,
    j: int,
)
    requires
        placements.len() == death_turns.len(),
        forall|k: int|
            0 <= k < death_turns.len() ==> #[trigger] placements[k] == 1 + spec_count_outlasting(
                death_turns,
                death_turns[k],
            ),
        0 <= i < death_turns.len(),
        0 <= j < death_turns.len(),
    ensures
        spec_same_survival(death_turns[i], death_turns[j]) ==> placements[i] == placements[j],
        spec_outlasts(death_turns[i], death_turns[j]) ==> placements[i] < placements[j],
{
    if spec_same_survival(death_turns[i], death_turns[j]) {
        lemma_count_outlasting_same(death_turns, death_turns[i], death_turns[j]);
    }
    if spec_outlasts(death_turns[i], death_turns[j]) {
        lemma_count_outlasting_strict(death_turns, i, j);
    }
}

/// Death turns with the same survival outlast-set are outlasted by the same
/// count.
proof fn lemma_count_outlasting_same(death_turns: Seq<Option<u32>>, a: Option<u32>, b: Option<u32>)
    requires
        spec_same_survival(a, b),
    ensures
        spec_count_outlasting(death_turns, a) == spec_count_outlasting(death_turns, b),
    decreases death_turns.len(),
{
    if death_turns.len() > 0 {
        lemma_count_outlasting_same(death_turns.drop_last(), a, b);
    }
}

/// Everything that outlasts `death_turns[i]` also outlasts `death_turns[j]`
/// when `i` outlasts `j`, and `i` itself outlasts `j` but not itself — so
/// the count for `j` is strictly larger.
proof fn lemma_count_outlasting_strict(death_turns: Seq<Option<u32>>, i: int, j: int)
    requires
        0 <= i < death_turns.len(),
        0 <= j < death_turns.len(),
        spec_outlasts(death_turns[i], death_turns[j]),
    ensures
        spec_count_outlasting(death_turns, death_turns[i]) < spec_count_outlasting(
            death_turns,
            death_turns[j],
        ),
{
    lemma_count_outlasting_prefix(
        death_turns,
        death_turns[i],
        death_turns[j],
        death_turns.len() as int,
        i,
    );
    assert(death_turns.subrange(0, death_turns.len() as int) =~= death_turns);
}

/// Over any prefix, the count for `a` is at most the count for `b` when `a`
/// outlasts `b`; once the prefix includes position `witness` (holding `a`),
/// the count for `b` is strictly ahead.
proof fn lemma_count_outlasting_prefix(
    death_turns: Seq<Option<u32>>,
    a: Option<u32>,
    b: Option<u32>,
    len: int,
    witness: int,
)
    requires
        spec_outlasts(a, b),
        0 <= witness < death_turns.len(),
        death_turns[witness] == a,
        0 <= len <= death_turns.len(),
    ensures
        spec_count_outlasting(death_turns.subrange(0, len), a) <= spec_count_outlasting(
            death_turns.subrange(0, len),
            b,
        ),
        len > witness ==> spec_count_outlasting(death_turns.subrange(0, len), a)
            < spec_count_outlasting(death_turns.subrange(0, len), b),
    decreases len,
{
    if len > 0 {
        lemma_count_outlasting_prefix(death_turns, a, b, len - 1, witness);
        assert(death_turns.subrange(0, len).drop_last() =~= death_turns.subrange(0, len - 1));
        let last = death_turns.subrange(0, len).last();
        assert(last == death_turns[len - 1]);
        // Anything that outlasts `a` also outlasts `b`, and `a` outlasts
        // `b` without outlasting itself.
        if spec_outlasts(last, a) {
            assert(spec_outlasts(last, b));
        }
        if len - 1 == witness {
            assert(last == a);
            assert(!spec_outlasts(a, a));
            assert(spec_outlasts(a, b));
        }
    } else {
        assert(death_turns.subrange(0, 0) =~= Seq::<Option<u32>>::empty());
    }
}

/// What one turn leaves behind for the next: the turn counter and each
/// snake's direction, feeding the next turn's fallbacks.
pub struct TurnState {
    pub turn: u32,
    pub last_moves: Vec<(String, Direction)>,
}

impl TurnState {
    /// The state before the first turn: no moves recorded yet, so every
    /// fallback is up.
    pub fn initial() -> (s: TurnState)
        ensures
            s.turn == 0,
            s.last_moves@.len() == 0,
    {
        TurnState { turn: 0, last_moves: Vec::new() }
    }

    /// The state after one turn: the counter advances and the resolved
    /// directions replace the previous record, one per result, in order.
    pub fn after_turn(self, results: &Vec<MoveResult>) -> (s: TurnState)
        requires
            self.turn < u32::MAX,
        ensures
            s.turn == self.turn + 1,
            s.last_moves@.len() == results@.len(),
            forall|i: int|
                0 <= i < results@.len() ==> {
                    &&& (#[trigger] s.last_moves@[i]).0@ == results@[i].snake_id@
                    &&& s.last_moves@[i].1 == results@[i].direction
                },
    {
        let mut last_moves: Vec<(String, Direction)> = Vec::new();
        let mut i: usize = 0;
        while i < results.len()
            invariant
                0 <= i <= results@.len(),
                last_moves@.len() == i,
                forall|k: int|
                    0 <= k < i ==> {
                        &&& (#[trigger] last_moves@[k]).0@ == results@[k].snake_id@
                        &&& last_moves@[k].1 == results@[k].direction
                    },
            decreases results@.len() - i,
        {
            last_moves.push((results[i].snake_id.clone(), results[i].direction));
            i += 1;
        }
        TurnState { turn: self.turn + 1, last_moves }
    }
}

} // verus!
