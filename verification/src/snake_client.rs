//! The decision half of the snake HTTP client: what a `/move` call's
//! outcome means for the match, and which snakes a turn's fan-out must
//! address.
//!
//! The HTTP transport itself lives outside the library; it reports each
//! call as a [`MoveCallOutcome`], and [`resolve_move`] turns that into a
//! total [`MoveResult`] — a snake that answers badly or not at all simply
//! keeps its previous direction (or goes up on the first turn), so the turn
//! loop never branches on errors.

use vstd::prelude::*;

use crate::direction::{Direction, parse_direction, spec_parse_direction};
use crate::game_state::BattleSnake;

verus! {

/// A well-formed body answered by a snake's `/move` endpoint.
#[derive(Clone, Debug)]
pub struct MoveResponse {
    /// The direction string, as sent; parsed case-insensitively.
    pub direction: String,
    pub shout: Option<String>,
}

/// The resolved result of one `/move` call, total over every outcome.
#[derive(Clone, Debug)]
pub struct MoveResult {
    pub snake_id: String,
    pub direction: Direction,
    /// Wall time of the call, absent when it never completed.
    pub latency_ms: Option<i64>,
    pub timed_out: bool,
    pub shout: Option<String>,
}

/// How one `/move` call ended, as the transport reports it.
pub enum MoveCallOutcome {
    /// HTTP success and a body that deserialized.
    Response { response: MoveResponse, latency_ms: i64 },
    /// HTTP success but an unparseable body; the latency was still
    /// measured.
    MalformedBody { latency_ms: i64 },
    /// The transport failed before a response arrived.
    Failed,
    /// The per-move budget ran out.
    TimedOut,
}

/// The direction a snake falls back to: its previous move, or up when it
/// has none yet.
pub open spec fn spec_fallback_direction(last_direction: Option<Direction>) -> Direction {
    match last_direction {
        Some(d) => d,
        None => Direction::Up,
    }
}

/// Resolve one `/move` call into the direction the match will use.
///
/// A parseable answer is followed; everything else — timeout, transport
/// failure, malformed body, unknown direction string — falls back to the
/// snake's previous direction or up. Only timeouts and transport failures
/// mark the result timed out; a malformed body still records its latency.
pub fn resolve_move(
    snake_id: String,
    outcome: MoveCallOutcome,
    last_direction: Option<Direction>,
) -> (r: MoveResult)
    ensures
        r.snake_id == snake_id,
        match outcome {
            MoveCallOutcome::Response { response, latency_ms } => {
                &&& r.direction == (match spec_parse_direction(response.direction@) {
                    Some(d) => d,
                    None => spec_fallback_direction(last_direction),
                })
                &&& r.latency_ms == Some(latency_ms)
                &&& r.timed_out == false
                &&& r.shout == response.shout
            },
            MoveCallOutcome::MalformedBody { latency_ms } => {
                &&& r.direction == spec_fallback_direction(last_direction)
                &&& r.latency_ms == Some(latency_ms)
                &&& r.timed_out == false
                &&& r.shout is None
            },
            MoveCallOutcome::Failed => {
                &&& r.direction == spec_fallback_direction(last_direction)
                &&& r.latency_ms is None
                &&& r.timed_out == true
                &&& r.shout is None
            },
            MoveCallOutcome::TimedOut => {
                &&& r.direction == spec_fallback_direction(last_direction)
                &&& r.latency_ms is None
                &&& r.timed_out == true
                &&& r.shout is None
            },
        },
{
    let fallback = match last_direction {
        Some(d) => d,
        None => Direction::Up,
    };
    match outcome {
        MoveCallOutcome::Response { response, latency_ms } => {
            let direction = match parse_direction(response.direction.as_str()) {
                Some(d) => d,
                None => fallback,
            };
            MoveResult {
                snake_id,
                direction,
                latency_ms: Some(latency_ms),
                timed_out: false,
                shout: response.shout,
            }
        },
        MoveCallOutcome::MalformedBody { latency_ms } => MoveResult {
            snake_id,
            direction: fallback,
            latency_ms: Some(latency_ms),
            timed_out: false,
            shout: None,
        },
        MoveCallOutcome::Failed => MoveResult {
            snake_id,
            direction: fallback,
            latency_ms: None,
            timed_out: true,
            shout: None,
        },
        MoveCallOutcome::TimedOut => MoveResult {
            snake_id,
            direction: fallback,
            latency_ms: None,
            timed_out: true,
            shout: None,
        },
    }
}

/// The first URL registered for the given snake id, if any.
pub open spec fn spec_find_url(urls: Seq<(String, String)>, id: Seq<char>) -> Option<Seq<char>>
    decreases urls.len(),
{
    if urls.len() == 0 {
        None
    } else if urls.first().0@ == id {
        Some(urls.first().1@)
    } else {
        spec_find_url(urls.drop_first(), id)
    }
}

/// Look up the URL registered for a snake id; the first pair with that id
/// wins.
pub fn find_url(urls: &Vec<(String, String)>, id: &String) -> (r: Option<String>)
    ensures
        match r {
            Some(u) => spec_find_url(urls@, id@) == Some(u@),
            None => spec_find_url(urls@, id@) is None,
        },
{
    let mut r: Option<String> = None;
    let mut i: usize = urls.len();
    while i > 0
        invariant
            0 <= i <= urls@.len(),
            match r {
                Some(u) => spec_find_url(urls@.skip(i as int), id@) == Some(u@),
                None => spec_find_url(urls@.skip(i as int), id@) is None,
            },
        decreases i,
    {
        i -= 1;
        proof {
            assert(urls@.skip(i as int).first() == urls@[i as int]);
            assert(urls@.skip(i as int).drop_first() =~= urls@.skip(i + 1));
        }
        if urls[i].0.eq(id) {
            r = Some(urls[i].1.clone());
        }
    }
    proof {
        assert(urls@.skip(0) =~= urls@);
    }
    r
}

/// The previous turn's direction recorded for the given snake id, if any;
/// the first record with that id wins.
pub open spec fn spec_find_last_move(moves: Seq<(String, Direction)>, id: Seq<char>) -> Option<
    Direction,
>
    decreases moves.len(),
{
    if moves.len() == 0 {
        None
    } else if moves.first().0@ == id {
        Some(moves.first().1)
    } else {
        spec_find_last_move(moves.drop_first(), id)
    }
}

/// Look up the direction a snake took on the previous turn.
pub fn find_last_move(moves: &Vec<(String, Direction)>, id: &String) -> (r: Option<Direction>)
    ensures
        r == spec_find_last_move(moves@, id@),
{
    let mut r: Option<Direction> = None;
    let mut i: usize = moves.len();
    while i > 0
        invariant
            0 <= i <= moves@.len(),
            r == spec_find_last_move(moves@.skip(i as int), id@),
        decreases i,
    {
        i -= 1;
        proof {
            assert(moves@.skip(i as int).first() == moves@[i as int]);
            assert(moves@.skip(i as int).drop_first() =~= moves@.skip(i + 1));
        }
        if moves[i].0.eq(id) {
            r = Some(moves[i].1);
        }
    }
    proof {
        assert(moves@.skip(0) =~= moves@);
    }
    r
}

/// One call the turn's fan-out must make: the snake, where to reach it, and
/// the direction it last took.
#[derive(Clone, Debug)]
pub struct MoveRequest {
    pub snake_id: String,
    pub url: String,
    pub last_direction: Option<Direction>,
}

/// The view of one planned request: the snake id, the URL, and the last
/// direction.
pub open spec fn spec_request_view(m: MoveRequest) -> (Seq<char>, Seq<char>, Option<Direction>) {
    (m.snake_id@, m.url@, m.last_direction)
}

/// The requests one turn owes: one per living snake with a registered URL,
/// in board order, each carrying that snake's previous direction.
pub open spec fn spec_move_plan(
    snakes: Seq<BattleSnake>,
    urls: Seq<(String, String)>,
    last_moves: Seq<(String, Direction)>,
) -> Seq<(Seq<char>, Seq<char>, Option<Direction>)>
    decreases snakes.len(),
{
    if snakes.len() == 0 {
        Seq::empty()
    } else {
        let rest = spec_move_plan(snakes.drop_last(), urls, last_moves);
        let s = snakes.last();
        if s.health > 0 {
            match spec_find_url(urls, s.id@) {
                Some(u) => rest.push((s.id@, u, spec_find_last_move(last_moves, s.id@))),
                None => rest,
            }
        } else {
            rest
        }
    }
}

/// Plan one turn's parallel fan-out: every snake that is still alive and
/// has a registered URL gets exactly one request, in board order, with its
/// previous direction attached for the fallback.
pub fn plan_move_requests(
    snakes: &Vec<BattleSnake>,
    urls: &Vec<(String, String)>,
    last_moves: &Vec<(String, Direction)>,
) -> (plan: Vec<MoveRequest>)
    ensures
        plan@.map_values(|m: MoveRequest| spec_request_view(m)) == spec_move_plan(
            snakes@,
            urls@,
            last_moves@,
        ),
{
    let mut plan: Vec<MoveRequest> = Vec::new();
    let mut i: usize = 0;
    while i < snakes.len()
        invariant
            0 <= i <= snakes@.len(),
            plan@.map_values(|m: MoveRequest| spec_request_view(m)) == spec_move_plan(
                snakes@.subrange(0, i as int),
                urls@,
                last_moves@,
            ),
        decreases snakes@.len() - i,
    {
        proof {
            assert(snakes@.subrange(0, i + 1).drop_last() =~= snakes@.subrange(0, i as int));
            assert(snakes@.subrange(0, i + 1).last() == snakes@[i as int]);
        }
        if snakes[i].health > 0 {
            match find_url(urls, &snakes[i].id) {
                Some(url) => {
                    let last_direction = find_last_move(last_moves, &snakes[i].id);
                    plan.push(
                        MoveRequest { snake_id: snakes[i].id.clone(), url, last_direction },
                    );
                    proof {
                        assert(plan@.map_values(|m: MoveRequest| spec_request_view(m))
                            =~= spec_move_plan(snakes@.subrange(0, i + 1), urls@, last_moves@));
                    }
                },
                None => {},
            }
        }
        i += 1;
    }
    proof {
        assert(snakes@.subrange(0, snakes@.len() as int) =~= snakes@);
    }
    plan
}

} // verus!
