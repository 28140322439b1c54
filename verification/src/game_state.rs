//! The wire form of a running game, as the snake protocol exchanges it:
//! every request body is the global game state with its `you` field set to
//! the snake being addressed.

use vstd::prelude::*;

verus! {

/// A cell on the board.
#[derive(Clone, Copy, Debug, PartialEq, Eq, Structural)]
pub struct Position {
    pub x: i32,
    pub y: i32,
}

/// One snake on the board, as the wire protocol carries it.
#[derive(Clone, Debug)]
pub struct BattleSnake {
    pub id: String,
    pub name: String,
    pub head: Position,
    pub body: Vec<Position>,
    pub health: i32,
    pub shout: Option<String>,
    pub actual_length: Option<i32>,
}

/// The board: dimensions and everything standing on it.
#[derive(Clone, Debug)]
pub struct Board {
    pub height: u32,
    pub width: u32,
    pub food: Vec<Position>,
    pub snakes: Vec<BattleSnake>,
    pub hazards: Vec<Position>,
}

/// The rule variant a game is played under. The settings block is carried
/// through verbatim in its serialized form; only the simulator reads it.
#[derive(Clone, Debug)]
pub struct Ruleset {
    pub name: String,
    pub version: String,
    pub settings: Option<String>,
}

/// Game-level metadata sent with every request.
#[derive(Clone, Debug)]
pub struct NestedGame {
    pub id: String,
    pub ruleset: Ruleset,
    /// Per-move budget in milliseconds, as declared by the game.
    pub timeout: i64,
    pub map: Option<String>,
    pub source: Option<String>,
}

/// The full request body of the snake protocol: `you`, `board`, `turn`,
/// `game`.
#[derive(Clone, Debug)]
pub struct GameState {
    pub you: BattleSnake,
    pub board: Board,
    pub turn: u32,
    pub game: NestedGame,
}

/// The request body for one specific snake: the global state with `you`
/// replaced by that snake, everything else untouched.
pub fn build_request_for_snake(game: GameState, snake: BattleSnake) -> (r: GameState)
    ensures
        r.you == snake,
        r.board == game.board,
        r.turn == game.turn,
        r.game == game.game,
{
    GameState { you: snake, ..game }
}

/// Number of snakes on the board that are still alive.
pub open spec fn spec_alive_count(snakes: Seq<BattleSnake>) -> nat
    decreases snakes.len(),
{
    if snakes.len() == 0 {
        0
    } else {
        spec_alive_count(snakes.drop_last()) + (if snakes.last().health > 0 {
            1nat
        } else {
            0nat
        })
    }
}

/// Count the snakes still alive: those with health above zero.
pub fn alive_count(snakes: &Vec<BattleSnake>) -> (n: usize)
    ensures
        n == spec_alive_count(snakes@),
{
    let mut n: usize = 0;
    let mut i: usize = 0;
    while i < snakes.len()
        invariant
            0 <= i <= snakes@.len(),
            n == spec_alive_count(snakes@.subrange(0, i as int)),
            n <= i,
        decreases snakes@.len() - i,
    {
        proof {
            assert(snakes@.subrange(0, i + 1).drop_last() =~= snakes@.subrange(0, i as int));
            assert(snakes@.subrange(0, i + 1).last() == snakes@[i as int]);
        }
        if snakes[i].health > 0 {
            n += 1;
        }
        i += 1;
    }
    proof {
        assert(snakes@.subrange(0, snakes@.len() as int) =~= snakes@);
    }
    n
}

/// Whether the match keeps running: more than one snake is still alive.
pub fn match_should_continue(snakes: &Vec<BattleSnake>) -> (r: bool)
    ensures
        r == (spec_alive_count(snakes@) > 1),
{
    alive_count(snakes) > 1
}

} // verus!
