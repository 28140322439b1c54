use snake_arena::direction::Direction;
use snake_arena::snake_client::{MoveCallOutcome, MoveResponse, find_last_move, resolve_move};
use snake_arena::turn_driver::{TurnState, derive_placements};

#[test]
fn test_derive_placements_survivor_wins() {
    // Snake 0 survives; snake 1 died on turn 8; snake 2 on turn 3.
    let placements = derive_placements(&vec![None, Some(8), Some(3)]);
    assert_eq!(placements, vec![1, 2, 3]);
}

#[test]
fn test_derive_placements_ties_share_and_skip() {
    // Two survivors tie for first; the third place goes to the later death;
    // equal death turns share a placement and the next placement skips.
    let placements = derive_placements(&vec![None, None, Some(9), Some(4), Some(4), Some(1)]);
    assert_eq!(placements, vec![1, 1, 3, 4, 4, 6]);
}

#[test]
fn test_derive_placements_reverse_death_order() {
    let placements = derive_placements(&vec![Some(1), Some(2), Some(3), Some(4)]);
    assert_eq!(placements, vec![4, 3, 2, 1]);
}

#[test]
fn test_turn_driver_fallback_on_timeouts() {
    // Two snakes; "slow" times out on every turn. The match still runs to
    // completion, and slow's resolved direction is its previous one — up on
    // the first turn, then whatever it last moved.
    let mut state = TurnState::initial();
    let answers = [Direction::Down, Direction::Left, Direction::Left];
    let mut slow_directions = Vec::new();
    let mut slow_timed_out = Vec::new();

    for turn in 0..3 {
        let fast_last = find_last_move(&state.last_moves, &"fast".to_string());
        let slow_last = find_last_move(&state.last_moves, &"slow".to_string());

        let fast = resolve_move(
            "fast".to_string(),
            MoveCallOutcome::Response {
                response: MoveResponse {
                    direction: answers[turn].as_str().to_string(),
                    shout: None,
                },
                latency_ms: 12,
            },
            fast_last,
        );
        let slow = resolve_move("slow".to_string(), MoveCallOutcome::TimedOut, slow_last);

        assert!(!fast.timed_out);
        assert!(slow.timed_out);
        assert_eq!(slow.latency_ms, None);
        slow_directions.push(slow.direction);
        slow_timed_out.push(slow.timed_out);

        state = state.after_turn(&vec![fast, slow]);
    }

    assert_eq!(state.turn, 3);
    // Slow never answered: up on turn 0, and its own previous (fallback)
    // direction afterwards.
    assert_eq!(slow_directions, vec![Direction::Up, Direction::Up, Direction::Up]);
    assert_eq!(slow_timed_out, vec![true, true, true]);

    // The slow snake starves first; the match ends and places it second.
    let placements = derive_placements(&vec![None, Some(3)]);
    assert_eq!(placements, vec![1, 2]);
}

#[test]
fn test_after_turn_records_directions() {
    let state = TurnState::initial();
    let results = vec![
        resolve_move(
            "a".to_string(),
            MoveCallOutcome::Response {
                response: MoveResponse {
                    direction: "down".to_string(),
                    shout: None,
                },
                latency_ms: 5,
            },
            None,
        ),
        resolve_move("b".to_string(), MoveCallOutcome::Failed, Some(Direction::Right)),
    ];
    let state = state.after_turn(&results);
    assert_eq!(state.turn, 1);
    assert_eq!(
        find_last_move(&state.last_moves, &"a".to_string()),
        Some(Direction::Down)
    );
    assert_eq!(
        find_last_move(&state.last_moves, &"b".to_string()),
        Some(Direction::Right)
    );
    assert_eq!(find_last_move(&state.last_moves, &"c".to_string()), None);
}
