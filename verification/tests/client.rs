use snake_arena::direction::Direction;
use snake_arena::game_state::{
    BattleSnake, Board, GameState, NestedGame, Position, Ruleset, alive_count,
    build_request_for_snake, match_should_continue,
};
use snake_arena::snake_client::{
    MoveCallOutcome, MoveResponse, MoveResult, plan_move_requests, resolve_move,
};

fn create_test_snake(id: &str) -> BattleSnake {
    BattleSnake {
        id: id.to_string(),
        name: format!("Snake {}", id),
        head: Position { x: 5, y: 5 },
        body: vec![
            Position { x: 5, y: 5 },
            Position { x: 5, y: 4 },
            Position { x: 5, y: 3 },
        ],
        health: 100,
        shout: None,
        actual_length: None,
    }
}

fn create_test_game_with_snakes(snakes: Vec<BattleSnake>) -> GameState {
    let you = snakes
        .first()
        .cloned()
        .unwrap_or_else(|| create_test_snake("default"));
    GameState {
        you,
        board: Board {
            height: 11,
            width: 11,
            food: vec![Position { x: 3, y: 3 }],
            snakes,
            hazards: vec![],
        },
        turn: 5,
        game: NestedGame {
            id: "test-game".to_string(),
            ruleset: Ruleset {
                name: "standard".to_string(),
                version: "v1.0.0".to_string(),
                settings: None,
            },
            timeout: 500,
            map: None,
            source: None,
        },
    }
}

#[test]
fn test_move_result_clone() {
    let result = MoveResult {
        snake_id: "test".to_string(),
        direction: Direction::Up,
        latency_ms: Some(100),
        timed_out: false,
        shout: Some("hello".to_string()),
    };
    let cloned = result.clone();
    assert_eq!(cloned.snake_id, "test");
    assert_eq!(cloned.direction, Direction::Up);
    assert_eq!(cloned.latency_ms, Some(100));
    assert!(!cloned.timed_out);
    assert_eq!(cloned.shout, Some("hello".to_string()));
}

#[test]
fn test_build_request_for_snake_sets_you_field() {
    let snake1 = create_test_snake("snake-1");
    let snake2 = create_test_snake("snake-2");
    let game = create_test_game_with_snakes(vec![snake1.clone(), snake2.clone()]);

    // Build request for snake2 - the `you` field should be snake2
    let request = build_request_for_snake(game, snake2);

    assert_eq!(request.you.id, "snake-2");
    assert_eq!(request.you.name, "Snake snake-2");
    // Board should be preserved
    assert_eq!(request.board.snakes.len(), 2);
    assert_eq!(request.turn, 5);
    assert_eq!(request.game.id, "test-game");
}

#[test]
fn test_build_request_for_snake_preserves_board() {
    let snake1 = create_test_snake("snake-1");
    let game = create_test_game_with_snakes(vec![snake1.clone()]);

    let request = build_request_for_snake(game, snake1);

    // All board properties should be preserved
    assert_eq!(request.board.height, 11);
    assert_eq!(request.board.width, 11);
    assert_eq!(request.board.food.len(), 1);
    assert_eq!(request.board.food[0].x, 3);
    assert_eq!(request.board.food[0].y, 3);
}

#[test]
fn test_resolve_move_parsed_response() {
    let outcome = MoveCallOutcome::Response {
        response: MoveResponse {
            direction: "LEFT".to_string(),
            shout: Some("hi".to_string()),
        },
        latency_ms: 42,
    };
    let r = resolve_move("s1".to_string(), outcome, Some(Direction::Down));
    assert_eq!(r.snake_id, "s1");
    assert_eq!(r.direction, Direction::Left);
    assert_eq!(r.latency_ms, Some(42));
    assert!(!r.timed_out);
    assert_eq!(r.shout, Some("hi".to_string()));
}

#[test]
fn test_resolve_move_unknown_direction_falls_back() {
    let outcome = MoveCallOutcome::Response {
        response: MoveResponse {
            direction: "sideways".to_string(),
            shout: None,
        },
        latency_ms: 10,
    };
    let r = resolve_move("s1".to_string(), outcome, Some(Direction::Right));
    assert_eq!(r.direction, Direction::Right);
    assert_eq!(r.latency_ms, Some(10));
    assert!(!r.timed_out);
}

#[test]
fn test_resolve_move_malformed_body_keeps_latency() {
    let r = resolve_move(
        "s1".to_string(),
        MoveCallOutcome::MalformedBody { latency_ms: 33 },
        None,
    );
    assert_eq!(r.direction, Direction::Up);
    assert_eq!(r.latency_ms, Some(33));
    assert!(!r.timed_out);
    assert_eq!(r.shout, None);
}

#[test]
fn test_resolve_move_timeout_and_failure_fall_back() {
    let timed = resolve_move("s1".to_string(), MoveCallOutcome::TimedOut, Some(Direction::Left));
    assert_eq!(timed.direction, Direction::Left);
    assert_eq!(timed.latency_ms, None);
    assert!(timed.timed_out);

    let failed = resolve_move("s1".to_string(), MoveCallOutcome::Failed, None);
    assert_eq!(failed.direction, Direction::Up);
    assert_eq!(failed.latency_ms, None);
    assert!(failed.timed_out);
}

#[test]
fn test_plan_move_requests_filters_dead_and_unknown() {
    let mut alive = create_test_snake("alive");
    alive.health = 50;
    let mut dead = create_test_snake("dead");
    dead.health = 0;
    let unknown = create_test_snake("no-url");
    let snakes = vec![alive, dead, unknown];
    let urls = vec![
        ("alive".to_string(), "http://a".to_string()),
        ("dead".to_string(), "http://d".to_string()),
    ];
    let last_moves = vec![("alive".to_string(), Direction::Down)];

    let plan = plan_move_requests(&snakes, &urls, &last_moves);
    assert_eq!(plan.len(), 1);
    assert_eq!(plan[0].snake_id, "alive");
    assert_eq!(plan[0].url, "http://a");
    assert_eq!(plan[0].last_direction, Some(Direction::Down));
}

#[test]
fn test_alive_count_and_continuation() {
    let mut a = create_test_snake("a");
    let mut b = create_test_snake("b");
    let mut c = create_test_snake("c");
    a.health = 100;
    b.health = 0;
    c.health = 1;
    let snakes = vec![a, b, c];
    assert_eq!(alive_count(&snakes), 2);
    assert!(match_should_continue(&snakes));

    let mut solo = create_test_snake("solo");
    solo.health = 100;
    assert!(!match_should_continue(&vec![solo]));
}
