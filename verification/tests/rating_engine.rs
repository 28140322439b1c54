use skillratings::weng_lin::WengLinRating;
use snake_arena::leaderboard::{LeaderboardEntry, display_score_milli_of};
use snake_arena::ratings::{
    GameSnake, RatingDecision, calculate_rating_updates, decide_rating_pass,
    pair_entries_with_placements,
};

fn make_entry(mu: f64, sigma: f64) -> LeaderboardEntry {
    make_entry_with_id(rand::random::<u64>() as u128, mu, sigma)
}

fn make_entry_with_id(id: u128, mu: f64, sigma: f64) -> LeaderboardEntry {
    LeaderboardEntry {
        leaderboard_entry_id: id,
        leaderboard_id: 1,
        battlesnake_id: id,
        rating: WengLinRating {
            rating: mu,
            uncertainty: sigma,
        },
        display_score_milli: ((mu - 3.0 * sigma) * 1000.0) as i64,
        games_played: 5,
        first_place_finishes: 2,
        non_first_finishes: 3,
        disabled_at_ms: None,
        created_at_ms: 0,
        updated_at_ms: 0,
    }
}

#[test]
fn test_calculate_rating_updates_returns_correct_count() {
    let entries = vec![
        (make_entry(25.0, 8.333), 1),
        (make_entry(25.0, 8.333), 2),
        (make_entry(25.0, 8.333), 3),
        (make_entry(25.0, 8.333), 4),
    ];

    let updates = calculate_rating_updates(&entries);
    assert_eq!(updates.len(), 4);
}

#[test]
fn test_winner_gains_rating() {
    let entries = vec![
        (make_entry(25.0, 8.333), 1), // winner
        (make_entry(25.0, 8.333), 2),
        (make_entry(25.0, 8.333), 3),
        (make_entry(25.0, 8.333), 4),
    ];

    let updates = calculate_rating_updates(&entries);

    // Winner (placement 1) should gain mu
    assert!(
        updates[0].new_rating.rating > updates[0].old_rating.rating,
        "Winner should gain mu: {} -> {}",
        updates[0].old_rating.rating,
        updates[0].new_rating.rating
    );
    assert!(updates[0].is_first_place);
    assert!(!updates[1].is_first_place);
}

#[test]
fn test_last_place_loses_rating() {
    let entries = vec![
        (make_entry(25.0, 8.333), 1),
        (make_entry(25.0, 8.333), 2),
        (make_entry(25.0, 8.333), 3),
        (make_entry(25.0, 8.333), 4), // last place
    ];

    let updates = calculate_rating_updates(&entries);

    // Last place should lose mu
    assert!(
        updates[3].new_rating.rating < updates[3].old_rating.rating,
        "Last place should lose mu: {} -> {}",
        updates[3].old_rating.rating,
        updates[3].new_rating.rating
    );
}

#[test]
fn test_sigma_decreases_after_game() {
    let entries = vec![
        (make_entry(25.0, 8.333), 1),
        (make_entry(25.0, 8.333), 2),
        (make_entry(25.0, 8.333), 3),
        (make_entry(25.0, 8.333), 4),
    ];

    let updates = calculate_rating_updates(&entries);

    // All snakes should have reduced uncertainty after a game
    for update in &updates {
        assert!(
            update.new_rating.uncertainty < update.old_rating.uncertainty,
            "Sigma should decrease: {} -> {}",
            update.old_rating.uncertainty,
            update.new_rating.uncertainty
        );
    }
}

#[test]
fn test_display_score_calculation() {
    let entries = vec![(make_entry(25.0, 8.333), 1), (make_entry(25.0, 8.333), 2)];

    let updates = calculate_rating_updates(&entries);

    for update in &updates {
        // The display score stored for the new rating is mu - 3 * sigma; in
        // the library's milli-unit model the identity is exact.
        let mu_milli = (update.new_rating.rating * 1000.0).round() as i64;
        let sigma_milli = (update.new_rating.uncertainty * 1000.0).round() as i64;
        let display = display_score_milli_of(mu_milli, sigma_milli);
        assert_eq!(display, mu_milli - 3 * sigma_milli);
        let expected = update.new_rating.rating - 3.0 * update.new_rating.uncertainty;
        assert!(
            ((display as f64 / 1000.0) - expected).abs() < 0.005,
            "Display score should equal mu - 3*sigma"
        );
    }
}

#[test]
fn test_higher_rated_snake_loses_less_when_winning() {
    // Strong snake beats weak snake — should gain less than if equal
    let strong = make_entry(35.0, 5.0);
    let weak = make_entry(15.0, 5.0);

    let expected_win = vec![(strong, 1), (weak, 2)];
    let updates = calculate_rating_updates(&expected_win);
    let strong_gain = updates[0].new_rating.rating - updates[0].old_rating.rating;

    // Upset: weak beats strong — weak should gain more
    let upset_win = vec![(weak, 1), (strong, 2)];
    let upset_updates = calculate_rating_updates(&upset_win);
    let weak_upset_gain = upset_updates[0].new_rating.rating - upset_updates[0].old_rating.rating;

    assert!(
        weak_upset_gain > strong_gain,
        "Upset winner should gain more ({:.4}) than expected winner ({:.4})",
        weak_upset_gain,
        strong_gain
    );
}

#[test]
fn test_preserves_entry_ids() {
    let entries = vec![(make_entry(25.0, 8.333), 1), (make_entry(25.0, 8.333), 3)];

    let updates = calculate_rating_updates(&entries);

    assert_eq!(
        updates[0].leaderboard_entry_id,
        entries[0].0.leaderboard_entry_id
    );
    assert_eq!(
        updates[1].leaderboard_entry_id,
        entries[1].0.leaderboard_entry_id
    );
    assert_eq!(updates[0].placement, 1);
    assert_eq!(updates[1].placement, 3);
}

#[test]
fn test_rating_pass_is_idempotent() {
    let game_snakes = vec![
        GameSnake {
            battlesnake_id: 1,
            leaderboard_entry_id: Some(1),
            placement: Some(1),
        },
        GameSnake {
            battlesnake_id: 2,
            leaderboard_entry_id: Some(2),
            placement: Some(2),
        },
    ];
    let entries = vec![
        Some(make_entry_with_id(1, 25.0, 8.333)),
        Some(make_entry_with_id(2, 25.0, 8.333)),
    ];

    // First invocation: no result rows yet, so the updates are applied.
    let first = decide_rating_pass(0, &game_snakes, &entries);
    let updates = match first {
        RatingDecision::Apply(updates) => updates,
        _ => panic!("first pass should apply updates"),
    };
    assert_eq!(updates.len(), 2);

    // The applied entry plays exactly one more game, not two.
    let updated = entries[0].unwrap().apply_result(
        updates[0].new_rating,
        0,
        updates[0].is_first_place,
        0,
    );
    assert_eq!(updated.games_played, 6);
    assert_eq!(updated.first_place_finishes, 3);
    assert_eq!(updated.non_first_finishes, 3);

    // Second invocation sees the recorded result row and applies nothing.
    let second = decide_rating_pass(2, &game_snakes, &entries);
    assert!(matches!(second, RatingDecision::AlreadyApplied));
}

#[test]
fn test_rating_pass_needs_two_entries() {
    let game_snakes = vec![
        GameSnake {
            battlesnake_id: 1,
            leaderboard_entry_id: Some(1),
            placement: Some(1),
        },
        GameSnake {
            battlesnake_id: 2,
            leaderboard_entry_id: None,
            placement: Some(2),
        },
    ];
    // The second snake has no leaderboard entry: only one remains.
    let entries = vec![Some(make_entry_with_id(1, 25.0, 8.333)), None];
    let decision = decide_rating_pass(0, &game_snakes, &entries);
    assert!(matches!(decision, RatingDecision::NothingToRate));
}

#[test]
fn test_pairing_defaults_missing_placement_to_last() {
    let game_snakes = vec![
        GameSnake {
            battlesnake_id: 1,
            leaderboard_entry_id: Some(1),
            placement: Some(1),
        },
        GameSnake {
            battlesnake_id: 2,
            leaderboard_entry_id: Some(2),
            placement: None,
        },
        GameSnake {
            battlesnake_id: 3,
            leaderboard_entry_id: Some(3),
            placement: Some(2),
        },
    ];
    let entries = vec![
        Some(make_entry_with_id(1, 25.0, 8.333)),
        Some(make_entry_with_id(2, 25.0, 8.333)),
        Some(make_entry_with_id(3, 25.0, 8.333)),
    ];
    let pairs = pair_entries_with_placements(&game_snakes, &entries);
    assert_eq!(pairs.len(), 3);
    assert_eq!(pairs[0].1, 1);
    // Missing placement defaults to the field size.
    assert_eq!(pairs[1].1, 3);
    assert_eq!(pairs[2].1, 2);
}
