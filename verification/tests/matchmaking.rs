use skillratings::weng_lin::WengLinRating;
use snake_arena::leaderboard::{Leaderboard, LeaderboardEntry, MATCH_SIZE};
use snake_arena::matchmaker::{
    games_per_run, matchmaker_targets, plan_matches_for_leaderboard, select_match,
};
use std::collections::HashSet;

fn make_entry(id: u128, display_score: f64) -> LeaderboardEntry {
    LeaderboardEntry {
        leaderboard_entry_id: id,
        leaderboard_id: 1,
        battlesnake_id: id,
        rating: WengLinRating {
            rating: 25.0,
            uncertainty: 8.333,
        },
        display_score_milli: (display_score * 1000.0) as i64,
        games_played: 0,
        first_place_finishes: 0,
        non_first_finishes: 0,
        disabled_at_ms: None,
        created_at_ms: 0,
        updated_at_ms: 0,
    }
}

#[test]
fn test_select_match_returns_correct_size() {
    let entries: Vec<LeaderboardEntry> =
        (0..10).map(|i| make_entry(i as u128, i as f64 * 5.0)).collect();
    let selected = select_match(&entries, 4);
    assert_eq!(selected.len(), 4);
}

#[test]
fn test_select_match_too_few_entries() {
    let entries: Vec<LeaderboardEntry> =
        (0..3).map(|i| make_entry(i as u128, i as f64 * 5.0)).collect();
    let selected = select_match(&entries, 4);
    assert!(selected.is_empty());
}

#[test]
fn test_select_match_exactly_enough() {
    let entries: Vec<LeaderboardEntry> =
        (0..4).map(|i| make_entry(i as u128, i as f64 * 5.0)).collect();
    let selected = select_match(&entries, 4);
    assert_eq!(selected.len(), 4);
}

#[test]
fn test_select_match_unique_snakes() {
    let entries: Vec<LeaderboardEntry> =
        (0..20).map(|i| make_entry(i as u128, i as f64 * 2.0)).collect();
    let selected = select_match(&entries, 4);
    let ids: Vec<u128> = selected.iter().map(|e| e.battlesnake_id).collect();
    let unique: HashSet<u128> = ids.iter().copied().collect();
    assert_eq!(ids.len(), unique.len(), "Selected snakes should be unique");
}

#[test]
fn test_select_match_prefers_skill_band() {
    // A tight cluster far from two outliers: whatever the seed and jitter,
    // at least one selected entry lies in the cluster, and the selection
    // always comes from the pool.
    let mut entries: Vec<LeaderboardEntry> =
        (0..8).map(|i| make_entry(i as u128, 25.0 + i as f64 * 0.001)).collect();
    entries.push(make_entry(100, 1000.0));
    entries.push(make_entry(101, -1000.0));
    for _ in 0..20 {
        let selected = select_match(&entries, 4);
        assert_eq!(selected.len(), 4);
        assert!(selected.iter().all(|s| entries
            .iter()
            .any(|e| e.leaderboard_entry_id == s.leaderboard_entry_id)));
        assert!(selected.iter().any(|s| s.leaderboard_entry_id < 100));
    }
}

#[test]
fn test_games_per_run_quota() {
    // 900-second cadence: 96 runs per day, so a 100-game day needs
    // ceil(100 / 96) = 2 games per run.
    assert_eq!(games_per_run(100, 900), 2);
    assert_eq!(games_per_run(96, 900), 1);
    assert_eq!(games_per_run(97, 900), 2);
    assert_eq!(games_per_run(0, 900), 1);
    assert_eq!(games_per_run(1000, 86400), 1000);
}

#[test]
fn test_plan_matches_not_enough_snakes() {
    let entries: Vec<LeaderboardEntry> =
        (0..3).map(|i| make_entry(i as u128, i as f64)).collect();
    assert!(entries.len() < MATCH_SIZE);
    let plans = plan_matches_for_leaderboard(&entries);
    assert!(plans.is_empty());
}

#[test]
fn test_plan_matches_creates_quota() {
    let entries: Vec<LeaderboardEntry> =
        (0..10).map(|i| make_entry(i as u128, i as f64)).collect();
    let plans = plan_matches_for_leaderboard(&entries);
    // Default config: 100 games per day at a 900-second cadence = 2 per run.
    assert_eq!(plans.len(), 2);
    for plan in &plans {
        assert_eq!(plan.entry_ids.len(), MATCH_SIZE);
        let unique: HashSet<u128> = plan.entry_ids.iter().copied().collect();
        assert_eq!(unique.len(), MATCH_SIZE);
    }
}

#[test]
fn test_matchmaker_skips_disabled_leaderboard() {
    let active = Leaderboard {
        leaderboard_id: 1,
        name: "weekly".to_string(),
        disabled_at_ms: None,
        created_at_ms: 0,
        updated_at_ms: 0,
    };
    let disabled = Leaderboard {
        leaderboard_id: 2,
        name: "paused".to_string(),
        disabled_at_ms: Some(1_700_000_000_000),
        created_at_ms: 0,
        updated_at_ms: 0,
    };
    let targets = matchmaker_targets(&vec![active, disabled]);
    assert_eq!(targets, vec![1]);
}
