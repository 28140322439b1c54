//! Core of a competitive-snake arena: matchmaking over skill-banded
//! leaderboards, turn-by-turn match driving with timeout fallbacks, and
//! transactional, idempotent Weng-Lin rating updates.
//!
//! The library holds the decision logic and the data model; the binary in
//! `app/` supplies the HTTP, persistence and scheduling around it.

pub mod admin;
pub mod direction;
pub mod game_state;
pub mod jobs;
pub mod leaderboard;
pub mod load;
pub mod matchmaker;
pub mod pagination;
pub mod ratings;
pub mod snake_client;
pub mod snake_url;
pub mod stats;
pub mod telemetry;
pub mod text;
pub mod turn_driver;

pub use direction::Direction;
