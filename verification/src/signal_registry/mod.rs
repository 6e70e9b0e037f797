//! The registry of trade signals and the tools around it.

pub mod error;
pub mod types;
pub mod position_sizing;
pub mod stake;
pub mod submission;
pub mod price_history;
pub mod leaderboard;
pub mod pair_stats;
pub mod export;
pub mod summary;
pub mod analytics;
