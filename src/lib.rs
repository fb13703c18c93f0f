//! A per-owner, per-tracker ledger of daily counts, with per-day aggregates,
//! an index of those aggregates, and consecutive-day streaks, all updated
//! together by one event.

pub mod day;
pub mod records;
pub mod ledger;
pub mod stats;
pub mod streak;
pub mod engine;
pub mod ops;
pub mod address;
pub mod laws;
