//! Verified core of the Livepeer payout bot: message texts, configuration
//! parsing, scheduling decisions and counters.

pub mod calendar;
pub mod commands;
pub mod config;
pub mod delivery;
pub mod digest;
pub mod explorer;
pub mod ingest;
pub mod links;
pub mod metrics;
pub mod notify;
pub mod numbers;
pub mod reward_watch;
pub mod summary;
pub mod text;
