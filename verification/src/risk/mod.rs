//! Position sizing and the daily loss limit.
pub mod config;
pub mod manager;
pub mod sizing;
