//! User-defined strategies: their configuration and the evaluation of their entry rules.
pub mod models;
pub mod evaluator;
