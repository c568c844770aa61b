//! Orders, managed positions and the execution engine.
pub mod config;
pub mod orders;
pub mod trade_manager;
pub mod signing;
pub mod replies;
pub mod account;
pub mod engine;
pub mod startup;
pub mod ibkr_engine;
