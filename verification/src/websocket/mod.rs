//! Market and account streams: their messages, connections and the positions that follow prices.
pub mod circuit_breaker;
pub mod config;
pub mod connection;
pub mod manager;
pub mod messages;
pub mod streams;
