//! Verified core of a sandboxed trading terminal.
pub mod credentials;
pub mod data;
pub mod decimal;
pub mod double;
pub mod dto;
pub mod exchange;
pub mod json;
pub mod risk;
pub mod session;
pub mod strategy;
pub mod symbol_map;
pub mod text;
pub mod time;
pub mod types;
pub mod websocket;
