//! Trade records, their log, the in-trade manager and the market data feeds.
pub mod trade_record;
pub mod csv_logger;
pub mod trade_manager;
pub mod backfill;
pub mod mock_tradfi_feed;
