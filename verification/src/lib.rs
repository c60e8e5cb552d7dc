//! Live market-data feed multiplexer: last-price cache, symbol table,
//! subscription state machine and downstream relay decisions.

pub mod backfill;
pub mod cache;
pub mod clock;
pub mod config;
pub mod control;
pub mod mapping;
pub mod multiplexer;
pub mod record;
pub mod relay;
pub mod subscription;
pub mod symbol;
pub mod text;
pub mod vwap;
