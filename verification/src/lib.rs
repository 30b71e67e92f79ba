//! NTP synchronization health as numeric metrics.
//!
//! The library parses the tabular peer listing that an NTP query tool
//! prints, selects the synchronization peer's row, converts its fields
//! (interval tokens, an octal reachability code, decimal numbers) into
//! typed values, and maps them to named metrics for a monitoring agent.
pub mod collector;
pub mod decimal;
pub mod error;
pub mod parser;
pub mod plugin;
pub mod interval;
pub mod numbers;
pub mod reach;
pub mod tokens;
