//! A verified core for a monitor of coding-assistant usage: pricing of token usage,
//! aggregation of session logs into totals, rolling windows and breakdowns,
//! the subscription settings, the interactive state of the monitor, and the
//! text forms it displays.
pub mod text;
pub mod amount;
pub mod pricing;
pub mod usage;
pub mod records;
pub mod groups;
pub mod sessions;
pub mod calendar;
pub mod seen;
pub mod collect;
pub mod config;
pub mod quota;
pub mod format;
pub mod app;
