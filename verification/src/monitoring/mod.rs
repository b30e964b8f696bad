//! Read-only reporting: health verdicts, signal strength, traffic rates and
//! diagnostic snapshots.

pub mod diagnostics;
pub mod health;
pub mod signal;
pub mod statistics;
