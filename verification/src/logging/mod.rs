//! Leveled daemon logging: which messages pass the configured level, and
//! the exact line each one becomes. Writing the lines out (to stderr, where
//! journald timestamps them) is the caller's job.

pub mod audit;
pub mod logger;
