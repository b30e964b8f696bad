//! Route selection policy: which interface's default route wins when
//! several are up at once, and what metric a newly-activated connection
//! gets.

pub mod metrics;
pub mod default_route;
pub mod policy;
pub mod router;
