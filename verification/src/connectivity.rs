//! The result of the periodic internet-connectivity check.

use vstd::prelude::*;

verus! {

#[derive(Debug, Clone, Copy, PartialEq, Eq, Structural)]
pub enum ConnectivityState {
    /// No check has completed yet.
    Unknown,
    /// The check could not reach anything beyond the local network.
    NoInternet,
    /// Some, but not all, of the check succeeded.
    Limited,
    /// Stuck behind a captive portal.
    Portal,
    /// Full internet access.
    Full,
}

} // verus!
