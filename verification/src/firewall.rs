//! Firewall rules as they travel over IPC.

use vstd::prelude::*;

verus! {

#[derive(Debug, Clone)]
pub struct Rule {
    pub id: String,
    /// The zone the rule belongs to.
    pub zone: String,
    /// The rule body, in nftables syntax.
    pub body: String,
}

} // verus!
