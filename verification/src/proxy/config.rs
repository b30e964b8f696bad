//! What other applications pick up as their default proxy.

use vstd::prelude::*;

verus! {

#[derive(Debug, Clone, Copy, PartialEq, Eq, Structural)]
pub enum ProxyMode {
    /// No proxy.
    Direct,
    /// A fixed proxy URL.
    Manual,
    /// Evaluate a PAC script.
    Auto,
}

#[derive(Debug, Clone)]
pub struct ProxyConfig {
    pub mode: ProxyMode,
    pub http_proxy: Option<String>,
    pub pac_url: Option<String>,
}

} // verus!
