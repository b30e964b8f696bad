//! Generic (non-VPN) tunnel interfaces: GRE, IPIP, SIT (6-in-4) and VXLAN,
//! all implemented by the kernel; creating one is a matter of naming the
//! right link kind.

use crate::errors::NetworkError;
use crate::security::validation::{interface_name_chars_ok, interface_name_len_ok, validate_interface_name};
use vstd::prelude::*;

verus! {

#[derive(Debug, Clone, Copy, PartialEq, Eq, Structural)]
pub enum TunnelKind {
    Gre,
    Ipip,
    Sit,
    Vxlan,
}

pub open spec fn link_kind_spec(k: TunnelKind) -> Seq<char> {
    match k {
        TunnelKind::Gre => "gre"@,
        TunnelKind::Ipip => "ipip"@,
        TunnelKind::Sit => "sit"@,
        TunnelKind::Vxlan => "vxlan"@,
    }
}

impl TunnelKind {
    /// The rtnetlink link kind for this tunnel type.
    pub fn link_kind(self) -> (r: &'static str)
        ensures
            r@ == link_kind_spec(self),
    {
        match self {
            TunnelKind::Gre => "gre",
            TunnelKind::Ipip => "ipip",
            TunnelKind::Sit => "sit",
            TunnelKind::Vxlan => "vxlan",
        }
    }
}

/// Checks the name of a new tunnel interface and gives the link kind to
/// create it with; the name is refused exactly as `validate_interface_name`
/// refuses it.
pub fn create(name: &str, kind: TunnelKind) -> (r: Result<&'static str, NetworkError>)
    ensures
        interface_name_len_ok(name) && interface_name_chars_ok(name@) ==> (r matches Ok(k) && k@
            == link_kind_spec(kind)),
        !(interface_name_len_ok(name) && interface_name_chars_ok(name@)) ==> (r matches Err(e)
            && validate_interface_name_err(name, e)),
{
    match validate_interface_name(name) {
        Ok(()) => Ok(kind.link_kind()),
        Err(e) => Err(e),
    }
}

/// The error `validate_interface_name` gives for a bad `name`.
pub open spec fn validate_interface_name_err(name: &str, e: NetworkError) -> bool {
    if !interface_name_len_ok(name) {
        e.view() == (crate::errors::ErrKind::Parse, "interface name '"@ + name@ + "' must be 1-15 characters"@)
    } else {
        e.view() == (crate::errors::ErrKind::Parse, "interface name '"@ + name@ + "' contains invalid characters"@)
    }
}

} // verus!
