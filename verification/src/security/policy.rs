//! Maps an authenticated peer to what it is allowed to do. A small explicit
//! enum rather than free-form strings, so a typo can't silently open a hole.

use super::permissions::{GroupMembership, PeerIdentity};
use crate::errors::{permission_err, NetworkError};
use crate::text::{decimal, u64_to_string};
use vstd::prelude::*;

verus! {

#[derive(Debug, Clone, Copy, PartialEq, Eq, Structural)]
pub enum Capability {
    /// Read-only: device/connection/state queries. Safe for anyone.
    ViewState,
    /// Activate/deactivate/add/remove connection profiles.
    ManageConnections,
    ManageWifi,
    ManageVpn,
    ManageFirewall,
    ManageHotspot,
    ManageBluetooth,
    ManageProxy,
    /// Change daemon configuration itself, reload, shut down.
    Admin,
}

/// The group whose members get every capability short of root-only
/// `Admin` (the traditional `netdev` model).
pub const PRIVILEGED_GROUP: &'static str = "netdev";

pub open spec fn capability_name(c: Capability) -> Seq<char> {
    match c {
        Capability::ViewState => "ViewState"@,
        Capability::ManageConnections => "ManageConnections"@,
        Capability::ManageWifi => "ManageWifi"@,
        Capability::ManageVpn => "ManageVpn"@,
        Capability::ManageFirewall => "ManageFirewall"@,
        Capability::ManageHotspot => "ManageHotspot"@,
        Capability::ManageBluetooth => "ManageBluetooth"@,
        Capability::ManageProxy => "ManageProxy"@,
        Capability::Admin => "Admin"@,
    }
}

impl Capability {
    /// The capability's name, as `{:?}` prints it.
    pub fn name(self) -> (r: &'static str)
        ensures
            r@ == capability_name(self),
    {
        match self {
            Capability::ViewState => "ViewState",
            Capability::ManageConnections => "ManageConnections",
            Capability::ManageWifi => "ManageWifi",
            Capability::ManageVpn => "ManageVpn",
            Capability::ManageFirewall => "ManageFirewall",
            Capability::ManageHotspot => "ManageHotspot",
            Capability::ManageBluetooth => "ManageBluetooth",
            Capability::ManageProxy => "ManageProxy",
            Capability::Admin => "Admin",
        }
    }
}

/// Whether `identity` has `capability`: viewing is open to all, `Admin` is
/// root-only, everything else needs root or membership of the privileged
/// group (described by `privileged_group`).
pub open spec fn allowed(identity: PeerIdentity, capability: Capability, privileged_group: Option<GroupMembership>) -> bool {
    match capability {
        Capability::ViewState => true,
        Capability::Admin => identity.uid == 0,
        _ => identity.uid == 0 || (privileged_group matches Some(g) && (g.gid == identity.gid
            || g.peer_is_listed_member)),
    }
}

/// `Ok` if the peer has the capability, otherwise `PermissionDenied` naming
/// the uid and the capability.
pub fn check(identity: &PeerIdentity, capability: Capability, privileged_group: Option<GroupMembership>) -> (r: Result<(), NetworkError>)
    ensures
        allowed(*identity, capability, privileged_group) ==> r is Ok,
        !allowed(*identity, capability, privileged_group) ==> permission_err(
            r,
            "uid "@ + decimal(identity.uid as nat) + " lacks "@ + capability_name(capability),
        ),
{
    let ok = match capability {
        Capability::ViewState => true,
        Capability::Admin => identity.is_root(),
        _ => identity.is_root() || identity.in_group(privileged_group),
    };
    if ok {
        Ok(())
    } else {
        let mut msg = String::from_str("uid ");
        let uid = u64_to_string(identity.uid as u64);
        msg.append(uid.as_str());
        msg.append(" lacks ");
        msg.append(capability.name());
        Err(NetworkError::PermissionDenied(msg))
    }
}

} // verus!
