//! Who is talking to us: root, and which groups. The authorization decision
//! itself lives in `security::policy`.

use vstd::prelude::*;

verus! {

/// The identity of a Unix-domain-socket peer, from `SO_PEERCRED`.
#[derive(Debug, Clone, Copy)]
pub struct PeerIdentity {
    pub uid: u32,
    pub gid: u32,
    pub pid: i32,
}

/// What the system group database says about one group, relative to a
/// peer: the group's id, and whether the peer's user is listed among its
/// supplementary members.
#[derive(Debug, Clone, Copy)]
pub struct GroupMembership {
    pub gid: u32,
    pub peer_is_listed_member: bool,
}

impl PeerIdentity {
    pub fn is_root(&self) -> (r: bool)
        ensures
            r == (self.uid == 0),
    {
        self.uid == 0
    }

    /// Whether this peer belongs to a group (e.g. `"netdev"`, the
    /// conventional "may change network settings without being root"
    /// group): root always does; otherwise the group must exist (`group`
    /// is `None` when the database has no such group) and be the peer's
    /// primary group or list the peer's user as a member.
    pub fn in_group(&self, group: Option<GroupMembership>) -> (r: bool)
        ensures
            r == (self.uid == 0 || (group matches Some(g) && (g.gid == self.gid
                || g.peer_is_listed_member))),
    {
        if self.is_root() {
            return true;
        }
        match group {
            Some(g) => g.gid == self.gid || g.peer_is_listed_member,
            None => false,
        }
    }
}

} // verus!
