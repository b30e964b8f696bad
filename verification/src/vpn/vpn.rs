//! Which interface belongs to which kind of active VPN session, so that a
//! disconnect reaches the right backend.

use crate::errors::{join3, NetworkError};
use crate::text::str_eq;
use vstd::prelude::*;

verus! {

#[derive(Debug, Clone, Copy, PartialEq, Eq, Structural)]
pub enum VpnKind {
    WireGuard,
    OpenVpn,
}

/// A VPN brought up on `interface_name`.
#[derive(Debug, Clone)]
pub struct VpnSession {
    pub interface_name: String,
    pub kind: VpnKind,
}

/// The kind recorded last for `name` in `s`.
pub open spec fn kind_of(s: Seq<(Seq<char>, VpnKind)>, name: Seq<char>) -> Option<VpnKind>
    decreases s.len(),
{
    if s.len() == 0 {
        None
    } else if s.last().0 == name {
        Some(s.last().1)
    } else {
        kind_of(s.drop_last(), name)
    }
}

pub open spec fn without(s: Seq<(Seq<char>, VpnKind)>, name: Seq<char>) -> Seq<(Seq<char>, VpnKind)> {
    s.filter(|e: (Seq<char>, VpnKind)| e.0 != name)
}

proof fn lemma_without(s: Seq<(Seq<char>, VpnKind)>, name: Seq<char>, m: Seq<char>)
    ensures
        kind_of(without(s, name), m) == if m == name {
            None
        } else {
            kind_of(s, m)
        },
    decreases s.len(),
{
    reveal(Seq::filter);
    if s.len() > 0 {
        let init = s.drop_last();
        lemma_without(init, name, m);
        assert(s =~= init.push(s.last()));
        assert(s.drop_last() == init);
        assert(without(s, name) == if s.last().0 != name {
            without(init, name).push(s.last())
        } else {
            without(init, name)
        });
        if s.last().0 != name {
            let w = without(s, name);
            assert(w == without(init, name).push(s.last()));
            assert(w.drop_last() =~= without(init, name));
            assert(w.last() == s.last());
        } else {
            assert(without(s, name) == without(init, name));
        }
    }
}

/// The active sessions by interface name.
pub struct VpnRegistry {
    active: Vec<(String, VpnKind)>,
}

impl VpnRegistry {
    pub closed spec fn entries(self) -> Seq<(Seq<char>, VpnKind)> {
        self.active@.map_values(|e: (String, VpnKind)| (e.0@, e.1))
    }

    /// The kind of the session on `name`, if one is active.
    pub open spec fn session(self, name: Seq<char>) -> Option<VpnKind> {
        kind_of(self.entries(), name)
    }

    pub fn new() -> (r: VpnRegistry)
        ensures
            forall|n: Seq<char>| r.session(n) is None,
    {
        let r = VpnRegistry { active: Vec::new() };
        assert(r.entries() =~= Seq::<(Seq<char>, VpnKind)>::empty());
        r
    }

    fn remove_entries(&mut self, name: &str)
        ensures
            final(self).entries() == without(old(self).entries(), name@),
    {
        let ghost old_e = self.entries();
        let mut kept: Vec<(String, VpnKind)> = Vec::new();
        let mut all = Vec::new();
        std::mem::swap(&mut all, &mut self.active);
        let n = all.len();
        let mut rest = crate::collections::reversed(all);
        let ghost orig = old_e;
        let mut i: usize = 0;
        while i < n
            invariant
                i <= n == orig.len(),
                rest.len() == n - i,
                forall|k: int| 0 <= k < n - i ==> (#[trigger] rest@[k]).0@ == orig[n - 1 - k].0 && rest@[k].1 == orig[n - 1 - k].1,
                kept@.map_values(|e: (String, VpnKind)| (e.0@, e.1)) == without(orig.subrange(0, i as int), name@),
            decreases n - i,
        {
            let e = rest.pop().unwrap();
            let ghost before = kept@;
            proof {
                reveal(Seq::filter);
                assert(orig.subrange(0, i + 1).drop_last() =~= orig.subrange(0, i as int));
            }
            if !str_eq(e.0.as_str(), name) {
                kept.push(e);
                assert(kept@.map_values(|e: (String, VpnKind)| (e.0@, e.1)) =~= before.map_values(
                    |e: (String, VpnKind)| (e.0@, e.1),
                ).push(orig[i as int]));
            }
            i += 1;
        }
        assert(orig.subrange(0, n as int) =~= orig);
        self.active = kept;
    }

    /// Records that a session of `kind` is up on `name`.
    pub fn track(&mut self, name: &str, kind: VpnKind)
        ensures
            final(self).session(name@) == Some(kind),
            forall|m: Seq<char>| m != name@ ==> final(self).session(m) == old(self).session(m),
    {
        self.remove_entries(name);
        let ghost mid = self.entries();
        self.active.push((String::from_str(name), kind));
        proof {
            assert(self.entries() =~= mid.push((name@, kind)));
            assert forall|m: Seq<char>| m != name@ implies self.session(m) == old(self).session(m) by {
                assert(self.entries().drop_last() =~= mid);
                lemma_without(old(self).entries(), name@, m);
            }
        }
    }

    fn find(&self, name: &str) -> (r: Option<VpnKind>)
        ensures
            r == self.session(name@),
    {
        let ghost e = self.entries();
        let mut i = self.active.len();
        assert(e.subrange(0, i as int) =~= e);
        while i > 0
            invariant
                i <= self.active.len(),
                e == self.entries(),
                kind_of(e, name@) == kind_of(e.subrange(0, i as int), name@),
            decreases i,
        {
            assert(e.subrange(0, i as int).drop_last() =~= e.subrange(0, i - 1));
            if str_eq(self.active[i - 1].0.as_str(), name) {
                return Some(self.active[i - 1].1);
            }
            i -= 1;
        }
        None
    }

    /// Forgets the session on `name`, giving its kind if there was one.
    pub fn untrack(&mut self, name: &str) -> (r: Option<VpnKind>)
        ensures
            r == old(self).session(name@),
            final(self).session(name@) is None,
            forall|m: Seq<char>| m != name@ ==> final(self).session(m) == old(self).session(m),
    {
        let ghost old_e = self.entries();
        let found = self.find(name);
        self.remove_entries(name);
        proof {
            lemma_without(old_e, name@, name@);
            assert forall|m: Seq<char>| m != name@ implies self.session(m) == old(self).session(m) by {
                lemma_without(old_e, name@, m);
            }
        }
        found
    }

    /// Records a session a backend has brought up.
    pub fn connect(&mut self, session: &VpnSession)
        ensures
            final(self).session(session.interface_name@) == Some(session.kind),
            forall|m: Seq<char>| m != session.interface_name@ ==> final(self).session(m) == old(self).session(m),
    {
        self.track(session.interface_name.as_str(), session.kind);
    }

    /// Takes the session on `name` off the books and says which backend
    /// must tear it down; without one, a not-found error.
    pub fn disconnect(&mut self, name: &str) -> (r: Result<VpnKind, NetworkError>)
        ensures
            match old(self).session(name@) {
                Some(k) => r == Ok::<VpnKind, NetworkError>(k),
                None => crate::errors::not_found_err(r, "no active VPN session on '"@ + name@ + "'"@),
            },
            final(self).session(name@) is None,
            forall|m: Seq<char>| m != name@ ==> final(self).session(m) == old(self).session(m),
    {
        match self.untrack(name) {
            Some(k) => Ok(k),
            None => Err(NetworkError::NotFound(join3("no active VPN session on '", name, "'"))),
        }
    }
}

} // verus!
