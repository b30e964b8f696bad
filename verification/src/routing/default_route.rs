//! Installing and removing "the" default route of an interface.

use crate::errors::NetworkError;
use crate::ip::Route;
use vstd::prelude::*;

verus! {

/// A default route (no destination) out of interface `oif_index`.
pub open spec fn is_default_on(r: Route, oif_index: i32) -> bool {
    r.destination is None && r.oif_index == oif_index
}

/// The routes that replacing or removing the default route of
/// `oif_index` deletes: every default route out of that interface, in
/// table order. Other interfaces' routes, and the other address family's
/// table, are left alone.
pub fn remove(routes: &Vec<Route>, oif_index: i32) -> (out: Vec<Route>)
    ensures
        out@ == routes@.filter(|r: Route| is_default_on(r, oif_index)),
{
    let mut out: Vec<Route> = Vec::new();
    let mut i: usize = 0;
    while i < routes.len()
        invariant
            i <= routes.len(),
            out@ == routes@.subrange(0, i as int).filter(|r: Route| is_default_on(r, oif_index)),
        decreases routes.len() - i,
    {
        let r = routes[i];
        proof {
            reveal(Seq::filter);
            assert(routes@.subrange(0, i + 1).drop_last() =~= routes@.subrange(0, i as int));
        }
        if r.destination.is_none() && r.oif_index == oif_index {
            out.push(r);
        }
        i += 1;
    }
    assert(routes@.subrange(0, routes.len() as int) =~= routes@);
    out
}

/// What removing the default routes of an interface does next.
pub enum RemovalStep {
    /// Delete this route from the kernel's table, then report the result.
    Delete(Route),
    /// Finished: `Ok` once every route was deleted, else the first error.
    Done(Result<(), NetworkError>),
}

/// Removing the default routes of an interface from a route table, one
/// deletion at a time, stopping at the first deletion that fails.
pub struct DefaultRouteRemoval {
    targets: Vec<Route>,
    deleted: usize,
}

impl DefaultRouteRemoval {
    /// The routes to delete, in table order.
    pub closed spec fn targets(self) -> Seq<Route> {
        self.targets@
    }

    /// How many of them were handed out for deletion so far.
    pub closed spec fn deleted(self) -> nat {
        self.deleted as nat
    }

    pub closed spec fn wf(self) -> bool {
        self.deleted <= self.targets.len()
    }

    /// Starts removing the default routes of `oif_index` from `routes`
    /// (one address family's table, as listed before the removal).
    pub fn new(routes: &Vec<Route>, oif_index: i32) -> (r: DefaultRouteRemoval)
        ensures
            r.wf(),
            r.targets() == routes@.filter(|x: Route| is_default_on(x, oif_index)),
            r.deleted() == 0,
    {
        DefaultRouteRemoval { targets: remove(routes, oif_index), deleted: 0 }
    }

    /// The next step, given the result of the last deletion (`None` at the
    /// start): a failed deletion ends the removal with its error; otherwise
    /// the next route is deleted, or, when none is left, the removal ends
    /// with `Ok`.
    pub fn next(&mut self, last: Option<Result<(), NetworkError>>) -> (s: RemovalStep)
        requires
            old(self).wf(),
        ensures
            final(self).wf(),
            final(self).targets() == old(self).targets(),
            last matches Some(Err(e)) ==> (s matches RemovalStep::Done(Err(e2)) && e2 == e)
                && final(self).deleted() == old(self).deleted(),
            !(last matches Some(Err(_))) && old(self).deleted() < old(self).targets().len() ==> (
            s matches RemovalStep::Delete(r) && r == old(self).targets()[old(self).deleted() as int])
                && final(self).deleted() == old(self).deleted() + 1,
            !(last matches Some(Err(_))) && old(self).deleted() == old(self).targets().len() ==> (
            s matches RemovalStep::Done(Ok(()))) && final(self).deleted() == old(self).deleted(),
    {
        match last {
            Some(Err(e)) => RemovalStep::Done(Err(e)),
            _ => {
                if self.deleted < self.targets.len() {
                    let r = self.targets[self.deleted];
                    self.deleted = self.deleted + 1;
                    RemovalStep::Delete(r)
                } else {
                    RemovalStep::Done(Ok(()))
                }
            },
        }
    }
}

} // verus!
