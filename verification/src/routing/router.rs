//! A read-only view of the routing table: which default route the kernel
//! actually uses.

use crate::ip::{IpAddress, Route};
use vstd::prelude::*;

verus! {

/// A default route (no destination) with a gateway.
pub open spec fn is_gateway_default(r: Route) -> bool {
    r.destination is None && r.gateway is Some
}

/// The metric a route is ranked by; a route without one ranks last.
pub open spec fn rank(r: Route) -> u32 {
    match r.metric {
        Some(m) => m,
        None => u32::MAX,
    }
}

/// `i` is the first of the lowest-ranked gateway default routes.
pub open spec fn is_active_default(routes: Seq<Route>, i: int) -> bool {
    &&& 0 <= i < routes.len()
    &&& is_gateway_default(routes[i])
    &&& forall|j: int| 0 <= j < routes.len() && is_gateway_default(routes[j]) ==> rank(routes[i]) <= rank(#[trigger] routes[j])
    &&& forall|j: int| 0 <= j < i && is_gateway_default(routes[j]) ==> rank(routes[i]) < rank(#[trigger] routes[j])
}

/// The gateway and interface of the default route with the lowest metric
/// (the first such, on a tie), if there is any default route with a
/// gateway.
pub fn active_default_gateway(routes: &Vec<Route>) -> (r: Option<(IpAddress, i32)>)
    ensures
        match r {
            Some((gw, oif)) => exists|i: int| is_active_default(routes@, i) && routes@[i].gateway == Some(gw)
                && routes@[i].oif_index == oif,
            None => forall|i: int| 0 <= i < routes.len() ==> !is_gateway_default(#[trigger] routes@[i]),
        },
{
    let mut best: Option<usize> = None;
    let mut i: usize = 0;
    while i < routes.len()
        invariant
            i <= routes.len(),
            match best {
                Some(b) => b < i && is_gateway_default(routes@[b as int])
                    && (forall|j: int| 0 <= j < i && is_gateway_default(routes@[j]) ==> rank(routes@[b as int]) <= rank(#[trigger] routes@[j]))
                    && (forall|j: int| 0 <= j < b && is_gateway_default(routes@[j]) ==> rank(routes@[b as int]) < rank(#[trigger] routes@[j])),
                None => forall|j: int| 0 <= j < i ==> !is_gateway_default(#[trigger] routes@[j]),
            },
        decreases routes.len() - i,
    {
        let r = &routes[i];
        if r.destination.is_none() && r.gateway.is_some() {
            let m = match r.metric {
                Some(m) => m,
                None => u32::MAX,
            };
            match best {
                None => {
                    best = Some(i);
                },
                Some(b) => {
                    let bm = match routes[b].metric {
                        Some(m) => m,
                        None => u32::MAX,
                    };
                    if m < bm {
                        best = Some(i);
                    }
                },
            }
        }
        i += 1;
    }
    match best {
        Some(b) => {
            let gw = match routes[b].gateway {
                Some(g) => g,
                None => {
                    assert(false);
                    return None;
                },
            };
            assert(is_active_default(routes@, b as int));
            Some((gw, routes[b].oif_index))
        },
        None => None,
    }
}

} // verus!
