//! A point-in-time snapshot for `mitos-netctl diagnose` and bug reports:
//! routes, DNS, neighbors and connectivity in one place.

use crate::connectivity::ConnectivityState;
use crate::device::NetworkDevice;
use crate::ip::{format_mac, IpAddress, Neighbor, NeighborState, Route};
use crate::text::{decimal, push_char, u64_to_string, views};
use vstd::prelude::*;

verus! {

#[derive(Debug, Clone)]
pub struct DiagnosticReport {
    pub devices: Vec<NetworkDevice>,
    pub routes_v4: Vec<RouteSummary>,
    pub routes_v6: Vec<RouteSummary>,
    pub dns: DnsSummary,
    pub neighbors: Vec<NeighborSummary>,
    pub connectivity: ConnectivityState,
}

#[derive(Debug, Clone)]
pub struct RouteSummary {
    pub destination: String,
    pub gateway: Option<String>,
    pub interface_index: i32,
    pub metric: Option<u32>,
}

#[derive(Debug, Clone)]
pub struct DnsSummary {
    pub nameservers: Vec<String>,
    pub search: Vec<String>,
}

#[derive(Debug, Clone)]
pub struct NeighborSummary {
    pub ip: String,
    pub mac: Option<String>,
    pub interface_index: i32,
    pub reachable: bool,
}

/// The resolver configuration in effect (`/etc/resolv.conf`).
#[derive(Debug, Clone)]
pub struct ResolvConf {
    pub nameservers: Vec<IpAddress>,
    pub search: Vec<String>,
}

/// `Some(t)` as `Some(t@)`.
pub open spec fn opt_view(o: Option<String>) -> Option<Seq<char>> {
    match o {
        Some(t) => Some(t@),
        None => None,
    }
}

/// Text of a route's destination: `addr/len`, or `default`.
pub open spec fn destination_text(d: Option<(IpAddress, u8)>) -> Seq<char> {
    match d {
        Some((ip, len)) => ip.text() + seq!['/'] + decimal(len as nat),
        None => seq!['d', 'e', 'f', 'a', 'u', 'l', 't'],
    }
}

/// `s` summarizes route `r`.
pub open spec fn summarizes_route(s: RouteSummary, r: Route) -> bool {
    &&& s.destination@ == destination_text(r.destination)
    &&& opt_view(s.gateway) == match r.gateway {
        Some(g) => Some(g.text()),
        None => None::<Seq<char>>,
    }
    &&& s.interface_index == r.oif_index
    &&& s.metric == r.metric
}

/// `s` summarizes neighbor entry `n`; an entry counts as reachable when it
/// is confirmed reachable or permanent.
pub open spec fn summarizes_neighbor(s: NeighborSummary, n: Neighbor) -> bool {
    &&& s.ip@ == n.ip.text()
    &&& opt_view(s.mac) == match n.mac {
        Some(m) => Some(crate::ip::mac_text(m@)),
        None => None::<Seq<char>>,
    }
    &&& s.interface_index == n.ifindex
    &&& s.reachable == (n.state == NeighborState::Reachable || n.state
        == NeighborState::Permanent)
}

/// The summaries `out` are those of `routes`, one for one, in order.
pub open spec fn summarizes_routes(out: Seq<RouteSummary>, routes: Seq<Route>) -> bool {
    &&& out.len() == routes.len()
    &&& forall|i: int| 0 <= i < routes.len() ==> summarizes_route(#[trigger] out[i], routes[i])
}

pub fn summarize_route(r: &Route) -> (s: RouteSummary)
    ensures
        summarizes_route(s, *r),
{
    let destination = match r.destination {
        Some((ip, len)) => {
            let mut t = ip.to_text();
            push_char(&mut t, '/');
            let l = u64_to_string(len as u64);
            t.append(l.as_str());
            assert(t@ =~= destination_text(r.destination));
            t
        },
        None => String::from_str("default"),
    };
    proof {
        reveal_strlit("default");
        assert(destination@ =~= destination_text(r.destination));
    }
    let gateway = match r.gateway {
        Some(g) => Some(g.to_text()),
        None => None,
    };
    RouteSummary { destination, gateway, interface_index: r.oif_index, metric: r.metric }
}

pub fn summarize_neighbor(n: &Neighbor) -> (s: NeighborSummary)
    ensures
        summarizes_neighbor(s, *n),
{
    let mac = match n.mac {
        Some(m) => Some(format_mac(&m)),
        None => None,
    };
    let reachable = match n.state {
        NeighborState::Reachable | NeighborState::Permanent => true,
        _ => false,
    };
    NeighborSummary { ip: n.ip.to_text(), mac, interface_index: n.ifindex, reachable }
}

fn summarize_routes(routes: &Vec<Route>) -> (out: Vec<RouteSummary>)
    ensures
        summarizes_routes(out@, routes@),
{
    let mut out: Vec<RouteSummary> = Vec::new();
    for i in 0..routes.len()
        invariant
            out.len() == i,
            forall|j: int| 0 <= j < i ==> summarizes_route(#[trigger] out@[j], routes@[j]),
    {
        out.push(summarize_route(&routes[i]));
    }
    out
}

/// Assembles the report from what was read off the system: the routing
/// tables of both families, the resolver configuration and the neighbor
/// cache.
pub fn collect(
    devices: Vec<NetworkDevice>,
    connectivity: ConnectivityState,
    routes_v4: &Vec<Route>,
    routes_v6: &Vec<Route>,
    resolv: ResolvConf,
    neighbors: &Vec<Neighbor>,
) -> (r: DiagnosticReport)
    ensures
        r.devices@ == devices@,
        r.connectivity == connectivity,
        summarizes_routes(r.routes_v4@, routes_v4@),
        summarizes_routes(r.routes_v6@, routes_v6@),
        r.dns.nameservers.len() == resolv.nameservers.len(),
        forall|i: int|
            0 <= i < resolv.nameservers.len() ==> (#[trigger] r.dns.nameservers@[i])@
                == resolv.nameservers@[i].text(),
        views(r.dns.search@) == views(resolv.search@),
        r.neighbors.len() == neighbors.len(),
        forall|i: int|
            0 <= i < neighbors.len() ==> summarizes_neighbor(
                #[trigger] r.neighbors@[i],
                neighbors@[i],
            ),
{
    let v4 = summarize_routes(routes_v4);
    let v6 = summarize_routes(routes_v6);
    let mut nameservers: Vec<String> = Vec::new();
    for i in 0..resolv.nameservers.len()
        invariant
            nameservers.len() == i,
            forall|j: int|
                0 <= j < i ==> (#[trigger] nameservers@[j])@ == resolv.nameservers@[j].text(),
    {
        nameservers.push(resolv.nameservers[i].to_text());
    }
    let mut ns: Vec<NeighborSummary> = Vec::new();
    for i in 0..neighbors.len()
        invariant
            ns.len() == i,
            forall|j: int| 0 <= j < i ==> summarizes_neighbor(#[trigger] ns@[j], neighbors@[j]),
    {
        ns.push(summarize_neighbor(&neighbors[i]));
    }
    DiagnosticReport {
        devices,
        routes_v4: v4,
        routes_v6: v6,
        dns: DnsSummary { nameservers, search: resolv.search },
        neighbors: ns,
        connectivity,
    }
}

} // verus!
