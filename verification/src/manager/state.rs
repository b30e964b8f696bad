//! The manager's top-level state -- what a desktop shell's network
//! indicator reflects. Mirrors the vocabulary of NetworkManager's `NMState`.

use crate::connectivity::ConnectivityState;
use crate::device::{DeviceState, NetworkDevice};
use vstd::prelude::*;

verus! {

#[derive(Debug, Clone, Copy, PartialEq, Eq, Structural)]
pub enum NetworkState {
    Unknown,
    Unavailable,
    Disconnected,
    Connecting,
    /// A connection is up but nothing beyond the local link is confirmed
    /// reachable yet.
    ConnectedLocal,
    /// A connection is up and the connectivity check passed.
    Connected,
    /// Connected, but the connectivity check came back `Limited`.
    Limited,
    /// Connected, but stuck behind a captive portal.
    Portal,
    Disconnecting,
}

pub open spec fn any_in(ds: Seq<NetworkDevice>, p: spec_fn(DeviceState) -> bool) -> bool {
    exists|i: int| 0 <= i < ds.len() && p(#[trigger] ds[i].state)
}

/// The overall state, by precedence: any device mid-activation, then any
/// deactivating, then any activated (refined by connectivity); otherwise
/// unavailable unless some device is managed and available.
pub open spec fn overall_state_spec(ds: Seq<NetworkDevice>, c: ConnectivityState) -> NetworkState {
    if any_in(ds, |s: DeviceState| s == DeviceState::Connecting || s == DeviceState::IpConfiguring) {
        NetworkState::Connecting
    } else if any_in(ds, |s: DeviceState| s == DeviceState::Deactivating) {
        NetworkState::Disconnecting
    } else if any_in(ds, |s: DeviceState| s == DeviceState::Activated) {
        match c {
            ConnectivityState::Full => NetworkState::Connected,
            ConnectivityState::Limited => NetworkState::Limited,
            ConnectivityState::Portal => NetworkState::Portal,
            ConnectivityState::NoInternet | ConnectivityState::Unknown => NetworkState::ConnectedLocal,
        }
    } else if !any_in(
        ds,
        |s: DeviceState| s != DeviceState::Unavailable && s != DeviceState::Unmanaged,
    ) {
        NetworkState::Unavailable
    } else {
        NetworkState::Disconnected
    }
}

fn any_state(devices: &[NetworkDevice], a: DeviceState, b: DeviceState) -> (r: bool)
    ensures
        r == exists|i: int| 0 <= i < devices@.len() && (#[trigger] devices@[i].state == a || devices@[i].state == b),
{
    let mut i: usize = 0;
    while i < devices.len()
        invariant
            i <= devices.len(),
            forall|j: int| 0 <= j < i ==> devices@[j].state != a && devices@[j].state != b,
        decreases devices.len() - i,
    {
        if devices[i].state == a || devices[i].state == b {
            return true;
        }
        i += 1;
    }
    false
}

fn any_available(devices: &[NetworkDevice]) -> (r: bool)
    ensures
        r == exists|i: int|
            0 <= i < devices@.len() && #[trigger] devices@[i].state != DeviceState::Unavailable
                && devices@[i].state != DeviceState::Unmanaged,
{
    let mut i: usize = 0;
    while i < devices.len()
        invariant
            i <= devices.len(),
            forall|j: int|
                0 <= j < i ==> devices@[j].state == DeviceState::Unavailable || devices@[j].state
                    == DeviceState::Unmanaged,
        decreases devices.len() - i,
    {
        if devices[i].state != DeviceState::Unavailable && devices[i].state != DeviceState::Unmanaged {
            return true;
        }
        i += 1;
    }
    false
}

/// Derives the overall state from every device's state plus the last
/// connectivity check result. Pure on purpose: the manager recomputes it
/// after anything that could change it instead of tracking transitions.
pub fn overall_state(devices: &[NetworkDevice], connectivity: ConnectivityState) -> (r: NetworkState)
    ensures
        r == overall_state_spec(devices@, connectivity),
{
    if any_state(devices, DeviceState::Connecting, DeviceState::IpConfiguring) {
        return NetworkState::Connecting;
    }
    if any_state(devices, DeviceState::Deactivating, DeviceState::Deactivating) {
        return NetworkState::Disconnecting;
    }
    if any_state(devices, DeviceState::Activated, DeviceState::Activated) {
        return match connectivity {
            ConnectivityState::Full => NetworkState::Connected,
            ConnectivityState::Limited => NetworkState::Limited,
            ConnectivityState::Portal => NetworkState::Portal,
            ConnectivityState::NoInternet | ConnectivityState::Unknown => NetworkState::ConnectedLocal,
        };
    }
    if !any_available(devices) {
        NetworkState::Unavailable
    } else {
        NetworkState::Disconnected
    }
}

/// Whether some device in `ds` is in state `s`.
pub open spec fn some_device_in(ds: Seq<NetworkDevice>, s: DeviceState) -> bool {
    exists|i: int| 0 <= i < ds.len() && #[trigger] ds[i].state == s
}

/// With a connection up and no device coming up or going down, the overall
/// state is the connectivity verdict, one for one: a full check is
/// `Connected`, a limited one `Limited`, a captive portal `Portal`, and no
/// internet (or no verdict yet) `ConnectedLocal`.
pub proof fn lemma_connected_follows_connectivity(ds: Seq<NetworkDevice>, c: ConnectivityState)
    requires
        some_device_in(ds, DeviceState::Activated),
        !some_device_in(ds, DeviceState::Connecting),
        !some_device_in(ds, DeviceState::IpConfiguring),
        !some_device_in(ds, DeviceState::Deactivating),
    ensures
        overall_state_spec(ds, c) == NetworkState::Connected <==> c == ConnectivityState::Full,
        overall_state_spec(ds, c) == NetworkState::Limited <==> c == ConnectivityState::Limited,
        overall_state_spec(ds, c) == NetworkState::Portal <==> c == ConnectivityState::Portal,
        overall_state_spec(ds, c) == NetworkState::ConnectedLocal <==> (c == ConnectivityState::NoInternet || c
            == ConnectivityState::Unknown),
{
    let i = choose|i: int| 0 <= i < ds.len() && #[trigger] ds[i].state == DeviceState::Activated;
    assert(any_in(ds, |s: DeviceState| s == DeviceState::Activated)) by {
        assert((|s: DeviceState| s == DeviceState::Activated)(ds[i].state));
    }
    assert(!any_in(ds, |s: DeviceState| s == DeviceState::Connecting || s == DeviceState::IpConfiguring)) by {
        if any_in(ds, |s: DeviceState| s == DeviceState::Connecting || s == DeviceState::IpConfiguring) {
            let j = choose|j: int|
                0 <= j < ds.len() && (|s: DeviceState| s == DeviceState::Connecting || s
                    == DeviceState::IpConfiguring)(#[trigger] ds[j].state);
            assert(ds[j].state == DeviceState::Connecting || ds[j].state == DeviceState::IpConfiguring);
        }
    }
    assert(!any_in(ds, |s: DeviceState| s == DeviceState::Deactivating)) by {
        if any_in(ds, |s: DeviceState| s == DeviceState::Deactivating) {
            let j = choose|j: int|
                0 <= j < ds.len() && (|s: DeviceState| s == DeviceState::Deactivating)(#[trigger] ds[j].state);
            assert(ds[j].state == DeviceState::Deactivating);
        }
    }
}

/// A device coming up outweighs everything: the overall state is then
/// `Connecting`, whatever the connectivity verdict.
pub proof fn lemma_connecting_dominates(ds: Seq<NetworkDevice>, c: ConnectivityState)
    requires
        some_device_in(ds, DeviceState::Connecting) || some_device_in(ds, DeviceState::IpConfiguring),
    ensures
        overall_state_spec(ds, c) == NetworkState::Connecting,
{
    if some_device_in(ds, DeviceState::Connecting) {
        let i = choose|i: int| 0 <= i < ds.len() && #[trigger] ds[i].state == DeviceState::Connecting;
        assert((|s: DeviceState| s == DeviceState::Connecting || s == DeviceState::IpConfiguring)(ds[i].state));
    } else {
        let i = choose|i: int| 0 <= i < ds.len() && #[trigger] ds[i].state == DeviceState::IpConfiguring;
        assert((|s: DeviceState| s == DeviceState::Connecting || s == DeviceState::IpConfiguring)(ds[i].state));
    }
}

/// Without an activated device the connectivity verdict makes no
/// difference to the overall state.
pub proof fn lemma_connectivity_needs_a_connection(ds: Seq<NetworkDevice>, c1: ConnectivityState, c2: ConnectivityState)
    requires
        !some_device_in(ds, DeviceState::Activated),
    ensures
        overall_state_spec(ds, c1) == overall_state_spec(ds, c2),
        overall_state_spec(ds, c1) != NetworkState::Connected,
{
    assert(!any_in(ds, |s: DeviceState| s == DeviceState::Activated)) by {
        if any_in(ds, |s: DeviceState| s == DeviceState::Activated) {
            let j = choose|j: int|
                0 <= j < ds.len() && (|s: DeviceState| s == DeviceState::Activated)(#[trigger] ds[j].state);
            assert(ds[j].state == DeviceState::Activated);
        }
    }
}

/// With no device coming up, one going down makes the state
/// `Disconnecting`; with no device up or changing, the state is
/// `Unavailable` when every device is unavailable or unmanaged, else
/// `Disconnected`.
pub proof fn lemma_idle_states(ds: Seq<NetworkDevice>, c: ConnectivityState)
    requires
        !some_device_in(ds, DeviceState::Connecting),
        !some_device_in(ds, DeviceState::IpConfiguring),
    ensures
        some_device_in(ds, DeviceState::Deactivating) ==> overall_state_spec(ds, c) == NetworkState::Disconnecting,
        !some_device_in(ds, DeviceState::Deactivating) && !some_device_in(ds, DeviceState::Activated) ==> (
        overall_state_spec(ds, c) == NetworkState::Unavailable <==> forall|i: int|
            0 <= i < ds.len() ==> (#[trigger] ds[i].state == DeviceState::Unavailable || ds[i].state
                == DeviceState::Unmanaged)),
        !some_device_in(ds, DeviceState::Deactivating) && !some_device_in(ds, DeviceState::Activated) ==> (
        overall_state_spec(ds, c) == NetworkState::Disconnected || overall_state_spec(ds, c)
            == NetworkState::Unavailable),
{
    assert(!any_in(ds, |s: DeviceState| s == DeviceState::Connecting || s == DeviceState::IpConfiguring)) by {
        if any_in(ds, |s: DeviceState| s == DeviceState::Connecting || s == DeviceState::IpConfiguring) {
            let j = choose|j: int|
                0 <= j < ds.len() && (|s: DeviceState| s == DeviceState::Connecting || s
                    == DeviceState::IpConfiguring)(#[trigger] ds[j].state);
            assert(ds[j].state == DeviceState::Connecting || ds[j].state == DeviceState::IpConfiguring);
        }
    }
    if some_device_in(ds, DeviceState::Deactivating) {
        let i = choose|i: int| 0 <= i < ds.len() && #[trigger] ds[i].state == DeviceState::Deactivating;
        assert((|s: DeviceState| s == DeviceState::Deactivating)(ds[i].state));
    } else if !some_device_in(ds, DeviceState::Activated) {
        assert(!any_in(ds, |s: DeviceState| s == DeviceState::Deactivating)) by {
            if any_in(ds, |s: DeviceState| s == DeviceState::Deactivating) {
                let j = choose|j: int|
                    0 <= j < ds.len() && (|s: DeviceState| s == DeviceState::Deactivating)(#[trigger] ds[j].state);
                assert(ds[j].state == DeviceState::Deactivating);
            }
        }
        assert(!any_in(ds, |s: DeviceState| s == DeviceState::Activated)) by {
            if any_in(ds, |s: DeviceState| s == DeviceState::Activated) {
                let j = choose|j: int|
                    0 <= j < ds.len() && (|s: DeviceState| s == DeviceState::Activated)(#[trigger] ds[j].state);
                assert(ds[j].state == DeviceState::Activated);
            }
        }
        let avail = |s: DeviceState| s != DeviceState::Unavailable && s != DeviceState::Unmanaged;
        if any_in(ds, avail) {
            let j = choose|j: int| 0 <= j < ds.len() && avail(#[trigger] ds[j].state);
            assert(!(ds[j].state == DeviceState::Unavailable || ds[j].state == DeviceState::Unmanaged));
        } else {
            assert forall|i: int| 0 <= i < ds.len() implies (#[trigger] ds[i].state == DeviceState::Unavailable
                || ds[i].state == DeviceState::Unmanaged) by {
                if !(ds[i].state == DeviceState::Unavailable || ds[i].state == DeviceState::Unmanaged) {
                    assert(avail(ds[i].state));
                }
            }
        }
    }
}

} // verus!
