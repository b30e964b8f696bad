//! Which capability each request needs -- the per-request authorization
//! gate the server applies before handing a request to the manager.

use super::messages::Request;
use crate::security::policy::Capability;
use vstd::prelude::*;

verus! {

pub open spec fn required_capability_spec(req: Request) -> Capability {
    match req {
        Request::GetState | Request::ListDevices | Request::GetDevice { .. }
        | Request::ListConnections | Request::GetConnection { .. }
        | Request::ListWifiNetworks { .. } | Request::GetConnectivity
        | Request::ListBluetoothDevices | Request::GetProxyConfig | Request::ResolveProxy { .. }
        | Request::Diagnose => Capability::ViewState,
        Request::AddConnection { .. } | Request::DeleteConnection { .. }
        | Request::ActivateConnection { .. }
        | Request::DeactivateConnection { .. } => Capability::ManageConnections,
        Request::ScanWifi { .. } | Request::ConnectWifi { .. }
        | Request::ForgetWifi { .. } => Capability::ManageWifi,
        Request::StartHotspot { .. } | Request::StopHotspot { .. } => Capability::ManageHotspot,
        Request::SetFirewallZone { .. } | Request::AddFirewallRule { .. }
        | Request::RemoveFirewallRule { .. } => Capability::ManageFirewall,
        Request::BluetoothPower { .. } | Request::BluetoothScan { .. }
        | Request::PairBluetooth { .. } | Request::TrustBluetooth { .. }
        | Request::ConnectBluetooth { .. } | Request::DisconnectBluetooth { .. }
        | Request::RemoveBluetooth { .. } => Capability::ManageBluetooth,
        Request::SetProxyConfig { .. } => Capability::ManageProxy,
        Request::Reload => Capability::Admin,
    }
}

/// Which `Capability` a given `Request` needs.
pub fn required_capability(req: &Request) -> (c: Capability)
    ensures
        c == required_capability_spec(*req),
{
    match req {
        Request::GetState | Request::ListDevices | Request::GetDevice { .. }
        | Request::ListConnections | Request::GetConnection { .. }
        | Request::ListWifiNetworks { .. } | Request::GetConnectivity
        | Request::ListBluetoothDevices | Request::GetProxyConfig | Request::ResolveProxy { .. }
        | Request::Diagnose => Capability::ViewState,
        Request::AddConnection { .. } | Request::DeleteConnection { .. }
        | Request::ActivateConnection { .. }
        | Request::DeactivateConnection { .. } => Capability::ManageConnections,
        Request::ScanWifi { .. } | Request::ConnectWifi { .. }
        | Request::ForgetWifi { .. } => Capability::ManageWifi,
        Request::StartHotspot { .. } | Request::StopHotspot { .. } => Capability::ManageHotspot,
        Request::SetFirewallZone { .. } | Request::AddFirewallRule { .. }
        | Request::RemoveFirewallRule { .. } => Capability::ManageFirewall,
        Request::BluetoothPower { .. } | Request::BluetoothScan { .. }
        | Request::PairBluetooth { .. } | Request::TrustBluetooth { .. }
        | Request::ConnectBluetooth { .. } | Request::DisconnectBluetooth { .. }
        | Request::RemoveBluetooth { .. } => Capability::ManageBluetooth,
        Request::SetProxyConfig { .. } => Capability::ManageProxy,
        Request::Reload => Capability::Admin,
    }
}

} // verus!

verus! {

/// How many IPC connections may be open at once: the socket is
/// world-connectable, so without a cap any local user could hold
/// connections (each a thread) open forever.
pub const MAX_CONNECTIONS: usize = 128;

/// Stack size of a connection's handler thread.
pub const CONNECTION_STACK_SIZE: usize = 262144;

/// Requests one connection may make per second before it is slowed down.
pub const MAX_REQUESTS_PER_SEC: u32 = 50;

/// Whether a new connection may proceed, given how many were open when
/// it claimed its slot.
pub fn admit_connection(prior: usize) -> (b: bool)
    ensures
        b == (prior < MAX_CONNECTIONS),
{
    prior < MAX_CONNECTIONS
}

/// A fixed one-second window counting a connection's requests.
#[derive(Debug, Clone, Copy)]
pub struct RateWindow {
    /// Start of the current window, in monotonic milliseconds.
    pub start_ms: u64,
    /// Requests seen in the current window.
    pub count: u32,
}

impl RateWindow {
    pub fn new(now_ms: u64) -> (w: RateWindow)
        ensures
            w.start_ms == now_ms,
            w.count == 0,
    {
        RateWindow { start_ms: now_ms, count: 0 }
    }

    /// Counts a request arriving at `now_ms`, starting a new window once a
    /// second has passed; true when this request is over the per-second
    /// budget and the connection should be slowed down.
    pub fn on_request(&mut self, now_ms: u64) -> (throttle: bool)
        ensures
            ({
                let elapsed = if now_ms >= old(self).start_ms { now_ms - old(self).start_ms } else { 0 };
                let fresh = elapsed >= 1000;
                &&& final(self).start_ms == if fresh { now_ms } else { old(self).start_ms }
                &&& final(self).count == if fresh { 1 } else if old(self).count == u32::MAX { u32::MAX as int } else { old(self).count + 1 }
            }),
            throttle == (final(self).count > MAX_REQUESTS_PER_SEC),
    {
        let elapsed = if now_ms >= self.start_ms {
            now_ms - self.start_ms
        } else {
            0
        };
        if elapsed >= 1000 {
            self.start_ms = now_ms;
            self.count = 0;
        }
        if self.count < u32::MAX {
            self.count = self.count + 1;
        }
        self.count > MAX_REQUESTS_PER_SEC
    }
}

/// Whether `req` only reports something (state, devices, profiles, the
/// last scan results, connectivity, Bluetooth devices, the proxy settings
/// or a proxy decision, a diagnostic report) and changes nothing.
pub open spec fn only_reads(req: Request) -> bool {
    ||| req is GetState
    ||| req is ListDevices
    ||| req is GetDevice
    ||| req is ListConnections
    ||| req is GetConnection
    ||| req is ListWifiNetworks
    ||| req is GetConnectivity
    ||| req is ListBluetoothDevices
    ||| req is GetProxyConfig
    ||| req is ResolveProxy
    ||| req is Diagnose
}

/// Any local user may read: a request needs no more than `ViewState`
/// exactly when it only reads, and every request that changes something
/// needs a capability beyond `ViewState`.
pub proof fn lemma_reads_need_only_view_state(req: Request)
    ensures
        required_capability_spec(req) == Capability::ViewState <==> only_reads(req),
{
}

/// Listing the last scan results is a read, unlike starting a scan.
pub proof fn lemma_listing_is_not_scanning(device: String)
    ensures
        required_capability_spec(Request::ListWifiNetworks { device }) == Capability::ViewState,
        required_capability_spec(Request::ScanWifi { device }) == Capability::ManageWifi,
{
}

/// A request that changes something needs the capability of what it
/// changes: profiles, Wi-Fi, the hotspot, the firewall, Bluetooth, the
/// proxy settings, or (reloading) the daemon itself.
pub proof fn lemma_changes_need_their_capability(req: Request)
    ensures
        (req is AddConnection || req is DeleteConnection || req is ActivateConnection || req is DeactivateConnection)
            ==> required_capability_spec(req) == Capability::ManageConnections,
        (req is ScanWifi || req is ConnectWifi || req is ForgetWifi) ==> required_capability_spec(req)
            == Capability::ManageWifi,
        (req is StartHotspot || req is StopHotspot) ==> required_capability_spec(req) == Capability::ManageHotspot,
        (req is SetFirewallZone || req is AddFirewallRule || req is RemoveFirewallRule) ==> required_capability_spec(
            req,
        ) == Capability::ManageFirewall,
        (req is BluetoothPower || req is BluetoothScan || req is PairBluetooth || req is TrustBluetooth
            || req is ConnectBluetooth || req is DisconnectBluetooth || req is RemoveBluetooth)
            ==> required_capability_spec(req) == Capability::ManageBluetooth,
        req is SetProxyConfig ==> required_capability_spec(req) == Capability::ManageProxy,
        req is Reload ==> required_capability_spec(req) == Capability::Admin,
{
}

} // verus!
