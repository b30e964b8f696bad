//! The messages of the IPC protocol.

use crate::bluetooth::BluetoothDevice;
use crate::connection::ConnectionProfile;
use crate::connectivity::ConnectivityState;
use crate::device::{DeviceState, NetworkDevice};
use crate::firewall::Rule;
use crate::manager::state::NetworkState;
use crate::monitoring::diagnostics::DiagnosticReport;
use crate::proxy::ProxyConfig;
use crate::wifi::{SecurityType, WifiNetwork};
use vstd::prelude::*;

verus! {

#[derive(Debug, Clone)]
pub enum Request {
    GetState,
    ListDevices,
    GetDevice { name: String },
    ListConnections,
    GetConnection { id: String },
    AddConnection { profile: ConnectionProfile },
    DeleteConnection { id: String },
    ActivateConnection { id: String },
    DeactivateConnection { id: String },
    ScanWifi { device: String },
    ListWifiNetworks { device: String },
    ConnectWifi { device: String, ssid: String, security: SecurityType, passphrase: Option<String> },
    ForgetWifi { device: String, ssid: String },
    StartHotspot { device: String, ssid: String, passphrase: Option<String>, uplink: Option<String> },
    StopHotspot { device: String },
    SetFirewallZone { interface: String, zone: String },
    AddFirewallRule { rule: Rule },
    RemoveFirewallRule { id: String },
    GetConnectivity,
    Diagnose,
    Reload,
    ListBluetoothDevices,
    BluetoothPower { on: bool },
    BluetoothScan { on: bool },
    PairBluetooth { mac: String },
    TrustBluetooth { mac: String },
    ConnectBluetooth { mac: String },
    DisconnectBluetooth { mac: String },
    RemoveBluetooth { mac: String },
    SetProxyConfig { config: ProxyConfig },
    GetProxyConfig,
    /// What proxy (or `DIRECT`) a client should use for `url` under the
    /// active proxy configuration.
    ResolveProxy { url: String },
}

#[derive(Debug, Clone)]
pub enum Response {
    /// The request succeeded and carries no data.
    Success,
    State(NetworkState),
    Devices(Vec<NetworkDevice>),
    Device(NetworkDevice),
    Connections(Vec<ConnectionProfile>),
    Connection(ConnectionProfile),
    WifiNetworks(Vec<WifiNetwork>),
    Connectivity(ConnectivityState),
    Diagnostics(Box<DiagnosticReport>),
    BluetoothDevices(Vec<BluetoothDevice>),
    ProxyConfig(Option<ProxyConfig>),
    ProxyResolution(String),
    Error(String),
}

/// Pushed to every connected client.
#[derive(Debug, Clone)]
pub enum Event {
    StateChanged(NetworkState),
    DeviceAdded(NetworkDevice),
    DeviceRemoved(String),
    DeviceStateChanged { device: String, state: DeviceState },
    ConnectionActivated(String),
    ConnectionDeactivated(String),
    ConnectivityChanged(ConnectivityState),
}

/// What the server sends: the response to a request, or an event.
#[derive(Debug, Clone)]
pub enum ServerMessage {
    Response(Response),
    Event(Event),
}

} // verus!
