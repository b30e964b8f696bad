//! Network devices as the rest of the crate sees them: their kind, their
//! lifecycle state and their traffic counters.

use vstd::prelude::*;

verus! {

#[derive(Debug, Clone, Copy, PartialEq, Eq, Structural)]
pub enum DeviceType {
    Ethernet,
    WiFi,
    Bluetooth,
    Bridge,
    Bond,
    Vlan,
    Tunnel,
    Vpn,
    Virtual,
    Loopback,
    Unknown,
}

/// The name of a device kind as messages print it.
pub open spec fn device_type_name(t: DeviceType) -> Seq<char> {
    match t {
        DeviceType::Ethernet => "Ethernet"@,
        DeviceType::WiFi => "WiFi"@,
        DeviceType::Bluetooth => "Bluetooth"@,
        DeviceType::Bridge => "Bridge"@,
        DeviceType::Bond => "Bond"@,
        DeviceType::Vlan => "Vlan"@,
        DeviceType::Tunnel => "Tunnel"@,
        DeviceType::Vpn => "Vpn"@,
        DeviceType::Virtual => "Virtual"@,
        DeviceType::Loopback => "Loopback"@,
        DeviceType::Unknown => "Unknown"@,
    }
}

impl DeviceType {
    pub fn name(self) -> (r: &'static str)
        ensures
            r@ == device_type_name(self),
    {
        match self {
            DeviceType::Ethernet => "Ethernet",
            DeviceType::WiFi => "WiFi",
            DeviceType::Bluetooth => "Bluetooth",
            DeviceType::Bridge => "Bridge",
            DeviceType::Bond => "Bond",
            DeviceType::Vlan => "Vlan",
            DeviceType::Tunnel => "Tunnel",
            DeviceType::Vpn => "Vpn",
            DeviceType::Virtual => "Virtual",
            DeviceType::Loopback => "Loopback",
            DeviceType::Unknown => "Unknown",
        }
    }
}

#[derive(Debug, Clone, Copy, PartialEq, Eq, Structural)]
pub enum DeviceState {
    Unmanaged,
    Unavailable,
    Disconnected,
    Connecting,
    IpConfiguring,
    Activated,
    Deactivating,
    Failed,
}

#[derive(Debug, Clone)]
pub struct NetworkDevice {
    pub name: String,
    pub device_type: DeviceType,
    pub state: DeviceState,
    /// Whether the link has carrier (cable plugged in / radio associated).
    pub carrier: bool,
    /// Id of the connection profile active on this device, if any.
    pub active_connection: Option<String>,
}

/// Lifetime traffic counters of one device.
#[derive(Debug, Clone, Copy, Default)]
pub struct DeviceStatistics {
    pub rx_bytes: u64,
    pub tx_bytes: u64,
    pub rx_packets: u64,
    pub tx_packets: u64,
    pub rx_errors: u64,
    pub tx_errors: u64,
    pub rx_dropped: u64,
    pub tx_dropped: u64,
}

} // verus!

verus! {

/// A change to the set of network interfaces, as the kernel reports it.
#[derive(Debug, Clone)]
pub enum HotplugEvent {
    LinkAdded(String),
    LinkRemoved(String),
    LinkChanged(String),
    AddressChanged(String),
}

} // verus!
