//! Connection profiles (what to activate) and active connections (what is
//! up right now, on which device).

use crate::device::DeviceType;
use crate::wifi::security::SecurityType;
use vstd::prelude::*;

verus! {

#[derive(Debug, Clone)]
pub struct WifiSettings {
    pub ssid: String,
    pub security: SecurityType,
}

#[derive(Debug, Clone)]
pub struct ConnectionProfile {
    /// Stable identifier; also the profile's file name.
    pub id: String,
    pub device_type: DeviceType,
    /// Restricts the profile to one device, if set.
    pub interface_name: Option<String>,
    pub autoconnect: bool,
    pub autoconnect_priority: i32,
    pub wifi: Option<WifiSettings>,
}

impl ConnectionProfile {
    /// A Wi-Fi profile for `ssid` that autoconnects at default priority.
    pub fn new_wifi(id: String, ssid: String, security: SecurityType) -> (p: ConnectionProfile)
        ensures
            p.id == id,
            p.device_type == DeviceType::WiFi,
            p.interface_name is None,
            p.autoconnect,
            p.autoconnect_priority == 0,
            p.wifi matches Some(w) && w.ssid == ssid && w.security == security,
    {
        ConnectionProfile {
            id,
            device_type: DeviceType::WiFi,
            interface_name: None,
            autoconnect: true,
            autoconnect_priority: 0,
            wifi: Some(WifiSettings { ssid, security }),
        }
    }
}

#[derive(Debug, Clone, Copy, PartialEq, Eq, Structural)]
pub enum ActiveConnectionState {
    Activating,
    Activated,
    Deactivating,
    Deactivated,
}

#[derive(Debug, Clone)]
pub struct ActiveConnection {
    pub profile_id: String,
    pub state: ActiveConnectionState,
}

} // verus!
