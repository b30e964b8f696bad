//! Wi-Fi: security classification, scan-result parsing, roaming policy,
//! wpa_supplicant control-protocol handling and hostapd configuration.
//! The radio work itself is done by wpa_supplicant and hostapd; this is the
//! policy and protocol layer on top of them.

pub mod hotspot;
pub mod network;
pub mod roaming;
pub mod security;
pub mod wifi;
pub mod wpa;

pub use network::WifiNetwork;
pub use security::SecurityType;
