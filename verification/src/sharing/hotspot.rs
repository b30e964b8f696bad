//! A Wi-Fi hotspot: the radio in AP mode, the fixed `192.168.4.0/24`
//! addressing with this host at `.1`, a DHCP pool of `.10`-`.200`, and NAT
//! out through an uplink if one is given.

use crate::sharing::dhcp_server::DhcpServerConfig;
use crate::wifi::hotspot::HotspotConfig;
use vstd::prelude::*;

verus! {

/// 192.168.4.1, the hotspot's own address.
pub const AP_SERVER_IP: u32 = 0xC0A8_0401;
/// 192.168.4.10, the first address handed to clients.
pub const AP_POOL_START: u32 = 0xC0A8_040A;
/// 192.168.4.200, the last.
pub const AP_POOL_END: u32 = 0xC0A8_04C8;
pub const AP_PREFIXLEN: u8 = 24;
/// Lease time of hotspot and sharing clients.
pub const LEASE_TIME_SECS: u32 = 3600;

/// A running hotspot: the AP interface and the uplink it is NATed
/// through, if any.
#[derive(Debug, Clone)]
pub struct HotspotSession {
    pub interface: String,
    pub uplink: Option<String>,
}

/// The radio configuration: channel 6 on 2.4 GHz.
pub fn radio_config(interface: &str, ssid: &str, passphrase: Option<&str>) -> (c: HotspotConfig)
    ensures
        c.interface@ == interface@,
        c.ssid@ == ssid@,
        match passphrase {
            Some(p) => (c.passphrase matches Some(q) && q@ == p@),
            None => c.passphrase is None,
        },
        c.channel == 6,
        c.hw_mode@ == "g"@,
{
    HotspotConfig {
        interface: String::from_str(interface),
        ssid: String::from_str(ssid),
        passphrase: match passphrase {
            Some(p) => Some(String::from_str(p)),
            None => None,
        },
        channel: 6,
        hw_mode: String::from_str("g"),
    }
}

/// The DHCP server of a hotspot on `interface`: clients get addresses from
/// the pool and use this host as router and DNS server.
pub fn dhcp_config(interface: &str) -> (c: DhcpServerConfig)
    ensures
        c.interface@ == interface@,
        c.server_ip == AP_SERVER_IP,
        c.pool_start == AP_POOL_START,
        c.pool_end == AP_POOL_END,
        c.prefixlen == AP_PREFIXLEN,
        c.lease_time_secs == LEASE_TIME_SECS,
        c.dns_servers@ == seq![AP_SERVER_IP],
{
    let mut dns = Vec::new();
    dns.push(AP_SERVER_IP);
    DhcpServerConfig {
        interface: String::from_str(interface),
        server_ip: AP_SERVER_IP,
        pool_start: AP_POOL_START,
        pool_end: AP_POOL_END,
        prefixlen: AP_PREFIXLEN,
        lease_time_secs: LEASE_TIME_SECS,
        dns_servers: dns,
    }
}

} // verus!
