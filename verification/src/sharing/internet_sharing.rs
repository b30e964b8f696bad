//! Sharing one interface's internet access over another (wired or
//! virtual) interface: the same DHCP and NAT as a hotspot, without the
//! radio.

use crate::sharing::dhcp_server::DhcpServerConfig;
use crate::sharing::hotspot::LEASE_TIME_SECS;
use vstd::prelude::*;

verus! {

/// A running share: the LAN side and the WAN side.
#[derive(Debug, Clone)]
pub struct SharingSession {
    pub lan_interface: String,
    pub wan_interface: String,
}

/// The DHCP server on the LAN side: this host (`server_ip`) is router and
/// DNS server for the pool.
pub fn dhcp_config(lan_interface: &str, server_ip: u32, prefixlen: u8, pool: (u32, u32)) -> (c: DhcpServerConfig)
    ensures
        c.interface@ == lan_interface@,
        c.server_ip == server_ip,
        c.pool_start == pool.0,
        c.pool_end == pool.1,
        c.prefixlen == prefixlen,
        c.lease_time_secs == LEASE_TIME_SECS,
        c.dns_servers@ == seq![server_ip],
{
    let mut dns = Vec::new();
    dns.push(server_ip);
    DhcpServerConfig {
        interface: String::from_str(lan_interface),
        server_ip,
        pool_start: pool.0,
        pool_end: pool.1,
        prefixlen,
        lease_time_secs: LEASE_TIME_SECS,
        dns_servers: dns,
    }
}

} // verus!
