//! Internet sharing and hotspots: the DHCP server for their clients and
//! the fixed addressing a hotspot uses.

pub mod dhcp_server;
pub mod hotspot;
pub mod internet_sharing;
