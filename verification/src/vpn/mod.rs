//! VPN backends: WireGuard (configured in-process) and OpenVPN (a
//! supervised `openvpn` process), plus tracking of which interface belongs
//! to which active session.

pub mod openvpn;
pub mod tunnel;
pub mod vpn;
pub mod wg_netlink;
pub mod wireguard;
