//! Policy, parsing and state-tracking core of the mitos-network daemon.

pub mod bluetooth;
pub mod cli;
pub mod collections;
pub mod connection;
pub mod connectivity;
pub mod device;
pub mod errors;
pub mod firewall;
pub mod ip;
pub mod ipc;
pub mod logging;
pub mod manager;
pub mod monitoring;
pub mod persistence;
pub mod proxy;
pub mod routing;
pub mod security;
pub mod sharing;
pub mod text;
pub mod vpn;
pub mod wifi;
