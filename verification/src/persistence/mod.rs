//! On-disk state: where connection profiles, DHCP leases and the last
//! proxy configuration live under the data directory, and the ordering of
//! profiles by last use.

pub mod profiles;
pub mod state;
