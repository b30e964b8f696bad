//! A coarse per-device health verdict, meant for a UI status dot.

use crate::device::{DeviceState, DeviceStatistics, NetworkDevice};
use vstd::prelude::*;

verus! {

#[derive(Debug, Clone, Copy, PartialEq, Eq, Structural)]
pub enum HealthStatus {
    Healthy,
    Degraded,
    Unhealthy,
    Unknown,
}

pub open spec fn packets(s: DeviceStatistics) -> int {
    s.rx_packets + s.tx_packets
}

pub open spec fn faults(s: DeviceStatistics) -> int {
    s.rx_errors + s.tx_errors + s.rx_dropped + s.tx_dropped
}

/// The counter sums the verdict computes (for an activated device with
/// carrier) fit in a `u64`.
pub open spec fn stats_sums_fit(s: DeviceStatistics) -> bool {
    packets(s) <= u64::MAX && faults(s) * 100 <= u64::MAX
}

pub open spec fn device_health_spec(d: NetworkDevice, stats: Option<DeviceStatistics>) -> HealthStatus {
    match d.state {
        DeviceState::Unmanaged | DeviceState::Unavailable => HealthStatus::Unknown,
        DeviceState::Failed => HealthStatus::Unhealthy,
        DeviceState::Connecting | DeviceState::IpConfiguring | DeviceState::Deactivating => HealthStatus::Degraded,
        DeviceState::Disconnected => HealthStatus::Unknown,
        DeviceState::Activated => if !d.carrier {
            HealthStatus::Unhealthy
        } else {
            match stats {
                Some(s) => if packets(s) > 0 && faults(s) * 100 / packets(s) > 5 {
                    HealthStatus::Degraded
                } else {
                    HealthStatus::Healthy
                },
                None => HealthStatus::Healthy,
            }
        },
    }
}

/// Healthy, degraded (mid-transition, or an error/drop rate above 5%),
/// unhealthy (failed, or activated without carrier) or unknown.
pub fn device_health(device: &NetworkDevice, stats: Option<&DeviceStatistics>) -> (h: HealthStatus)
    requires
        device.state == DeviceState::Activated && device.carrier ==> (stats matches Some(s) ==> stats_sums_fit(*s)),
    ensures
        h == device_health_spec(
            *device,
            match stats {
                Some(s) => Some(*s),
                None => None,
            },
        ),
{
    match device.state {
        DeviceState::Unmanaged | DeviceState::Unavailable => HealthStatus::Unknown,
        DeviceState::Failed => HealthStatus::Unhealthy,
        DeviceState::Connecting | DeviceState::IpConfiguring | DeviceState::Deactivating => HealthStatus::Degraded,
        DeviceState::Disconnected => HealthStatus::Unknown,
        DeviceState::Activated => {
            if !device.carrier {
                return HealthStatus::Unhealthy;
            }
            if let Some(s) = stats {
                let total = s.rx_packets + s.tx_packets;
                let errors = s.rx_errors + s.tx_errors + s.rx_dropped + s.tx_dropped;
                let denom = if total > 1 {
                    total
                } else {
                    1
                };
                if total > 0 && (errors * 100 / denom) > 5 {
                    return HealthStatus::Degraded;
                }
            }
            HealthStatus::Healthy
        },
    }
}

} // verus!
