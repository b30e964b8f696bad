//! Route metric assignment. Lower metric wins in the kernel's route
//! selection, so these numbers encode the uplink preference order: a VPN
//! over the connection carrying it, wired over wireless, either over
//! Bluetooth PAN. Tiers leave headroom for per-connection
//! `autoconnect_priority` adjustments.

use crate::device::DeviceType;
use vstd::prelude::*;

verus! {

pub open spec fn base_metric_spec(t: DeviceType) -> int {
    match t {
        DeviceType::Vpn => 50,
        DeviceType::Ethernet => 100,
        DeviceType::Bridge | DeviceType::Bond => 150,
        DeviceType::WiFi => 600,
        DeviceType::Bluetooth => 700,
        DeviceType::Vlan | DeviceType::Tunnel => 400,
        DeviceType::Virtual | DeviceType::Loopback | DeviceType::Unknown => 900,
    }
}

pub open spec fn clamp(x: int, lo: int, hi: int) -> int {
    if x < lo {
        lo
    } else if x > hi {
        hi
    } else {
        x
    }
}

/// How far a priority may move a metric: less than half the smallest gap
/// (50) between two tiers, so that no priority crosses into another tier.
pub const MAX_PRIORITY_NUDGE: i64 = 24;

/// The base metric moved by the priority, clamped to
/// `+-MAX_PRIORITY_NUDGE`, and the result clamped to the valid range
/// `1..=65535`.
pub open spec fn effective_metric_spec(t: DeviceType, priority: int) -> int {
    clamp(base_metric_spec(t) - clamp(priority, -(MAX_PRIORITY_NUDGE as int), MAX_PRIORITY_NUDGE as int), 1, 65535)
}

pub fn base_metric(device_type: DeviceType) -> (m: u32)
    ensures
        m == base_metric_spec(device_type),
{
    match device_type {
        DeviceType::Vpn => 50,
        DeviceType::Ethernet => 100,
        DeviceType::Bridge | DeviceType::Bond => 150,
        DeviceType::WiFi => 600,
        DeviceType::Bluetooth => 700,
        DeviceType::Vlan | DeviceType::Tunnel => 400,
        DeviceType::Virtual | DeviceType::Loopback | DeviceType::Unknown => 900,
    }
}

/// A profile's own priority nudges the base metric without ever letting it
/// cross into a different device-type tier.
pub fn effective_metric(device_type: DeviceType, autoconnect_priority: i32) -> (m: u32)
    ensures
        m == effective_metric_spec(device_type, autoconnect_priority as int),
        1 <= m <= 65535,
{
    let base = base_metric(device_type) as i64;
    let p = autoconnect_priority as i64;
    let nudge = if p < -MAX_PRIORITY_NUDGE {
        -MAX_PRIORITY_NUDGE
    } else if p > MAX_PRIORITY_NUDGE {
        MAX_PRIORITY_NUDGE
    } else {
        p
    };
    let adjusted = base - nudge;
    let clamped = if adjusted < 1 {
        1
    } else if adjusted > 65535 {
        65535
    } else {
        adjusted
    };
    clamped as u32
}

/// A priority never moves a connection across a device-type tier: a
/// device type with a lower base metric wins over one with a higher base
/// metric, whatever either side's priority.
pub proof fn lemma_tier_dominates(better: DeviceType, worse: DeviceType, p_better: int, p_worse: int)
    requires
        base_metric_spec(better) < base_metric_spec(worse),
    ensures
        effective_metric_spec(better, p_better) < effective_metric_spec(worse, p_worse),
{
    assert(base_metric_spec(better) + 50 <= base_metric_spec(worse));
}

/// In particular a Wi-Fi network, whatever its priority, loses to any
/// wired connection.
pub proof fn lemma_wired_beats_wireless(p_wired: int, p_wifi: int)
    ensures
        effective_metric_spec(DeviceType::Ethernet, p_wired) < effective_metric_spec(
            DeviceType::WiFi,
            p_wifi,
        ),
{
    lemma_tier_dominates(DeviceType::Ethernet, DeviceType::WiFi, p_wired, p_wifi);
}

/// The effective metric stays within `MAX_PRIORITY_NUDGE` of the tier's
/// base metric.
pub proof fn lemma_metric_near_base(t: DeviceType, p: int)
    ensures
        base_metric_spec(t) - MAX_PRIORITY_NUDGE <= effective_metric_spec(t, p) <= base_metric_spec(t)
            + MAX_PRIORITY_NUDGE,
{
}

} // verus!
