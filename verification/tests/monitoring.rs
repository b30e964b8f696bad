use mitos_network::connectivity::ConnectivityState;
use mitos_network::device::{DeviceState, DeviceStatistics, DeviceType, NetworkDevice};
use mitos_network::monitoring::health::{device_health, HealthStatus};
use mitos_network::ip::{
    format_mac, hex_string, v4_string, v6_string, IpAddress, Neighbor, NeighborState, Route,
};
use mitos_network::monitoring::diagnostics::{
    collect, summarize_neighbor, summarize_route, ResolvConf,
};
use mitos_network::monitoring::signal::current;
use mitos_network::monitoring::statistics::{delta, prune_stale, RateSampler};
use mitos_network::wifi::wpa::parse_key_values;

#[test]
fn ipv4_and_hex_text() {
    assert_eq!(v4_string(192, 168, 1, 10), "192.168.1.10");
    assert_eq!(IpAddress::V4([0, 0, 0, 0]).to_text(), "0.0.0.0");
    assert_eq!(hex_string(0), "0");
    assert_eq!(hex_string(0xdb8), "db8");
    assert_eq!(hex_string(0xffff), "ffff");
}

#[test]
fn ipv6_text_follows_rfc5952() {
    assert_eq!(v6_string(&[0x2001, 0xdb8, 0, 0, 0, 0, 0, 1]), "2001:db8::1");
    assert_eq!(v6_string(&[0; 8]), "::");
    assert_eq!(v6_string(&[0, 0, 0, 0, 0, 0, 0, 1]), "::1");
    assert_eq!(v6_string(&[0xfe80, 0, 0, 0, 0, 0, 0, 0]), "fe80::");
    // A single zero group is not compressed.
    assert_eq!(v6_string(&[0x2001, 0xdb8, 0, 1, 1, 1, 1, 1]), "2001:db8:0:1:1:1:1:1");
    // The first of two equally long zero runs is compressed.
    assert_eq!(v6_string(&[1, 0, 0, 1, 0, 0, 1, 1]), "1::1:0:0:1:1");
    // The longer run wins.
    assert_eq!(v6_string(&[1, 0, 0, 1, 0, 0, 0, 1]), "1:0:0:1::1");
    // IPv4-mapped addresses keep the dotted quad.
    assert_eq!(v6_string(&[0, 0, 0, 0, 0, 0xffff, 0xc000, 0x0201]), "::ffff:192.0.2.1");
}

#[test]
fn mac_text_is_lowercase_colon_hex() {
    assert_eq!(format_mac(&[0x00, 0x1a, 0x2b, 0xfc, 0x0d, 0xee]), "00:1a:2b:fc:0d:ee");
}

fn v4(a: u8, b: u8, c: u8, d: u8) -> IpAddress {
    IpAddress::V4([a, b, c, d])
}

#[test]
fn route_and_neighbor_summaries() {
    let default = Route { destination: None, gateway: Some(v4(10, 0, 0, 1)), oif_index: 2, metric: Some(100) };
    let s = summarize_route(&default);
    assert_eq!(s.destination, "default");
    assert_eq!(s.gateway.as_deref(), Some("10.0.0.1"));
    assert_eq!(s.interface_index, 2);
    assert_eq!(s.metric, Some(100));

    let net = Route { destination: Some((v4(10, 0, 0, 0), 24)), gateway: None, oif_index: 2, metric: None };
    assert_eq!(summarize_route(&net).destination, "10.0.0.0/24");

    let n = Neighbor { ip: v4(10, 0, 0, 1), mac: Some([0xaa, 0xbb, 0xcc, 0, 1, 2]), ifindex: 2, state: NeighborState::Reachable };
    let s = summarize_neighbor(&n);
    assert_eq!(s.ip, "10.0.0.1");
    assert_eq!(s.mac.as_deref(), Some("aa:bb:cc:00:01:02"));
    assert!(s.reachable);
    let stale = Neighbor { state: NeighborState::Stale, mac: None, ..n };
    let s = summarize_neighbor(&stale);
    assert!(!s.reachable);
    assert_eq!(s.mac, None);
    let permanent = Neighbor { state: NeighborState::Permanent, ..n };
    assert!(summarize_neighbor(&permanent).reachable);
}

#[test]
fn report_collects_everything() {
    let routes_v4 = vec![Route { destination: None, gateway: Some(v4(192, 168, 0, 1)), oif_index: 3, metric: None }];
    let routes_v6 = vec![Route {
        destination: Some((IpAddress::V6([0x2001, 0xdb8, 0, 0, 0, 0, 0, 0]), 64)),
        gateway: None,
        oif_index: 3,
        metric: Some(256),
    }];
    let resolv = ResolvConf { nameservers: vec![v4(1, 1, 1, 1)], search: vec!["lan".to_string()] };
    let r = collect(Vec::new(), ConnectivityState::Limited, &routes_v4, &routes_v6, resolv, &Vec::new());
    assert_eq!(r.routes_v4[0].gateway.as_deref(), Some("192.168.0.1"));
    assert_eq!(r.routes_v6[0].destination, "2001:db8::/64");
    assert_eq!(r.dns.nameservers, vec!["1.1.1.1".to_string()]);
    assert_eq!(r.dns.search, vec!["lan".to_string()]);
    assert!(r.neighbors.is_empty());
    assert_eq!(r.connectivity, ConnectivityState::Limited);
}

fn stats(rx: u64, tx: u64) -> DeviceStatistics {
    DeviceStatistics { rx_bytes: rx, tx_bytes: tx, ..Default::default() }
}

#[test]
fn counter_deltas_saturate() {
    let d = delta(&stats(100, 50), &stats(150, 40));
    assert_eq!(d.rx_bytes, 50);
    assert_eq!(d.tx_bytes, 0);
}

#[test]
fn sampler_rates_and_pruning() {
    let mut s = RateSampler::new();
    assert!(s.sample("eth0", 1000, stats(100, 10)).is_none());
    let r = s.sample("eth0", 3000, stats(300, 30)).unwrap();
    assert_eq!(r.elapsed_ms, 2000);
    assert_eq!(r.delta.rx_bytes, 200);
    assert_eq!(r.delta.tx_bytes, 20);
    // A clock that did not move counts as one millisecond.
    let r = s.sample("eth0", 3000, stats(300, 30)).unwrap();
    assert_eq!(r.elapsed_ms, 1);
    assert!(s.sample("wlan0", 3000, stats(1, 1)).is_none());
    prune_stale(&mut s, 10_000, 5_000);
    assert!(s.sample("eth0", 10_000, stats(0, 0)).is_none());
}

#[test]
fn signal_poll_fields() {
    let poll = parse_key_values("RSSI=-45\nLINKSPEED=130\nNOISE=9999\nFREQUENCY=5180");
    let s = current(&poll);
    assert_eq!(s.rssi_dbm, Some(-45));
    assert_eq!(s.link_speed_mbps, Some(130));
    assert_eq!(s.frequency_mhz, Some(5180));
    let s = current(&parse_key_values("RSSI=abc\nFREQUENCY=-1"));
    assert_eq!(s.rssi_dbm, None);
    assert_eq!(s.link_speed_mbps, None);
    assert_eq!(s.frequency_mhz, None);
}

fn wired(state: DeviceState, carrier: bool) -> NetworkDevice {
    NetworkDevice { name: "eth0".to_string(), device_type: DeviceType::Ethernet, state, carrier, active_connection: None }
}

#[test]
fn health_verdicts() {
    let huge = DeviceStatistics { rx_packets: u64::MAX, tx_packets: u64::MAX, rx_errors: u64::MAX, ..Default::default() };
    assert_eq!(device_health(&wired(DeviceState::Failed, true), Some(&huge)), HealthStatus::Unhealthy);
    assert_eq!(device_health(&wired(DeviceState::Activated, false), Some(&huge)), HealthStatus::Unhealthy);
    assert_eq!(device_health(&wired(DeviceState::Connecting, true), None), HealthStatus::Degraded);
    assert_eq!(device_health(&wired(DeviceState::Disconnected, true), None), HealthStatus::Unknown);
    let bad = DeviceStatistics { rx_packets: 50, tx_packets: 50, rx_errors: 6, ..Default::default() };
    assert_eq!(device_health(&wired(DeviceState::Activated, true), Some(&bad)), HealthStatus::Degraded);
    let fine = DeviceStatistics { rx_packets: 50, tx_packets: 50, rx_errors: 5, ..Default::default() };
    assert_eq!(device_health(&wired(DeviceState::Activated, true), Some(&fine)), HealthStatus::Healthy);
    assert_eq!(device_health(&wired(DeviceState::Activated, true), None), HealthStatus::Healthy);
}
