use mitos_network::errors::NetworkError;
use mitos_network::ip::{IpAddress, Route};
use mitos_network::routing::default_route::{DefaultRouteRemoval, RemovalStep};
use mitos_network::device::DeviceType;
use mitos_network::routing::metrics::{base_metric, effective_metric};
use mitos_network::routing::policy::table_for;

#[test]
fn metrics_keep_tiers() {
    assert_eq!(base_metric(DeviceType::Vpn), 50);
    assert_eq!(base_metric(DeviceType::Ethernet), 100);
    assert_eq!(base_metric(DeviceType::WiFi), 600);
    assert_eq!(effective_metric(DeviceType::WiFi, 100), 576);
    assert_eq!(effective_metric(DeviceType::WiFi, -7), 607);
    assert_eq!(effective_metric(DeviceType::Ethernet, -100), 124);
    assert!(effective_metric(DeviceType::Ethernet, i32::MIN) < effective_metric(DeviceType::WiFi, i32::MAX));
    // Even adjacent tiers keep their order.
    assert!(effective_metric(DeviceType::Vpn, -40) < effective_metric(DeviceType::Ethernet, 40));
    assert!(effective_metric(DeviceType::Ethernet, -1000) < effective_metric(DeviceType::Bridge, 1000));
}

#[test]
fn policy_tables_saturate() {
    assert_eq!(table_for(0), 100);
    assert_eq!(table_for(5), 105);
    assert_eq!(table_for(152), 252);
    assert_eq!(table_for(153), 252);
    assert_eq!(table_for(255), 252);
}

fn route(dest: Option<(IpAddress, u8)>, oif: i32) -> Route {
    Route { destination: dest, gateway: None, oif_index: oif, metric: None }
}

#[test]
fn default_route_removal_steps() {
    let table = vec![
        route(None, 2),
        route(Some((IpAddress::V4([10, 0, 0, 0]), 8)), 2),
        route(None, 3),
        route(None, 2),
    ];
    let mut r = DefaultRouteRemoval::new(&table, 2);
    assert!(matches!(r.next(None), RemovalStep::Delete(x) if x.oif_index == 2 && x.destination.is_none()));
    assert!(matches!(r.next(Some(Ok(()))), RemovalStep::Delete(x) if x.oif_index == 2));
    assert!(matches!(r.next(Some(Ok(()))), RemovalStep::Done(Ok(()))));
    let mut r = DefaultRouteRemoval::new(&table, 2);
    assert!(matches!(r.next(None), RemovalStep::Delete(_)));
    let failed = r.next(Some(Err(NetworkError::PermissionDenied("route".to_string()))));
    assert!(matches!(failed, RemovalStep::Done(Err(NetworkError::PermissionDenied(m))) if m == "route"));
    let mut r = DefaultRouteRemoval::new(&table, 7);
    assert!(matches!(r.next(None), RemovalStep::Done(Ok(()))));
}
