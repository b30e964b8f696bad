use mitos_network::connection::{ActiveConnection, ActiveConnectionState, ConnectionProfile};
use mitos_network::connectivity::ConnectivityState;
use mitos_network::device::{DeviceState, DeviceType, HotplugEvent, NetworkDevice};
use mitos_network::errors::NetworkError;
use mitos_network::ipc::messages::{Event, Request, Response};
use mitos_network::manager::events::EventBus;
use mitos_network::manager::manager::{
    wifi_profile_id, NetworkManager, Outcome, RequestDone, WifiConnectAction, WifiConnectDone,
};
use mitos_network::manager::state::NetworkState;
use mitos_network::wifi::security::SecurityType;

fn dev(name: &str, ty: DeviceType, state: DeviceState, carrier: bool) -> NetworkDevice {
    NetworkDevice {
        name: name.to_string(),
        device_type: ty,
        state,
        carrier,
        active_connection: None,
    }
}

fn manager() -> NetworkManager {
    let devices = vec![
        dev("eth0", DeviceType::Ethernet, DeviceState::Disconnected, true),
        dev("wlan0", DeviceType::WiFi, DeviceState::Disconnected, true),
        dev("wlan1", DeviceType::WiFi, DeviceState::Unmanaged, false),
    ];
    let profiles = vec![ConnectionProfile::new_wifi(
        "wifi-home".to_string(),
        "home".to_string(),
        SecurityType::Wpa2Psk,
    )];
    NetworkManager::new(devices, profiles)
}

#[test]
fn event_bus_ids_are_fresh() {
    let mut bus = EventBus::new();
    let (a, rx_a) = bus.register();
    let (b, rx_b) = bus.register();
    assert_eq!((a, b), (0, 1));
    bus.broadcast(Event::ConnectionActivated("x".to_string()));
    assert!(matches!(rx_a.try_recv(), Ok(Event::ConnectionActivated(s)) if s == "x"));
    assert!(matches!(rx_b.try_recv(), Ok(Event::ConnectionActivated(_))));
    bus.unregister(a);
    bus.broadcast(Event::DeviceRemoved("eth0".to_string()));
    assert!(rx_a.try_recv().is_err());
    assert!(matches!(rx_b.try_recv(), Ok(Event::DeviceRemoved(_))));
    drop(rx_b);
    // The dropped client goes away; ids are not reused.
    bus.broadcast(Event::DeviceRemoved("eth0".to_string()));
    let (c, _rx_c) = bus.register();
    assert_eq!(c, 2);
}

#[test]
fn requests_answered_from_state() {
    let mut m = manager();
    assert!(matches!(m.handle_request(Request::GetState, RequestDone::Started), Outcome::Reply(Response::State(NetworkState::Disconnected))));
    assert!(matches!(m.handle_request(Request::ListDevices, RequestDone::Started), Outcome::Reply(Response::Devices(v)) if v.len() == 3));
    assert!(matches!(
        m.handle_request(Request::GetDevice { name: "wlan0".to_string() }, RequestDone::Started),
        Outcome::Reply(Response::Device(d)) if d.name == "wlan0"
    ));
    assert!(matches!(
        m.handle_request(Request::GetDevice { name: "nope".to_string() }, RequestDone::Started),
        Outcome::Reply(Response::Error(e)) if e == "no such device 'nope'"
    ));
    assert!(matches!(
        m.handle_request(Request::GetConnection { id: "wifi-home".to_string() }, RequestDone::Started),
        Outcome::Reply(Response::Connection(p)) if p.id == "wifi-home"
    ));
    assert!(matches!(
        m.handle_request(Request::GetConnection { id: "x".to_string() }, RequestDone::Started),
        Outcome::Reply(Response::Error(e)) if e == "no such connection 'x'"
    ));
    assert!(matches!(
        m.handle_request(Request::GetConnectivity, RequestDone::Started),
        Outcome::Reply(Response::Connectivity(ConnectivityState::Unknown))
    ));
    assert!(matches!(
        m.handle_request(Request::ScanWifi { device: "wlan0".to_string() }, RequestDone::Started),
        Outcome::Perform(Request::ScanWifi { .. })
    ));
}

#[test]
fn profiles_upsert_and_remove() {
    let mut m = manager();
    let mut p = ConnectionProfile::new_wifi("wifi-home".to_string(), "home".to_string(), SecurityType::Open);
    p.autoconnect_priority = 5;
    m.upsert_connection(p);
    assert_eq!(m.connections.len(), 1);
    assert_eq!(m.connections[0].autoconnect_priority, 5);
    m.upsert_connection(ConnectionProfile::new_wifi("wifi-cafe".to_string(), "cafe".to_string(), SecurityType::Open));
    assert_eq!(m.connections.len(), 2);
    m.remove_connection("wifi-home");
    assert_eq!(m.connections.len(), 1);
    assert_eq!(m.connections[0].id, "wifi-cafe");
    assert_eq!(wifi_profile_id("cafe"), "wifi-cafe");
}

#[test]
fn device_selection_and_targets() {
    let mut m = manager();
    let p = m.connections[0].clone();
    assert_eq!(m.find_device_for_profile(&p), Some("wlan0".to_string()));
    let mut pinned = p.clone();
    pinned.interface_name = Some("wlan1".to_string());
    assert_eq!(m.find_device_for_profile(&pinned), Some("wlan1".to_string()));
    pinned.interface_name = Some("wlan9".to_string());
    assert_eq!(m.find_device_for_profile(&pinned), None);

    assert!(m.autoconnect_eligible("eth0"));
    assert!(!m.autoconnect_eligible("wlan1"));
    assert!(!m.autoconnect_eligible("missing"));
    assert_eq!(m.wifi_scan_targets(), vec!["wlan0".to_string()]);

    assert!(m.set_connectivity(ConnectivityState::Full));
    assert!(!m.set_connectivity(ConnectivityState::Full));

    m.record_activation(
        "wlan0".to_string(),
        ActiveConnection { profile_id: "wifi-home".to_string(), state: ActiveConnectionState::Activated },
    );
    m.record_activation(
        "eth0".to_string(),
        ActiveConnection { profile_id: "wired".to_string(), state: ActiveConnectionState::Activating },
    );
    assert_eq!(m.lease_check_targets(), vec!["wlan0".to_string()]);
    assert_eq!(m.device_of_active("wifi-home"), Some("wlan0".to_string()));
    assert_eq!(m.device_of_active("nothing"), None);
    m.forget_active("wlan0");
    assert_eq!(m.device_of_active("wifi-home"), None);
    assert!(m.lease_check_targets().is_empty());
}

#[test]
fn hotplug_keeps_known_state() {
    let mut m = manager();
    m.set_device_state("eth0", DeviceState::Activated);
    let found = vec![
        dev("eth0", DeviceType::Ethernet, DeviceState::Disconnected, false),
        dev("usb0", DeviceType::Ethernet, DeviceState::Disconnected, true),
    ];
    let retry = m.handle_hotplug(HotplugEvent::LinkAdded("usb0".to_string()), found);
    assert_eq!(retry.as_deref(), Some("usb0"));
    assert_eq!(m.devices.len(), 2);
    assert_eq!(m.devices[0].state, DeviceState::Activated);
    assert!(!m.devices[0].carrier);
    assert_eq!(m.devices[1].name, "usb0");

    m.record_activation(
        "usb0".to_string(),
        ActiveConnection { profile_id: "wired".to_string(), state: ActiveConnectionState::Activated },
    );
    assert!(m.handle_hotplug(HotplugEvent::LinkRemoved("usb0".to_string()), Vec::new()).is_none());
    assert_eq!(m.devices.len(), 1);
    assert_eq!(m.device_of_active("wired"), None);
}

#[test]
fn connectivity_changes_are_reported() {
    let mut m = manager();
    assert!(m.connectivity_checked(Some(ConnectivityState::Full)));
    assert!(!m.connectivity_checked(Some(ConnectivityState::Full)));
    assert!(m.connectivity_checked(None));
    assert_eq!(m.connectivity, ConnectivityState::Unknown);
}

#[test]
fn activation_bookkeeping() {
    let mut m = manager();
    assert!(matches!(m.activation_target("nope"), Err(Response::Error(e)) if e == "no such connection profile 'nope'"));
    let (i, dev_name) = m.activation_target("wifi-home").unwrap();
    assert_eq!((i, dev_name.as_str()), (0, "wlan0"));

    let active = ActiveConnection { profile_id: "wifi-home".to_string(), state: ActiveConnectionState::Activated };
    m.activation_succeeded("wlan0".to_string(), active, DeviceState::Activated);
    assert_eq!(m.devices[1].state, DeviceState::Activated);
    assert_eq!(m.device_of_active("wifi-home"), Some("wlan0".to_string()));
    assert!(matches!(m.handle_request(Request::GetState, RequestDone::Started), Outcome::Reply(Response::State(NetworkState::ConnectedLocal))));

    let err = NetworkError::Wifi("no carrier".to_string());
    let r = m.activation_failed("eth0", &err);
    assert!(matches!(r, Response::Error(e) if e == "activation failed: no carrier"));
    assert_eq!(m.devices[0].state, DeviceState::Failed);

    // Both Wi-Fi devices: one busy, one pinned elsewhere by nothing -> wlan1 fits.
    assert_eq!(m.activation_target("wifi-home").unwrap().1, "wlan1");
}

#[test]
fn no_device_for_profile() {
    let devices = vec![dev("eth0", DeviceType::Ethernet, DeviceState::Disconnected, true)];
    let profiles = vec![ConnectionProfile::new_wifi("wifi-x".to_string(), "x".to_string(), SecurityType::Open)];
    let m = NetworkManager::new(devices, profiles);
    assert!(matches!(m.activation_target("wifi-x"), Err(Response::Error(e)) if e == "no available WiFi device for 'wifi-x'"));
    assert_eq!(DeviceType::Ethernet.name(), "Ethernet");
}

#[test]
fn deactivation_bookkeeping() {
    let mut m = manager();
    assert!(matches!(m.deactivation_target("wifi-home"), Err(Response::Error(e)) if e == "connection 'wifi-home' is not active"));
    m.record_activation(
        "wlan0".to_string(),
        ActiveConnection { profile_id: "wifi-home".to_string(), state: ActiveConnectionState::Activated },
    );
    assert_eq!(m.deactivation_target("wifi-home").unwrap(), "wlan0");
    assert_eq!(m.device_of_active("wifi-home"), None);
    assert!(matches!(m.deactivation_finished("wifi-home", Ok(())), Response::Success));
    let r = m.deactivation_finished("wifi-home", Err(NetworkError::Wifi("busy".to_string())));
    assert!(matches!(r, Response::Error(e) if e == "deactivation failed: busy"));

    m.record_activation(
        "gone0".to_string(),
        ActiveConnection { profile_id: "p".to_string(), state: ActiveConnectionState::Activated },
    );
    assert!(matches!(m.deactivation_target("p"), Err(Response::Error(e)) if e == "device 'gone0' disappeared"));
    assert_eq!(m.device_of_active("p"), None);
}

#[test]
fn autoconnect_picks_first_candidate() {
    let m = manager();
    let wlan = m.devices[1].clone();
    let mut pinned = ConnectionProfile::new_wifi("a".to_string(), "cafe".to_string(), SecurityType::Open);
    pinned.interface_name = Some("wlan1".to_string());
    let mut off = ConnectionProfile::new_wifi("b".to_string(), "home".to_string(), SecurityType::Open);
    off.autoconnect = false;
    let order = vec![
        pinned,
        off,
        ConnectionProfile::new_wifi("c".to_string(), "away".to_string(), SecurityType::Open),
        ConnectionProfile::new_wifi("d".to_string(), "home".to_string(), SecurityType::Open),
    ];
    let visible = vec!["home".to_string(), "cafe".to_string()];
    assert_eq!(NetworkManager::autoconnect_choice(&order, &wlan, &visible), Some(3));
    assert_eq!(NetworkManager::autoconnect_choice(&order, &wlan, &Vec::new()), None);
    let eth = m.devices[0].clone();
    let wired = vec![order[0].clone()];
    assert_eq!(NetworkManager::autoconnect_choice(&wired, &eth, &visible), None);
}

#[test]
fn add_and_delete_answers() {
    let mut m = manager();
    let p = ConnectionProfile::new_wifi("wifi-cafe".to_string(), "cafe".to_string(), SecurityType::Open);
    let r = m.connection_added(p.clone(), Err(NetworkError::Io("disk full".to_string())));
    assert!(matches!(r, Response::Error(e) if e == "disk full"));
    assert_eq!(m.connections.len(), 1);
    assert!(matches!(m.connection_added(p, Ok(())), Response::Success));
    assert_eq!(m.connections.len(), 2);
    let r = m.connection_deleted("wifi-cafe", Err(NetworkError::NotFound("connection profile 'wifi-cafe'".to_string())));
    assert!(matches!(r, Response::Error(_)));
    assert_eq!(m.connections.len(), 2);
    assert!(matches!(m.connection_deleted("wifi-cafe", Ok(())), Response::Success));
    assert_eq!(m.connections.len(), 1);
    assert!(matches!(m.wifi_forgotten("home"), Response::Success));
    assert!(m.connections.is_empty());
}

#[test]
fn connect_wifi_steps_in_order() {
    let mut m = manager();
    let step = |m: &mut NetworkManager, done| m.connect_wifi_step("wlan0", "cafe", SecurityType::Wpa2Psk, Some("password123"), done);
    match step(&mut m, WifiConnectDone::Started) {
        WifiConnectAction::StoreSecret { owner, key, value } => {
            assert_eq!((owner.as_str(), key, value.as_str()), ("wifi-cafe", "psk", "password123"));
        }
        _ => panic!("expected the secret first"),
    }
    let failed = step(&mut m, WifiConnectDone::SecretStored(Err(NetworkError::Io("read-only".to_string()))));
    assert!(matches!(failed, WifiConnectAction::Reply(Response::Error(e)) if e == "read-only"));
    assert_eq!(m.connections.len(), 1);
    match step(&mut m, WifiConnectDone::SecretStored(Ok(()))) {
        WifiConnectAction::SaveProfile(p) => {
            assert_eq!(p.id, "wifi-cafe");
            assert_eq!(p.interface_name.as_deref(), Some("wlan0"));
        }
        _ => panic!("expected the profile next"),
    }
    assert!(matches!(step(&mut m, WifiConnectDone::ProfileSaved(Ok(()))), WifiConnectAction::Activate(id) if id == "wifi-cafe"));
    assert_eq!(m.connections.len(), 2);
    assert_eq!(m.connections[1].id, "wifi-cafe");
    let open = m.connect_wifi_step("wlan0", "free", SecurityType::Open, None, WifiConnectDone::Started);
    assert!(matches!(open, WifiConnectAction::SaveProfile(_)));
}

#[test]
fn mutating_requests_step_by_step() {
    let mut m = manager();
    let p = ConnectionProfile::new_wifi("wifi-cafe".to_string(), "cafe".to_string(), SecurityType::Open);
    let add = Request::AddConnection { profile: p.clone() };
    assert!(matches!(m.handle_request(add.clone(), RequestDone::Started), Outcome::SaveProfile(q) if q.id == "wifi-cafe"));
    assert_eq!(m.connections.len(), 1);
    let failed = m.handle_request(add.clone(), RequestDone::ProfileSaved(Err(NetworkError::Io("disk full".to_string()))));
    assert!(matches!(failed, Outcome::Reply(Response::Error(e)) if e == "disk full"));
    assert_eq!(m.connections.len(), 1);
    assert!(matches!(m.handle_request(add, RequestDone::ProfileSaved(Ok(()))), Outcome::Reply(Response::Success)));
    assert_eq!(m.connections.len(), 2);

    let wifi = Request::ConnectWifi {
        device: "wlan0".to_string(),
        ssid: "airport".to_string(),
        security: SecurityType::Wpa2Psk,
        passphrase: Some("password123".to_string()),
    };
    assert!(matches!(
        m.handle_request(wifi.clone(), RequestDone::Started),
        Outcome::StoreSecret { owner, key: "psk", value } if owner == "wifi-airport" && value == "password123"
    ));
    let failed = m.handle_request(wifi.clone(), RequestDone::SecretStored(Err(NetworkError::Io("read-only".to_string()))));
    assert!(matches!(failed, Outcome::Reply(Response::Error(e)) if e == "read-only"));
    assert_eq!(m.connections.len(), 2);
    assert!(matches!(m.handle_request(wifi.clone(), RequestDone::SecretStored(Ok(()))), Outcome::SaveProfile(q) if q.id == "wifi-airport"));
    assert!(matches!(m.handle_request(wifi, RequestDone::ProfileSaved(Ok(()))), Outcome::Activate(id) if id == "wifi-airport"));
    assert_eq!(m.connections.len(), 3);

    let del = Request::DeleteConnection { id: "wifi-cafe".to_string() };
    assert!(matches!(m.handle_request(del.clone(), RequestDone::Started), Outcome::DeleteProfile(id) if id == "wifi-cafe"));
    assert!(matches!(m.handle_request(del.clone(), RequestDone::ProfileDeleted(Ok(()))), Outcome::DeleteSecrets(id) if id == "wifi-cafe"));
    assert_eq!(m.connections.len(), 2);
    assert!(matches!(m.handle_request(del, RequestDone::SecretsDeleted), Outcome::Reply(Response::Success)));

    let forget = Request::ForgetWifi { device: "wlan0".to_string(), ssid: "airport".to_string() };
    assert!(matches!(
        m.handle_request(forget.clone(), RequestDone::Started),
        Outcome::ForgetNetwork { device, ssid, owner } if device == "wlan0" && ssid == "airport" && owner == "wifi-airport"
    ));
    assert!(matches!(m.handle_request(forget, RequestDone::Cleaned), Outcome::Reply(Response::Success)));
    assert_eq!(m.connections.len(), 1);
}
