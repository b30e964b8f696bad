use mitos_network::errors::NetworkError;
use mitos_network::wifi::hotspot::{check_settings, config_path, render_config, HotspotConfig};
use mitos_network::wifi::security::SecurityType;
use mitos_network::wifi::wifi::{
    association_timeout, configure_eap, connect_steps, is_associated, join_plan, stale_network_ids,
    EapConfig, WifiContext, WpaStep, DEFAULT_CTRL_DIR,
};
use mitos_network::wifi::wpa::{
    check_ok_reply, event_matches, event_name, is_pong, lookup, network_command,
    normalize_reply, parse_add_network_reply, parse_key_values, parse_list_networks,
    server_path, set_network_quoted_command, set_network_raw_command,
};

fn set_quoted(step: &WpaStep) -> Option<(&'static str, String)> {
    match step {
        WpaStep::SetQuoted(k, v) => Some((k, v.clone())),
        _ => None,
    }
}

fn set_raw(step: &WpaStep) -> Option<(&'static str, String)> {
    match step {
        WpaStep::SetRaw(k, v) => Some((k, v.clone())),
        _ => None,
    }
}

#[test]
fn ctrl_dir_defaults_and_first_init_wins() {
    let mut c = WifiContext::new();
    assert_eq!(c.ctrl_socket_path("wlan0"), format!("{DEFAULT_CTRL_DIR}/wlan0"));
    c.init("/tmp/wpa");
    c.init("/other");
    assert_eq!(c.ctrl_socket_path("wlan0"), "/tmp/wpa/wlan0");
}

#[test]
fn psk_network_dialogue() {
    let steps = connect_steps("home", SecurityType::Wpa2Psk, Some("password123"), None);
    assert_eq!(steps.len(), 3);
    assert_eq!(set_quoted(&steps[0]), Some(("ssid", "home".to_string())));
    assert_eq!(set_raw(&steps[1]), Some(("key_mgmt", "WPA-PSK".to_string())));
    assert_eq!(set_quoted(&steps[2]), Some(("psk", "password123".to_string())));
}

#[test]
fn open_network_needs_no_key() {
    let steps = connect_steps("cafe", SecurityType::Open, None, None);
    assert_eq!(steps.len(), 2);
    assert_eq!(set_raw(&steps[1]), Some(("key_mgmt", "NONE".to_string())));
}

#[test]
fn missing_or_short_passphrase_fails() {
    let steps = connect_steps("home", SecurityType::Wpa2Psk, None, None);
    match steps.last() {
        Some(WpaStep::Fail(NetworkError::Wifi(m))) => {
            assert_eq!(m, "'home' requires a passphrase but none was provided/stored")
        }
        other => panic!("unexpected {other:?}"),
    }
    let steps = connect_steps("home", SecurityType::Wpa2Psk, Some("short"), None);
    assert!(matches!(steps.last(), Some(WpaStep::Fail(NetworkError::Parse(m))) if m == "WPA passphrase must be 8-63 characters"));
    assert_eq!(steps.len(), 3);
}

#[test]
fn enterprise_without_eap_settings_fails() {
    let steps = connect_steps("corp", SecurityType::WpaEnterprise, Some("pw"), None);
    assert_eq!(steps.len(), 3);
    assert!(matches!(steps.last(), Some(WpaStep::Fail(NetworkError::Wifi(_)))));
}

#[test]
fn peap_dialogue_warns_without_ca() {
    let eap = EapConfig {
        identity: Some("alice".to_string()),
        eap_method: Some("peap".to_string()),
        eap_phase2: Some("auth=MSCHAPV2".to_string()),
        ..Default::default()
    };
    let steps = configure_eap("corp", &eap, Some("secret"));
    assert_eq!(set_quoted(&steps[0]), Some(("identity", "alice".to_string())));
    assert_eq!(set_raw(&steps[1]), Some(("eap", "PEAP".to_string())));
    assert_eq!(set_quoted(&steps[2]), Some(("phase2", "auth=MSCHAPV2".to_string())));
    assert_eq!(set_quoted(&steps[3]), Some(("password", "secret".to_string())));
    assert!(matches!(&steps[4], WpaStep::Warn(m) if m.contains("no CA certificate")));
    assert_eq!(steps.len(), 5);
}

#[test]
fn tls_dialogue_checks_every_file() {
    let eap = EapConfig {
        identity: Some("bob".to_string()),
        ca_cert_path: Some("/etc/ca.pem".to_string()),
        client_cert_path: Some("/etc/client.pem".to_string()),
        private_key_path: Some("/etc/key.pem".to_string()),
        private_key_password: Some("kp".to_string()),
        ..Default::default()
    };
    let steps = configure_eap("corp", &eap, None);
    assert_eq!(steps.len(), 8);
    assert!(matches!(&steps[1], WpaStep::CheckReadable(p) if p == "/etc/ca.pem"));
    assert_eq!(set_quoted(&steps[2]), Some(("ca_cert", "/etc/ca.pem".to_string())));
    assert_eq!(set_quoted(&steps[4]), Some(("client_cert", "/etc/client.pem".to_string())));
    assert_eq!(set_quoted(&steps[6]), Some(("private_key", "/etc/key.pem".to_string())));
    assert_eq!(set_quoted(&steps[7]), Some(("private_key_passwd", "kp".to_string())));
}

#[test]
fn eap_errors_stop_the_dialogue() {
    let eap = EapConfig::default();
    let steps = configure_eap("corp", &eap, Some("pw"));
    assert_eq!(steps.len(), 1);
    assert!(matches!(&steps[0], WpaStep::Fail(NetworkError::Wifi(m)) if m.contains("no EAP identity")));

    let eap = EapConfig { identity: Some("a".to_string()), ..Default::default() };
    let steps = configure_eap("corp", &eap, None);
    assert_eq!(steps.len(), 2);
    assert!(matches!(&steps[1], WpaStep::Fail(NetworkError::Wifi(m)) if m.contains("password or a client certificate")));

    let eap = EapConfig {
        identity: Some("a".to_string()),
        ca_cert_path: Some("relative.pem".to_string()),
        ..Default::default()
    };
    let steps = configure_eap("corp", &eap, Some("pw"));
    assert_eq!(steps.len(), 3);
    assert!(matches!(&steps[2], WpaStep::Fail(NetworkError::Config(m)) if m == "CA certificate path must be an absolute path"));
}

#[test]
fn stale_ids_strip_quotes() {
    let nets = vec![
        (0u32, "\"home\"".to_string()),
        (1, "work".to_string()),
        (2, "home".to_string()),
    ];
    assert_eq!(stale_network_ids(&nets, "home"), vec![0, 2]);
    assert!(stale_network_ids(&nets, "none").is_empty());
}

#[test]
fn association_needs_state_and_ssid() {
    let status = parse_key_values("bssid=aa\nssid=home\nwpa_state=COMPLETED\n");
    assert!(is_associated(&status, "home"));
    assert!(!is_associated(&status, "work"));
    let status = parse_key_values("wpa_state=SCANNING");
    assert!(!is_associated(&status, "home"));
    let e = association_timeout("home", "SCANNING");
    assert!(matches!(e, NetworkError::Timeout(_)));
    assert_eq!(e.message(), "association with 'home' did not complete (last state: SCANNING)");
}

#[test]
fn key_values_keep_last_and_skip_junk() {
    let pairs = parse_key_values("a=1\nnoequals\nb=x=y\na=2");
    assert_eq!(pairs.len(), 3);
    assert_eq!(lookup(&pairs, "a"), Some("2".to_string()));
    assert_eq!(lookup(&pairs, "b"), Some("x=y".to_string()));
    assert_eq!(lookup(&pairs, "c"), None);
}

#[test]
fn list_networks_skips_header_and_bad_rows() {
    let raw = "network id / ssid / bssid / flags\n0\thome\tany\t[CURRENT]\nx\tbad\n3\twork\tany\t";
    let nets = parse_list_networks(raw);
    assert_eq!(nets, vec![(0, "home".to_string()), (3, "work".to_string())]);
}

#[test]
fn replies_and_commands() {
    assert!(check_ok_reply("SCAN", "OK").is_ok());
    let e = check_ok_reply("SCAN", "FAIL-BUSY").unwrap_err();
    assert_eq!(e.message(), "'SCAN' failed: FAIL-BUSY");
    assert!(is_pong("PONG"));
    assert!(!is_pong("PING"));
    assert_eq!(parse_add_network_reply("7").unwrap(), 7);
    assert!(parse_add_network_reply("FAIL").is_err());
    assert_eq!(normalize_reply("OK\n  "), "OK");
    assert_eq!(set_network_quoted_command(3, "ssid", "home").unwrap(), "SET_NETWORK 3 ssid \"home\"");
    assert!(set_network_quoted_command(3, "psk", "a\"b").is_err());
    assert_eq!(set_network_raw_command(3, "key_mgmt", "NONE"), "SET_NETWORK 3 key_mgmt NONE");
    assert_eq!(network_command("ENABLE_NETWORK", 4), "ENABLE_NETWORK 4");
    assert_eq!(server_path("/run/wpa", "wlan0").unwrap(), "/run/wpa/wlan0");
    assert!(server_path("/run/wpa", "../x").is_err());
}

#[test]
fn events_lose_their_priority_prefix() {
    assert_eq!(event_name("<2>CTRL-EVENT-SCAN-RESULTS"), "CTRL-EVENT-SCAN-RESULTS");
    assert_eq!(event_name("CTRL-EVENT-CONNECTED x"), "CTRL-EVENT-CONNECTED x");
    let names = vec!["CTRL-EVENT-SCAN-RESULTS".to_string(), "CTRL-EVENT-SCAN-FAILED".to_string()];
    assert!(event_matches("<3>CTRL-EVENT-SCAN-FAILED ret=-16", &names));
    assert!(!event_matches("<3>CTRL-EVENT-CONNECTED", &names));
}

#[test]
fn hostapd_config_text() {
    let cfg = HotspotConfig {
        interface: "wlan1".to_string(),
        ssid: "mitos".to_string(),
        passphrase: Some("password123".to_string()),
        channel: 6,
        hw_mode: "g".to_string(),
    };
    let text = render_config(&cfg);
    assert_eq!(
        text,
        "interface=wlan1\ndriver=nl80211\nssid=mitos\nhw_mode=g\nchannel=6\nieee80211n=1\nwmm_enabled=1\nwpa=2\nwpa_passphrase=password123\nwpa_key_mgmt=WPA-PSK\nrsn_pairwise=CCMP\n"
    );
    let open = HotspotConfig { passphrase: None, ..cfg };
    assert!(render_config(&open).ends_with("# open network: no wpa_passphrase configured\n"));
    assert_eq!(config_path("wlan1"), "/run/mitos-network/hostapd-wlan1.conf");
}

#[test]
fn hotspot_settings_checked_in_order() {
    assert!(check_settings("wlan1", "mitos", Some("password123")).is_ok());
    assert!(check_settings("wlan1", "mitos", None).is_ok());
    assert!(check_settings("wlan1", "mitos", Some("short")).is_err());
    assert!(check_settings("wlan1", "", None).is_err());
    assert!(check_settings("bad/name", "mitos", None).is_err());
}

#[test]
fn join_plan_checks_ssid_first_and_activates_only_clean_plans() {
    match join_plan("", SecurityType::Open, None, None) {
        Err(NetworkError::Parse(m)) => assert_eq!(m, "SSID must be 1-32 bytes"),
        other => panic!("unexpected {other:?}"),
    }
    match join_plan("bad\"ssid", SecurityType::Open, None, None) {
        Err(NetworkError::Parse(m)) => assert_eq!(m, "SSID contains invalid characters"),
        other => panic!("unexpected {other:?}"),
    }
    let (steps, activate) = join_plan("home", SecurityType::Wpa2Psk, Some("short"), None).unwrap();
    assert!(!activate);
    assert!(matches!(steps.last(), Some(WpaStep::Fail(NetworkError::Parse(_)))));
    let (steps, activate) = join_plan("home", SecurityType::Wpa2Psk, None, None).unwrap();
    assert!(!activate);
    assert!(matches!(steps.last(), Some(WpaStep::Fail(NetworkError::Wifi(_)))));
    let (steps, activate) = join_plan("home", SecurityType::Wpa2Psk, Some("correct horse"), None).unwrap();
    assert!(activate);
    assert_eq!(steps.len(), 3);
    assert!(matches!(&steps[2], WpaStep::SetQuoted("psk", v) if v == "correct horse"));
    let (steps, activate) = join_plan("cafe", SecurityType::Open, None, None).unwrap();
    assert!(activate);
    assert_eq!(steps.len(), 2);
}
