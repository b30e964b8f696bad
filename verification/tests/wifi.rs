use mitos_network::wifi::network::{parse_scan_results, WifiNetwork};
use mitos_network::wifi::roaming::{best_bss, should_roam};
use mitos_network::wifi::security::SecurityType;

#[test]
fn parses_two_results() {
    let raw = "bssid / frequency / signal level / flags / ssid\n\
                aa:bb:cc:dd:ee:ff\t2412\t-45\t[WPA2-PSK-CCMP][ESS]\tHomeNet\n\
                11:22:33:44:55:66\t5180\t-60\t[SAE-CCMP][ESS]\tCafeWiFi\n";
    let nets = parse_scan_results(raw);
    assert_eq!(nets.len(), 2);
    assert_eq!(nets[0].ssid, "HomeNet");
    assert_eq!(nets[0].security, SecurityType::Wpa2Psk);
    assert_eq!(nets[1].security, SecurityType::Wpa3Sae);
}

#[test]
fn signal_percent_maps_range() {
    let n = WifiNetwork {
        ssid: "x".into(),
        bssid: "x".into(),
        frequency_mhz: 2412,
        signal_dbm: -50,
        security: SecurityType::Open,
    };
    assert_eq!(n.signal_percent(), 100);
    let n2 = WifiNetwork { signal_dbm: -100, ..n };
    assert_eq!(n2.signal_percent(), 0);
}

#[test]
fn classifies_common_flag_strings() {
    assert_eq!(SecurityType::from_flags("[ESS]"), SecurityType::Open);
    assert_eq!(SecurityType::from_flags("[WPA2-PSK-CCMP][ESS]"), SecurityType::Wpa2Psk);
    assert_eq!(SecurityType::from_flags("[SAE-CCMP][ESS]"), SecurityType::Wpa3Sae);
    assert_eq!(SecurityType::from_flags("[WPA2-EAP-CCMP][ESS]"), SecurityType::WpaEnterprise);
}

#[test]
fn classifies_transition_and_legacy_flags() {
    assert_eq!(
        SecurityType::from_flags("[WPA2-EAP-CCMP][WPA3-SAE-CCMP][ESS]"),
        SecurityType::Wpa3Enterprise
    );
    assert_eq!(SecurityType::from_flags("[RSN-PSK-CCMP]"), SecurityType::Wpa2Psk);
    assert_eq!(SecurityType::from_flags("[WPA-PSK-TKIP]"), SecurityType::WpaPsk);
    assert_eq!(SecurityType::from_flags("[WEP][ESS]"), SecurityType::Wep);
}

#[test]
fn key_mgmt_and_passphrase_needs() {
    assert_eq!(SecurityType::Open.key_mgmt(), "NONE");
    assert_eq!(SecurityType::Wep.key_mgmt(), "NONE");
    assert_eq!(SecurityType::Wpa2Psk.key_mgmt(), "WPA-PSK");
    assert_eq!(SecurityType::Wpa3Sae.key_mgmt(), "SAE");
    assert_eq!(SecurityType::WpaEnterprise.key_mgmt(), "WPA-EAP");
    assert_eq!(SecurityType::Wpa3Enterprise.key_mgmt(), "WPA-EAP-SUITE-B-192");
    assert!(!SecurityType::Open.needs_passphrase());
    assert!(SecurityType::Wep.needs_passphrase());
    assert!(SecurityType::Wpa3Enterprise.is_enterprise());
    assert!(!SecurityType::Wpa3Sae.is_enterprise());
}

#[test]
fn scan_results_skip_hidden_and_malformed_rows() {
    let raw = "header\r\n\
               aa\t2412\t-45\t[ESS]\t\r\n\
               bb\tx\t-45\t[ESS]\tBad\n\
               cc\t+2437\t+3\t[WEP]\tOk\tExtra\n\
               dd\t2412\t-45\n";
    let nets = parse_scan_results(raw);
    assert_eq!(nets.len(), 1);
    assert_eq!(nets[0].bssid, "cc");
    assert_eq!(nets[0].frequency_mhz, 2437);
    assert_eq!(nets[0].signal_dbm, 3);
    assert_eq!(nets[0].ssid, "Ok");
    assert_eq!(nets[0].security, SecurityType::Wep);
    assert!(parse_scan_results("").is_empty());
}

fn net(ssid: &str, bssid: &str, dbm: i32) -> WifiNetwork {
    WifiNetwork {
        ssid: ssid.into(),
        bssid: bssid.into(),
        frequency_mhz: 2412,
        signal_dbm: dbm,
        security: SecurityType::Wpa2Psk,
    }
}

#[test]
fn best_bss_prefers_strongest_and_last_of_ties() {
    let nets = vec![net("A", "1", -70), net("A", "2", -50), net("B", "3", -10), net("A", "4", -50)];
    assert_eq!(best_bss(&nets, "A").unwrap().bssid, "4");
    assert_eq!(best_bss(&nets, "B").unwrap().bssid, "3");
    assert!(best_bss(&nets, "C").is_none());
}

#[test]
fn roaming_needs_hysteresis() {
    let nets = vec![net("A", "1", -70), net("A", "2", -63)];
    assert!(should_roam(&nets, "A", "1").is_none());
    let nets = vec![net("A", "1", -70), net("A", "2", -62)];
    assert_eq!(should_roam(&nets, "A", "1").unwrap().bssid, "2");
    assert!(should_roam(&nets, "A", "9").is_none());
    assert!(should_roam(&nets, "A", "2").is_none());
}

#[test]
fn roaming_ignores_extreme_unrelated_signals() {
    let nets = vec![net("A", "1", -70), net("A", "2", -60), net("B", "3", i32::MIN), net("C", "4", i32::MAX)];
    assert_eq!(should_roam(&nets, "A", "1").unwrap().bssid, "2");
    let nets = vec![net("A", "1", i32::MIN), net("A", "2", i32::MAX)];
    assert_eq!(should_roam(&nets, "A", "1").unwrap().bssid, "2");
}
