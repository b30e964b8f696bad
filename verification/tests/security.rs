use mitos_network::errors::NetworkError;
use mitos_network::security::permissions::{GroupMembership, PeerIdentity};
use mitos_network::security::policy::{check, Capability};
use mitos_network::security::secrets::{FileSecretsBackend, NullSecretsBackend, SecretsBackend};
use mitos_network::security::validation::{
    validate_cert_path, validate_identifier, validate_interface_name, validate_mac_address,
    validate_quoted_value, validate_ssid, validate_wpa_passphrase,
};

#[test]
fn interface_names() {
    assert!(validate_interface_name("wlan0").is_ok());
    assert!(validate_interface_name("abcdefghijklmno").is_ok());
    let e = validate_interface_name("abcdefghijklmnop").unwrap_err();
    assert!(matches!(e, NetworkError::Parse(_)));
    assert_eq!(e.message(), "interface name 'abcdefghijklmnop' must be 1-15 characters");
    assert!(validate_interface_name("").is_err());
    assert_eq!(
        validate_interface_name("a/b").unwrap_err().message(),
        "interface name 'a/b' contains invalid characters"
    );
    assert!(validate_interface_name("a b").is_err());
    assert!(validate_interface_name("a\u{3000}b").is_err());
    assert!(validate_interface_name(".").is_err());
    assert!(validate_interface_name("..").is_err());
    assert!(validate_interface_name("...").is_ok());
    // 8 chars but 16 bytes.
    assert!(validate_interface_name("éééééééé").is_err());
}

#[test]
fn ssids_and_passphrases() {
    assert!(validate_ssid("HomeNet").is_ok());
    assert!(validate_ssid("").is_err());
    assert!(validate_ssid(&"x".repeat(32)).is_ok());
    assert_eq!(validate_ssid(&"x".repeat(33)).unwrap_err().message(), "SSID must be 1-32 bytes");
    assert_eq!(validate_ssid("a\"b").unwrap_err().message(), "SSID contains invalid characters");
    assert!(validate_ssid("a\nb").is_err());
    assert!(validate_ssid("a\0b").is_err());
    assert!(validate_wpa_passphrase("12345678").is_ok());
    assert!(validate_wpa_passphrase("1234567").is_err());
    assert!(validate_wpa_passphrase(&"p".repeat(63)).is_ok());
    assert!(validate_wpa_passphrase(&"p".repeat(64)).is_err());
    assert_eq!(
        validate_wpa_passphrase("pässwörd").unwrap_err().message(),
        "WPA passphrase must be ASCII"
    );
}

#[test]
fn identifiers_macs_quoted_values_and_paths() {
    assert!(validate_identifier("wifi-Home_1.2").is_ok());
    assert!(validate_identifier("").is_err());
    assert!(validate_identifier(&"a".repeat(65)).is_err());
    assert_eq!(
        validate_identifier("a/b").unwrap_err().message(),
        "identifier 'a/b' may only contain letters, digits, '-', '_', '.'"
    );
    assert!(validate_mac_address("aa:BB:cc:00:11:22").is_ok());
    assert!(validate_mac_address("aa:bb:cc:00:11").is_err());
    assert!(validate_mac_address("aa:bb:cc:00:11:2g").is_err());
    assert!(validate_mac_address("aa:bb:cc:00:11:223").is_err());
    assert_eq!(
        validate_mac_address("x").unwrap_err().message(),
        "'x' is not a valid MAC address"
    );
    assert!(validate_quoted_value("psk", "plain value").is_ok());
    let e = validate_quoted_value("psk", "a\\b").unwrap_err();
    assert!(matches!(e, NetworkError::Wifi(_)));
    assert_eq!(e.message(), "psk may not contain a quote, backslash, or control character");
    assert!(validate_cert_path("ca", "/etc/ca.pem").is_ok());
    let e = validate_cert_path("ca", "ca.pem").unwrap_err();
    assert!(matches!(e, NetworkError::Config(_)));
    assert_eq!(e.message(), "ca must be an absolute path");
    assert!(matches!(validate_cert_path("ca", "/a\"b").unwrap_err(), NetworkError::Wifi(_)));
}

#[test]
fn capabilities_follow_root_and_group() {
    let root = PeerIdentity { uid: 0, gid: 0, pid: 1 };
    let user = PeerIdentity { uid: 1000, gid: 1000, pid: 2 };
    let netdev_member = Some(GroupMembership { gid: 108, peer_is_listed_member: true });
    let netdev_other = Some(GroupMembership { gid: 108, peer_is_listed_member: false });
    assert!(root.is_root());
    assert!(root.in_group(None));
    assert!(user.in_group(netdev_member));
    assert!(!user.in_group(netdev_other));
    assert!(user.in_group(Some(GroupMembership { gid: 1000, peer_is_listed_member: false })));
    assert!(check(&user, Capability::ViewState, None).is_ok());
    assert!(check(&user, Capability::ManageWifi, netdev_member).is_ok());
    let e = check(&user, Capability::ManageWifi, netdev_other).unwrap_err();
    assert!(matches!(e, NetworkError::PermissionDenied(_)));
    assert_eq!(e.message(), "uid 1000 lacks ManageWifi");
    assert_eq!(check(&user, Capability::Admin, netdev_member).unwrap_err().message(), "uid 1000 lacks Admin");
    assert!(check(&root, Capability::Admin, None).is_ok());
}

#[test]
fn secrets_paths_and_null_backend() {
    let b = FileSecretsBackend::new("/var/lib/mitos-network");
    assert_eq!(b.dir, "/var/lib/mitos-network/secrets");
    assert_eq!(b.path("wifi-home", "psk").unwrap(), "/var/lib/mitos-network/secrets/wifi-home.psk");
    assert!(b.path("../x", "psk").is_err());
    assert_eq!(FileSecretsBackend::new("/data/").dir, "/data/secrets");
    let n = NullSecretsBackend;
    assert!(n.get("a", "b").unwrap().is_none());
    assert_eq!(
        n.set("wifi-home", "psk", "x").unwrap_err().message(),
        "no secrets backend configured; cannot store a secret for 'wifi-home'"
    );
    assert!(n.delete_all("a").is_ok());
}
