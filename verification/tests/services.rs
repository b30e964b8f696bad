use mitos_network::cli::{connectivity_interval, parse_args, wifi_scan_interval, CliAction};
use mitos_network::errors::NetworkError;
use mitos_network::persistence::profiles::{missing_profile, profile_path, recently_used_first};
use mitos_network::persistence::state::{DataDir, DEFAULT_DATA_DIR};
use mitos_network::sharing::dhcp_server::{
    mac_key, octets_exec, reply_options, subnet_mask, LeaseTable, MSG_ACK, MSG_DISCOVER,
    MSG_NAK, MSG_OFFER, MSG_REQUEST, OPT_DNS, OPT_LEASE_TIME, OPT_MSG_TYPE, OPT_ROUTER,
    OPT_SERVER_ID, OPT_SUBNET_MASK,
};
use mitos_network::sharing::hotspot::{
    dhcp_config, radio_config, AP_POOL_END, AP_POOL_START, AP_SERVER_IP,
};
use mitos_network::sharing::internet_sharing;
use mitos_network::vpn::openvpn::{
    connect_failed, down_script, fallback_ifname, no_session, openvpn_args, state_of_line,
    up_script, LineAction, MgmtEvent, MgmtTracker,
};
use mitos_network::vpn::tunnel::{create, TunnelKind};
use mitos_network::vpn::vpn::{VpnKind, VpnRegistry, VpnSession};

fn args(v: &[&str]) -> Vec<String> {
    v.iter().map(|s| s.to_string()).collect()
}

#[test]
fn command_line() {
    assert!(matches!(parse_args(&args(&[])), CliAction::Run(d) if d == "/etc/mitos-network"));
    assert!(matches!(parse_args(&args(&["--config-dir", "/a", "--config-dir", "/b"])), CliAction::Run(d) if d == "/b"));
    assert!(matches!(parse_args(&args(&["--version", "--bogus"])), CliAction::Version));
    assert!(matches!(parse_args(&args(&["--help"])), CliAction::Help));
    assert!(matches!(parse_args(&args(&["--config-dir"])), CliAction::MissingPath(m) if m == "--config-dir requires a path argument"));
    assert!(matches!(parse_args(&args(&["-x"])), CliAction::Unrecognized(a) if a == "-x"));
    assert_eq!(connectivity_interval(1), 5);
    assert_eq!(connectivity_interval(60), 60);
    assert_eq!(wifi_scan_interval(0), 10);
    assert_eq!(wifi_scan_interval(30), 30);
}

#[test]
fn data_dir_paths() {
    let mut d = DataDir::new();
    assert_eq!(d.base_dir(), DEFAULT_DATA_DIR);
    assert_eq!(d.lease_path("eth0"), "/var/lib/mitos-network/leases/eth0.json");
    d.init("/srv/net");
    d.init("/ignored");
    assert_eq!(d.lease6_path("eth0"), "/srv/net/leases/eth0.v6.json");
    assert_eq!(d.proxy_config_path(), "/srv/net/proxy.json");
}

#[test]
fn profile_files() {
    assert_eq!(profile_path("/etc/p", "home-wifi").unwrap(), "/etc/p/home-wifi.toml");
    assert!(matches!(profile_path("/etc/p", "../etc/passwd"), Err(NetworkError::Parse(_))));
    assert!(matches!(profile_path("/etc/p", ""), Err(NetworkError::Parse(_))));
    let e = missing_profile("x");
    assert!(matches!(e, NetworkError::NotFound(_)));
    assert_eq!(e.message(), "connection profile 'x'");
}

#[test]
fn profiles_sorted_recent_first_stably() {
    let out = recently_used_first(vec!["a", "b", "c", "d"], vec![10, 30, 10, 20]);
    assert_eq!(out, vec!["b", "d", "a", "c"]);
    let none: Vec<&str> = recently_used_first(Vec::new(), Vec::new());
    assert!(none.is_empty());
}

#[test]
fn vpn_registry_tracks_sessions() {
    let mut r = VpnRegistry::new();
    r.connect(&VpnSession { interface_name: "wg0".to_string(), kind: VpnKind::WireGuard });
    r.track("tun0", VpnKind::OpenVpn);
    assert_eq!(r.disconnect("wg0").unwrap(), VpnKind::WireGuard);
    let e = r.disconnect("wg0").unwrap_err();
    assert!(matches!(e, NetworkError::NotFound(_)));
    assert_eq!(e.message(), "no active VPN session on 'wg0'");
    assert_eq!(r.untrack("tun0"), Some(VpnKind::OpenVpn));
    assert_eq!(r.untrack("tun0"), None);
}

#[test]
fn tunnels_need_valid_names() {
    assert_eq!(create("gre1", TunnelKind::Gre).unwrap(), "gre");
    assert_eq!(create("vx0", TunnelKind::Vxlan).unwrap(), "vxlan");
    assert_eq!(TunnelKind::Sit.link_kind(), "sit");
    assert!(create("", TunnelKind::Ipip).is_err());
    assert!(create("a/b", TunnelKind::Ipip).is_err());
    assert!(create("abcdefghijklmnop", TunnelKind::Ipip).is_err());
}

#[test]
fn openvpn_command_and_scripts() {
    let a = openvpn_args("/etc/vpn.conf", Some("/run/auth"), "/run/mgmt.sock", "/run/up.sh", "/run/down.sh", "work");
    assert_eq!(
        a,
        args(&[
            "--config", "/etc/vpn.conf", "--auth-user-pass", "/run/auth", "--management",
            "/run/mgmt.sock", "unix", "--management-client", "--script-security", "2", "--up",
            "/run/up.sh", "--up-restart", "--down", "/run/down.sh", "--daemon",
            "mitos-openvpn-work",
        ])
    );
    assert_eq!(openvpn_args("c", None, "m", "u", "d", "p").len(), 15);
    assert_eq!(up_script("/run/if"), "#!/bin/sh\numask 077\nprintf '%s' \"$dev\" > '/run/if'\n");
    assert_eq!(down_script("/run/if"), "#!/bin/sh\n: > '/run/if'\n");
    assert_eq!(fallback_ifname("work"), "openvpn-work");
    assert_eq!(connect_failed("boom").message(), "openvpn failed to connect: boom");
    assert!(matches!(no_session("tun0"), NetworkError::NotFound(m) if m == "no tracked openvpn session for 'tun0'"));
}

#[test]
fn management_feed() {
    assert_eq!(state_of_line(">STATE:1700000000,CONNECTED,SUCCESS,10.8.0.2\r\n"), Some("CONNECTED".to_string()));
    assert_eq!(state_of_line(">LOG:x"), None);
    assert_eq!(state_of_line(">STATE:123"), None);

    let mut t = MgmtTracker::new();
    assert!(matches!(t.on_line(">STATE:1,CONNECTING,,"), LineAction::Nothing));
    assert_eq!(t.status.state, "CONNECTING");
    assert!(matches!(t.on_line(">STATE:1,CONNECTED,SUCCESS"), LineAction::ReadIfname));
    assert!(matches!(t.connected(Some("tun0".to_string())), Some(MgmtEvent::Connected(Some(n))) if n == "tun0"));
    assert_eq!(t.status.ifname.as_deref(), Some("tun0"));
    // Once reported, later failures and reconnects are only recorded.
    assert!(matches!(t.on_line(">STATE:2,FATAL,,"), LineAction::Nothing));
    assert!(t.connected(None).is_none());
    assert!(t.closed().is_none());

    let mut t = MgmtTracker::new();
    assert!(matches!(t.on_line(">STATE:1,AUTH_FAILED,,"), LineAction::Report(MgmtEvent::Failed(m)) if m == "openvpn reported state AUTH_FAILED"));
    let mut t = MgmtTracker::new();
    assert!(matches!(t.closed(), Some(MgmtEvent::Failed(m)) if m == "management connection closed before reaching CONNECTED"));
}

#[test]
fn dhcp_helpers() {
    assert_eq!(subnet_mask(24), 0xffff_ff00);
    assert_eq!(subnet_mask(0), 0);
    assert_eq!(subnet_mask(32), 0xffff_ffff);
    assert_eq!(octets_exec(0xC0A8_0401), vec![192, 168, 4, 1]);
    assert_eq!(mac_key([0, 0x11, 0x22, 0x33, 0x44, 0x55]), 0x0011_2233_4455);
}

#[test]
fn hotspot_dhcp_replies() {
    let cfg = dhcp_config("wlan1");
    assert_eq!(cfg.server_ip, AP_SERVER_IP);
    let opts = reply_options(&cfg, MSG_OFFER);
    assert_eq!(opts[0], (OPT_MSG_TYPE, vec![MSG_OFFER]));
    assert_eq!(opts[1], (OPT_SERVER_ID, vec![192, 168, 4, 1]));
    assert_eq!(opts[2], (OPT_SUBNET_MASK, vec![255, 255, 255, 0]));
    assert_eq!(opts[3], (OPT_ROUTER, vec![192, 168, 4, 1]));
    assert_eq!(opts[4], (OPT_LEASE_TIME, vec![0, 0, 14, 16]));
    assert_eq!(opts[5], (OPT_DNS, vec![192, 168, 4, 1]));
    assert_eq!(reply_options(&cfg, MSG_NAK).len(), 2);

    let radio = radio_config("wlan1", "mitos", None);
    assert_eq!(radio.channel, 6);
    assert_eq!(radio.hw_mode, "g");

    let share = internet_sharing::dhcp_config("eth1", 0x0A2A_0001, 24, (0x0A2A_000A, 0x0A2A_0014));
    assert_eq!(share.dns_servers, vec![0x0A2A_0001]);
    assert_eq!(share.lease_time_secs, 3600);
}

#[test]
fn leases_are_stable_and_distinct() {
    let cfg = dhcp_config("wlan1");
    let mut t = LeaseTable::new(AP_POOL_START);
    let a = t.answer(MSG_DISCOVER, 1, None, 0, &cfg).unwrap();
    assert_eq!((a.msg_type, a.yiaddr), (MSG_OFFER, AP_POOL_START));
    let b = t.answer(MSG_DISCOVER, 2, None, 0, &cfg).unwrap();
    assert_eq!(b.yiaddr, AP_POOL_START + 1);
    // The same client gets the same address again.
    assert_eq!(t.answer(MSG_DISCOVER, 1, None, 0, &cfg).unwrap().yiaddr, AP_POOL_START);
    let ack = t.answer(MSG_REQUEST, 1, Some(AP_POOL_START), 0, &cfg).unwrap();
    assert_eq!((ack.msg_type, ack.yiaddr), (MSG_ACK, AP_POOL_START));
    let ack = t.answer(MSG_REQUEST, 2, None, AP_POOL_START + 1, &cfg).unwrap();
    assert_eq!(ack.msg_type, MSG_ACK);
    let nak = t.answer(MSG_REQUEST, 2, Some(AP_POOL_START), 0, &cfg).unwrap();
    assert_eq!((nak.msg_type, nak.yiaddr), (MSG_NAK, 0));
    assert!(t.answer(MSG_ACK, 1, None, 0, &cfg).is_none());
    assert!(t.holds(&1, AP_POOL_START));
    assert!(!t.holds(&3, AP_POOL_START));
}

#[test]
fn small_pool_runs_out() {
    let mut t = LeaseTable::new(10);
    assert_eq!(t.allocate(1, 10, 11), Some(10));
    assert_eq!(t.allocate(2, 10, 11), Some(11));
    assert_eq!(t.allocate(3, 10, 11), None);
    assert_eq!(t.allocate(2, 10, 11), Some(11));
    assert_eq!(t.allocate(4, 12, 11), None);
    let _ = AP_POOL_END;
}
