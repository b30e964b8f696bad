use mitos_network::ip::IpAddress;
use mitos_network::vpn::wg_netlink::{allowed_ip_entry, wg_set_device_payload};
use mitos_network::vpn::wireguard::{
    base64_decode, decode_key, default_allowed_ips, default_keepalive, encode_sockaddr, split_list,
    WireGuardConfig, AF_INET,
    AF_INET6,
};

#[test]
fn base64_decodes_a_32_byte_key() {
    let encoded = "AAAAAAAAAAAAAAAAAAAAAAAAAAAAAAAAAAAAAAAAAAA=";
    let decoded = base64_decode(encoded).unwrap();
    assert_eq!(decoded.len(), 32);
    assert!(decoded.iter().all(|&b| b == 0));
}

#[test]
fn base64_round_trips_a_known_vector() {
    // RFC 4648 sec 10 test vector.
    let decoded = base64_decode("YW55IGNhcm5hbCBwbGVhc3VyZS4=").unwrap();
    assert_eq!(decoded, b"any carnal pleasure.");
}

#[test]
fn decode_key_rejects_wrong_length() {
    // Valid base64, but only 4 bytes -- not a 32-byte key.
    assert!(decode_key("test", "AAAAAA==").is_err());
}

#[test]
fn base64_rfc4648_vectors() {
    assert_eq!(base64_decode("").unwrap(), b"");
    assert_eq!(base64_decode("Zg==").unwrap(), b"f");
    assert_eq!(base64_decode("Zm8=").unwrap(), b"fo");
    assert_eq!(base64_decode("Zm9v").unwrap(), b"foo");
    assert_eq!(base64_decode("Zm9vYg==").unwrap(), b"foob");
    assert_eq!(base64_decode("Zm9vYmE=").unwrap(), b"fooba");
    assert_eq!(base64_decode("Zm9vYmFy").unwrap(), b"foobar");
    assert_eq!(base64_decode("+/+/").unwrap(), vec![0xfb, 0xff, 0xbf]);
    assert!(base64_decode("Zm9v YmFy").is_err());
    assert!(base64_decode("Zm=9v").is_err());
}

#[test]
fn decode_key_accepts_padded_whitespace_and_reports_errors() {
    let key = decode_key("k", "  AQIDBAUGBwgJCgsMDQ4PEBESExQVFhcYGRobHB0eHyA=\n").unwrap();
    let want: Vec<u8> = (1..=32).collect();
    assert_eq!(key.to_vec(), want);
    let e = decode_key("peer public key", "not*base64").unwrap_err();
    assert_eq!(e.message(), "peer public key is not valid base64");
    let e = decode_key("test", "AAAAAA==").unwrap_err();
    assert_eq!(e.message(), "test must decode to 32 bytes");
}

#[test]
fn allowed_ips_list_is_trimmed_and_filtered() {
    assert_eq!(split_list(&default_allowed_ips()), vec!["0.0.0.0/0", "::/0"]);
    assert_eq!(split_list(" 10.0.0.0/8 ,, ,192.168.1.0/24,"), vec!["10.0.0.0/8", "192.168.1.0/24"]);
    assert!(split_list("").is_empty());
    assert_eq!(default_keepalive(), 25);
}

#[test]
fn encode_sockaddr_v4_matches_c_struct_layout() {
    // 192.168.1.1:51820
    let bytes = encode_sockaddr(IpAddress::V4([192, 168, 1, 1]), 51820);
    assert_eq!(bytes.len(), 16);
    assert_eq!(&bytes[0..2], &AF_INET.to_ne_bytes());
    // sin_port is network (big-endian) byte order: 51820 = 0xCA6C.
    assert_eq!(&bytes[2..4], &[0xCA, 0x6C]);
    assert_eq!(&bytes[4..8], &[192, 168, 1, 1]);
    assert_eq!(&bytes[8..16], &[0u8; 8]);
}

#[test]
fn encode_sockaddr_v6_matches_c_struct_layout() {
    // [fe80::1]:51820
    let bytes = encode_sockaddr(IpAddress::V6([0xfe80, 0, 0, 0, 0, 0, 0, 1]), 51820);
    assert_eq!(bytes.len(), 28);
    assert_eq!(&bytes[0..2], &AF_INET6.to_ne_bytes());
    assert_eq!(&bytes[2..4], &[0xCA, 0x6C]);
    assert_eq!(&bytes[4..8], &[0u8; 4]);
    assert_eq!(&bytes[8..10], &[0xfe, 0x80]);
    assert_eq!(bytes[23], 1);
    assert_eq!(&bytes[24..28], &[0u8; 4]);
}

fn wg_cfg(listen_port: Option<u16>) -> WireGuardConfig {
    WireGuardConfig {
        interface: "wg0".to_string(),
        address: "10.0.0.2/32".to_string(),
        peer_public_key: String::new(),
        peer_endpoint: "10.0.0.1:51820".to_string(),
        peer_allowed_ips: "0.0.0.0/0".to_string(),
        listen_port,
        persistent_keepalive_secs: 25,
    }
}

#[test]
fn set_device_payload_layout() {
    let cfg = wg_cfg(None);
    let allowed = vec![(IpAddress::V4([0, 0, 0, 0]), 0u8)];
    let p = wg_set_device_payload(&cfg, &[1u8; 32], &[2u8; 32], IpAddress::V4([10, 0, 0, 1]), 51820, &allowed, true);
    let mut want: Vec<u8> = vec![1, 1, 0, 0];
    want.extend([8, 0, 2, 0, b'w', b'g', b'0', 0]);
    want.extend([36, 0, 3, 0]);
    want.extend([1u8; 32]);
    want.extend([8, 0, 5, 0, 1, 0, 0, 0]);
    want.extend([112, 0, 8, 0]);
    want.extend([108, 0, 0, 0]);
    want.extend([36, 0, 1, 0]);
    want.extend([2u8; 32]);
    want.extend([8, 0, 3, 0, 2, 0, 0, 0]);
    want.extend([20, 0, 4, 0, 2, 0, 0xca, 0x6c, 10, 0, 0, 1, 0, 0, 0, 0, 0, 0, 0, 0]);
    want.extend([6, 0, 5, 0, 25, 0, 0, 0]);
    want.extend([32, 0, 9, 0]);
    want.extend([28, 0, 0, 0]);
    want.extend([6, 0, 1, 0, 2, 0, 0, 0]);
    want.extend([8, 0, 2, 0, 0, 0, 0, 0]);
    want.extend([5, 0, 3, 0, 0, 0, 0, 0]);
    assert_eq!(p, want);
    assert_eq!(p.len(), 168);
}

#[test]
fn set_device_payload_listen_port_and_byte_order() {
    let cfg = wg_cfg(Some(51820));
    let p = wg_set_device_payload(&cfg, &[1u8; 32], &[2u8; 32], IpAddress::V4([10, 0, 0, 1]), 51820, &Vec::new(), true);
    assert_eq!(&p[48..56], &[6, 0, 6, 0, 0x6c, 0xca, 0, 0]);
    let q = wg_set_device_payload(&cfg, &[1u8; 32], &[2u8; 32], IpAddress::V4([10, 0, 0, 1]), 51820, &Vec::new(), false);
    assert_eq!(&q[0..8], &[1, 1, 0, 0, 0, 8, 0, 2]);
    assert_eq!(&q[48..56], &[0, 6, 0, 6, 0xca, 0x6c, 0, 0]);
    assert_eq!(p.len(), q.len());
}

#[test]
fn allowed_ip_entry_v6() {
    let e = allowed_ip_entry(IpAddress::V6([0x2001, 0xdb8, 0, 0, 0, 0, 0, 1]), 64, true);
    let mut want: Vec<u8> = vec![6, 0, 1, 0, 10, 0, 0, 0, 20, 0, 2, 0];
    want.extend([0x20, 0x01, 0x0d, 0xb8, 0, 0, 0, 0, 0, 0, 0, 0, 0, 0, 0, 1]);
    want.extend([5, 0, 3, 0, 64, 0, 0, 0]);
    assert_eq!(e, want);
}

#[test]
fn base64_decodes_rfc4648_vectors() {
    let cases: [(&str, &[u8]); 7] = [
        ("", b""),
        ("Zg==", b"f"),
        ("Zm8=", b"fo"),
        ("Zm9v", b"foo"),
        ("Zm9vYg==", b"foob"),
        ("Zm9vYmE=", b"fooba"),
        ("Zm9vYmFy", b"foobar"),
    ];
    for (enc, dec) in cases {
        assert_eq!(base64_decode(enc).unwrap(), dec.to_vec());
    }
    assert!(base64_decode("Zm9v!").is_err());
}
