//! The `WG_CMD_SET_DEVICE` request of WireGuard's generic-netlink family
//! (`include/uapi/linux/wireguard.h`): the generic-netlink header and the
//! attributes that set the device's private key, listen port and its one
//! peer (public key, endpoint, keepalive, allowed IPs). Integers in
//! attributes are in the machine's byte order, which the caller names.

use crate::ip::IpAddress;
use crate::vpn::wireguard::{
    encode_sockaddr, family_of, lemma_v6_octets_len, sockaddr_tail, v6_octets, WireGuardConfig,
};
use vstd::prelude::*;
use vstd::string::StringSliceAdditionalSpecFns;
use vstd::utf8::encode_utf8;

verus! {

pub const WG_CMD_SET_DEVICE: u8 = 1;
pub const WG_GENL_VERSION: u8 = 1;

pub const WGDEVICE_A_IFNAME: u16 = 2;
pub const WGDEVICE_A_PRIVATE_KEY: u16 = 3;
pub const WGDEVICE_A_FLAGS: u16 = 5;
pub const WGDEVICE_A_LISTEN_PORT: u16 = 6;
pub const WGDEVICE_A_PEERS: u16 = 8;
pub const WGDEVICE_F_REPLACE_PEERS: u32 = 1;

pub const WGPEER_A_PUBLIC_KEY: u16 = 1;
pub const WGPEER_A_FLAGS: u16 = 3;
pub const WGPEER_A_ENDPOINT: u16 = 4;
pub const WGPEER_A_PERSISTENT_KEEPALIVE_INTERVAL: u16 = 5;
pub const WGPEER_A_ALLOWEDIPS: u16 = 9;
pub const WGPEER_F_REPLACE_ALLOWEDIPS: u32 = 2;

pub const WGALLOWEDIP_A_FAMILY: u16 = 1;
pub const WGALLOWEDIP_A_IPADDR: u16 = 2;
pub const WGALLOWEDIP_A_CIDR_MASK: u16 = 3;

/// At most this many allowed-IPs entries fit in the peer attribute, whose
/// length is a 16-bit number.
pub const MAX_ALLOWED_IPS: usize = 1600;

/// `x` as two bytes, low byte first when `little_endian`.
pub open spec fn u16_bytes(x: u16, little_endian: bool) -> Seq<u8> {
    if little_endian {
        seq![(x % 256) as u8, (x / 256) as u8]
    } else {
        seq![(x / 256) as u8, (x % 256) as u8]
    }
}

/// `x` as four bytes, low byte first when `little_endian`.
pub open spec fn u32_bytes(x: u32, little_endian: bool) -> Seq<u8> {
    let b0 = (x % 256) as u8;
    let b1 = ((x / 256) % 256) as u8;
    let b2 = ((x / 65536) % 256) as u8;
    let b3 = (x / 16777216) as u8;
    if little_endian {
        seq![b0, b1, b2, b3]
    } else {
        seq![b3, b2, b1, b0]
    }
}

/// The zero bytes that bring `n` bytes up to netlink's 4-byte alignment.
pub open spec fn nla_pad(n: nat) -> Seq<u8> {
    Seq::new(((4 - n % 4) % 4) as nat, |i: int| 0u8)
}

/// One netlink attribute: its length (4-byte header plus payload, padding
/// not counted), its type, the payload, then the padding.
pub open spec fn nla(ty: u16, payload: Seq<u8>, little_endian: bool) -> Seq<u8> {
    u16_bytes((payload.len() + 4) as u16, little_endian) + u16_bytes(ty, little_endian) + payload
        + nla_pad(payload.len())
}

/// The address bytes of `ip` in network byte order.
pub open spec fn ip_octets(ip: IpAddress) -> Seq<u8> {
    match ip {
        IpAddress::V4(o) => o@,
        IpAddress::V6(g) => v6_octets(g@),
    }
}

/// `struct sockaddr_in`/`sockaddr_in6` of `ip`:`port` with the family in
/// the given byte order.
pub open spec fn sockaddr_spec(ip: IpAddress, port: u16, little_endian: bool) -> Seq<u8> {
    u16_bytes(family_of(ip), little_endian) + sockaddr_tail(ip, port)
}

/// One allowed-IPs entry: family, address, prefix length.
pub open spec fn allowed_ip_attrs(ip: IpAddress, prefix: u8, little_endian: bool) -> Seq<u8> {
    nla(WGALLOWEDIP_A_FAMILY, u16_bytes(family_of(ip), little_endian), little_endian) + nla(
        WGALLOWEDIP_A_IPADDR,
        ip_octets(ip),
        little_endian,
    ) + nla(WGALLOWEDIP_A_CIDR_MASK, seq![prefix], little_endian)
}

/// The allowed-IPs list: entry `i` nested under attribute type `i`.
pub open spec fn allowed_ips_attrs(s: Seq<(IpAddress, u8)>, little_endian: bool) -> Seq<u8>
    decreases s.len(),
{
    if s.len() == 0 {
        seq![]
    } else {
        allowed_ips_attrs(s.drop_last(), little_endian) + nla(
            (s.len() - 1) as u16,
            allowed_ip_attrs(s.last().0, s.last().1, little_endian),
            little_endian,
        )
    }
}

/// The attributes of the peer: public key, flags (replace its allowed
/// IPs), endpoint, keepalive interval, allowed IPs.
pub open spec fn peer_attrs(
    peer_key: Seq<u8>,
    endpoint: Seq<u8>,
    keepalive: u16,
    allowed: Seq<(IpAddress, u8)>,
    little_endian: bool,
) -> Seq<u8> {
    nla(WGPEER_A_PUBLIC_KEY, peer_key, little_endian) + nla(
        WGPEER_A_FLAGS,
        u32_bytes(WGPEER_F_REPLACE_ALLOWEDIPS, little_endian),
        little_endian,
    ) + nla(WGPEER_A_ENDPOINT, endpoint, little_endian) + nla(
        WGPEER_A_PERSISTENT_KEEPALIVE_INTERVAL,
        u16_bytes(keepalive, little_endian),
        little_endian,
    ) + nla(WGPEER_A_ALLOWEDIPS, allowed_ips_attrs(allowed, little_endian), little_endian)
}

/// The whole `WG_CMD_SET_DEVICE` payload: the generic-netlink header
/// (command, version, two reserved bytes), then the interface name
/// (NUL-terminated), the private key, the listen port if there is one, the
/// flags (replace the peers) and the one peer, nested as entry 0 of the
/// peers list.
pub open spec fn set_device_payload(
    ifname: Seq<char>,
    private_key: Seq<u8>,
    listen_port: Option<u16>,
    peer: Seq<u8>,
    little_endian: bool,
) -> Seq<u8> {
    seq![WG_CMD_SET_DEVICE, WG_GENL_VERSION, 0u8, 0u8] + nla(
        WGDEVICE_A_IFNAME,
        encode_utf8(ifname).push(0u8),
        little_endian,
    ) + nla(WGDEVICE_A_PRIVATE_KEY, private_key, little_endian) + match listen_port {
        Some(p) => nla(WGDEVICE_A_LISTEN_PORT, u16_bytes(p, little_endian), little_endian),
        None => seq![],
    } + nla(WGDEVICE_A_FLAGS, u32_bytes(WGDEVICE_F_REPLACE_PEERS, little_endian), little_endian) + nla(
        WGDEVICE_A_PEERS,
        nla(0, peer, little_endian),
        little_endian,
    )
}

/// The length of an attribute with an `n`-byte payload.
pub open spec fn nla_len(n: int) -> int {
    4 + n + (4 - n % 4) % 4
}

fn put_u16(out: &mut Vec<u8>, x: u16, little_endian: bool)
    ensures
        final(out)@ == old(out)@ + u16_bytes(x, little_endian),
{
    if little_endian {
        out.push((x % 256) as u8);
        out.push((x / 256) as u8);
    } else {
        out.push((x / 256) as u8);
        out.push((x % 256) as u8);
    }
    assert(out@ =~= old(out)@ + u16_bytes(x, little_endian));
}

fn put_u32(out: &mut Vec<u8>, x: u32, little_endian: bool)
    ensures
        final(out)@ == old(out)@ + u32_bytes(x, little_endian),
{
    let b0 = (x % 256) as u8;
    let b1 = ((x / 256) % 256) as u8;
    let b2 = ((x / 65536) % 256) as u8;
    let b3 = (x / 16777216) as u8;
    if little_endian {
        out.push(b0);
        out.push(b1);
        out.push(b2);
        out.push(b3);
    } else {
        out.push(b3);
        out.push(b2);
        out.push(b1);
        out.push(b0);
    }
    assert(out@ =~= old(out)@ + u32_bytes(x, little_endian));
}

/// Appends the attribute of type `ty` carrying `payload`.
fn put_attr(out: &mut Vec<u8>, ty: u16, payload: &[u8], little_endian: bool)
    requires
        payload@.len() + 4 <= 65535,
    ensures
        final(out)@ == old(out)@ + nla(ty, payload@, little_endian),
        final(out)@.len() == old(out)@.len() + nla_len(payload@.len() as int),
{
    let n = payload.len();
    put_u16(out, (n + 4) as u16, little_endian);
    put_u16(out, ty, little_endian);
    let ghost head = out@;
    let mut i: usize = 0;
    while i < n
        invariant
            i <= n == payload@.len(),
            out@ == head + payload@.subrange(0, i as int),
        decreases n - i,
    {
        out.push(payload[i]);
        assert(out@ =~= head + payload@.subrange(0, i + 1));
        i += 1;
    }
    assert(payload@.subrange(0, n as int) =~= payload@);
    let ghost body = out@;
    let pad = (4 - n % 4) % 4;
    let mut k: usize = 0;
    while k < pad
        invariant
            k <= pad,
            pad == (4 - n % 4) % 4,
            out@.len() == body.len() + k,
            out@.subrange(0, body.len() as int) == body,
            forall|j: int| body.len() <= j < out@.len() ==> out@[j] == 0u8,
        decreases pad - k,
    {
        out.push(0u8);
        assert(out@.subrange(0, body.len() as int) =~= body);
        k += 1;
    }
    assert(out@ =~= old(out)@ + nla(ty, payload@, little_endian)) by {
        assert(out@ =~= body + nla_pad(n as nat));
    }
}

fn put_slice(out: &mut Vec<u8>, b: &[u8])
    ensures
        final(out)@ == old(out)@ + b@,
{
    let ghost head = out@;
    let mut i: usize = 0;
    while i < b.len()
        invariant
            i <= b@.len(),
            out@ == head + b@.subrange(0, i as int),
        decreases b@.len() - i,
    {
        out.push(b[i]);
        assert(out@ =~= head + b@.subrange(0, i + 1));
        i += 1;
    }
    assert(b@.subrange(0, b@.len() as int) =~= b@);
}

/// The address bytes of `ip`, network byte order.
pub fn ip_octet_bytes(ip: IpAddress) -> (v: Vec<u8>)
    ensures
        v@ == ip_octets(ip),
{
    let mut out: Vec<u8> = Vec::new();
    match ip {
        IpAddress::V4(o) => {
            put_slice(&mut out, o.as_slice());
        },
        IpAddress::V6(g) => {
            let mut i: usize = 0;
            while i < 8
                invariant
                    i <= 8,
                    out@ == v6_octets(g@.subrange(0, i as int)),
                decreases 8 - i,
            {
                assert(g@.subrange(0, i + 1).drop_last() =~= g@.subrange(0, i as int));
                out.push((g[i] / 256) as u8);
                out.push((g[i] % 256) as u8);
                assert(out@ =~= v6_octets(g@.subrange(0, i + 1)));
                i += 1;
            }
            assert(g@.subrange(0, 8) =~= g@);
        },
    }
    out
}

proof fn lemma_ip_octets_len(ip: IpAddress)
    ensures
        ip_octets(ip).len() == 4 || ip_octets(ip).len() == 16,
{
    match ip {
        IpAddress::V4(o) => {},
        IpAddress::V6(g) => {
            lemma_v6_octets_len(g@);
        },
    }
}

/// `struct sockaddr_in`/`sockaddr_in6` of the endpoint `ip`:`port`, as
/// `WGPEER_A_ENDPOINT` carries it, with the family in the given byte order.
pub fn sockaddr_bytes(ip: IpAddress, port: u16, little_endian: bool) -> (v: Vec<u8>)
    ensures
        v@ == sockaddr_spec(ip, port, little_endian),
{
    let raw = encode_sockaddr(ip, port);
    let mut out: Vec<u8> = Vec::new();
    let fam = match ip {
        IpAddress::V4(_) => crate::vpn::wireguard::AF_INET,
        IpAddress::V6(_) => crate::vpn::wireguard::AF_INET6,
    };
    put_u16(&mut out, fam, little_endian);
    let ghost head = out@;
    let mut i: usize = 2;
    while i < raw.len()
        invariant
            2 <= i <= raw@.len(),
            raw@.subrange(2, raw@.len() as int) == sockaddr_tail(ip, port),
            out@ == head + raw@.subrange(2, i as int),
        decreases raw@.len() - i,
    {
        out.push(raw[i]);
        assert(out@ =~= head + raw@.subrange(2, i + 1));
        i += 1;
    }
    out
}

/// The attributes of one allowed-IPs entry.
pub fn allowed_ip_entry(ip: IpAddress, prefix: u8, little_endian: bool) -> (v: Vec<u8>)
    ensures
        v@ == allowed_ip_attrs(ip, prefix, little_endian),
        v@.len() <= 36,
{
    let mut out: Vec<u8> = Vec::new();
    let mut fam: Vec<u8> = Vec::new();
    match ip {
        IpAddress::V4(_) => put_u16(&mut fam, crate::vpn::wireguard::AF_INET, little_endian),
        IpAddress::V6(_) => put_u16(&mut fam, crate::vpn::wireguard::AF_INET6, little_endian),
    }
    assert(fam@ =~= u16_bytes(family_of(ip), little_endian));
    put_attr(&mut out, WGALLOWEDIP_A_FAMILY, fam.as_slice(), little_endian);
    let addr = ip_octet_bytes(ip);
    proof {
        lemma_ip_octets_len(ip);
    }
    put_attr(&mut out, WGALLOWEDIP_A_IPADDR, addr.as_slice(), little_endian);
    let mask: Vec<u8> = vec![prefix];
    assert(mask@ =~= seq![prefix]);
    put_attr(&mut out, WGALLOWEDIP_A_CIDR_MASK, mask.as_slice(), little_endian);
    assert(out@ =~= allowed_ip_attrs(ip, prefix, little_endian));
    out
}

/// The allowed-IPs list, entry `i` nested under type `i`.
pub fn allowed_ips_list(allowed: &Vec<(IpAddress, u8)>, little_endian: bool) -> (v: Vec<u8>)
    requires
        allowed@.len() <= MAX_ALLOWED_IPS,
    ensures
        v@ == allowed_ips_attrs(allowed@, little_endian),
        v@.len() <= 40 * allowed@.len(),
{
    let mut out: Vec<u8> = Vec::new();
    let mut i: usize = 0;
    while i < allowed.len()
        invariant
            i <= allowed@.len() <= MAX_ALLOWED_IPS,
            out@ == allowed_ips_attrs(allowed@.subrange(0, i as int), little_endian),
            out@.len() <= 40 * i,
        decreases allowed@.len() - i,
    {
        let (ip, prefix) = allowed[i];
        let entry = allowed_ip_entry(ip, prefix, little_endian);
        put_attr(&mut out, i as u16, entry.as_slice(), little_endian);
        proof {
            let s = allowed@.subrange(0, i + 1);
            assert(s.drop_last() =~= allowed@.subrange(0, i as int));
            assert(s.last() == allowed@[i as int]);
        }
        i += 1;
    }
    assert(allowed@.subrange(0, allowed@.len() as int) =~= allowed@);
    out
}

/// The attributes of the peer with public key `peer_key`, endpoint
/// `endpoint`:`port`, keepalive interval `keepalive` and allowed IPs
/// `allowed`.
pub fn peer_payload(
    peer_key: &[u8; 32],
    endpoint: IpAddress,
    port: u16,
    keepalive: u16,
    allowed: &Vec<(IpAddress, u8)>,
    little_endian: bool,
) -> (v: Vec<u8>)
    requires
        allowed@.len() <= MAX_ALLOWED_IPS,
    ensures
        v@ == peer_attrs(peer_key@, sockaddr_spec(endpoint, port, little_endian), keepalive, allowed@, little_endian),
        v@.len() <= 100 + 40 * allowed@.len(),
{
    let mut peer: Vec<u8> = Vec::new();
    put_attr(&mut peer, WGPEER_A_PUBLIC_KEY, peer_key.as_slice(), little_endian);
    let mut flags: Vec<u8> = Vec::new();
    put_u32(&mut flags, WGPEER_F_REPLACE_ALLOWEDIPS, little_endian);
    put_attr(&mut peer, WGPEER_A_FLAGS, flags.as_slice(), little_endian);
    let sa = sockaddr_bytes(endpoint, port, little_endian);
    proof {
        crate::vpn::wireguard::lemma_sockaddr_tail_len(endpoint, port);
    }
    put_attr(&mut peer, WGPEER_A_ENDPOINT, sa.as_slice(), little_endian);
    let mut ka: Vec<u8> = Vec::new();
    put_u16(&mut ka, keepalive, little_endian);
    put_attr(&mut peer, WGPEER_A_PERSISTENT_KEEPALIVE_INTERVAL, ka.as_slice(), little_endian);
    let list = allowed_ips_list(allowed, little_endian);
    put_attr(&mut peer, WGPEER_A_ALLOWEDIPS, list.as_slice(), little_endian);
    assert(peer@ =~= peer_attrs(peer_key@, sockaddr_spec(endpoint, port, little_endian), keepalive, allowed@, little_endian));
    peer
}

/// The generic-netlink header and the device attributes before the
/// flags: interface name, private key, listen port.
fn device_head(cfg: &WireGuardConfig, private_key: &[u8; 32], little_endian: bool) -> (v: Vec<u8>)
    requires
        encode_utf8(cfg.interface@).len() + 5 <= 65535,
    ensures
        v@ == seq![WG_CMD_SET_DEVICE, WG_GENL_VERSION, 0u8, 0u8] + nla(
            WGDEVICE_A_IFNAME,
            encode_utf8(cfg.interface@).push(0u8),
            little_endian,
        ) + nla(WGDEVICE_A_PRIVATE_KEY, private_key@, little_endian) + match cfg.listen_port {
            Some(p) => nla(WGDEVICE_A_LISTEN_PORT, u16_bytes(p, little_endian), little_endian),
            None => seq![],
        },
{
    let mut out: Vec<u8> = Vec::new();
    out.push(WG_CMD_SET_DEVICE);
    out.push(WG_GENL_VERSION);
    out.push(0u8);
    out.push(0u8);
    let mut name: Vec<u8> = Vec::new();
    put_slice(&mut name, cfg.interface.as_str().as_bytes());
    name.push(0u8);
    assert(name@ =~= encode_utf8(cfg.interface@).push(0u8));
    put_attr(&mut out, WGDEVICE_A_IFNAME, name.as_slice(), little_endian);
    put_attr(&mut out, WGDEVICE_A_PRIVATE_KEY, private_key.as_slice(), little_endian);
    match cfg.listen_port {
        Some(lp) => {
            let mut pb: Vec<u8> = Vec::new();
            put_u16(&mut pb, lp, little_endian);
            put_attr(&mut out, WGDEVICE_A_LISTEN_PORT, pb.as_slice(), little_endian);
        },
        None => {},
    }
    out
}

/// The `WG_CMD_SET_DEVICE` payload that gives the device `cfg.interface`
/// the private key `private_key`, the listen port of `cfg` (if any), and
/// the one peer with public key `peer_key`, endpoint `endpoint`:`port`,
/// the keepalive interval of `cfg`, and the allowed IPs `allowed` (each an
/// address and a prefix length), replacing the peers and allowed IPs the
/// device had.
#[verifier::rlimit(60)]
pub fn wg_set_device_payload(
    cfg: &WireGuardConfig,
    private_key: &[u8; 32],
    peer_key: &[u8; 32],
    endpoint: IpAddress,
    port: u16,
    allowed: &Vec<(IpAddress, u8)>,
    little_endian: bool,
) -> (p: Vec<u8>)
    requires
        encode_utf8(cfg.interface@).len() + 5 <= 65535,
        allowed@.len() <= MAX_ALLOWED_IPS,
    ensures
        p@ == set_device_payload(
            cfg.interface@,
            private_key@,
            cfg.listen_port,
            peer_attrs(
                peer_key@,
                sockaddr_spec(endpoint, port, little_endian),
                cfg.persistent_keepalive_secs,
                allowed@,
                little_endian,
            ),
            little_endian,
        ),
{
    let peer = peer_payload(peer_key, endpoint, port, cfg.persistent_keepalive_secs, allowed, little_endian);
    let mut peers: Vec<u8> = Vec::new();
    put_attr(&mut peers, 0, peer.as_slice(), little_endian);
    assert(peers@ =~= nla(0, peer@, little_endian));
    let mut out = device_head(cfg, private_key, little_endian);
    let mut dflags: Vec<u8> = Vec::new();
    put_u32(&mut dflags, WGDEVICE_F_REPLACE_PEERS, little_endian);
    put_attr(&mut out, WGDEVICE_A_FLAGS, dflags.as_slice(), little_endian);
    put_attr(&mut out, WGDEVICE_A_PEERS, peers.as_slice(), little_endian);
    out
}

} // verus!
