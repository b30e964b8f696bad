//! WireGuard client setup: configuration, key decoding, the allowed-ips
//! list and the `sockaddr` wire encoding of the peer endpoint.

use crate::errors::{join2, vpn_err, NetworkError};
use crate::text::{chars_of, split_char, split_on, trim, trim_end_char, trim_string, views};
use vstd::prelude::*;

verus! {

/// A WireGuard connection's settings (the TOML `config` of a WireGuard
/// VPN profile).
#[derive(Debug, Clone)]
pub struct WireGuardConfig {
    pub interface: String,
    /// CIDR, e.g. `"10.0.0.2/32"`.
    pub address: String,
    pub peer_public_key: String,
    pub peer_endpoint: String,
    pub peer_allowed_ips: String,
    pub listen_port: Option<u16>,
    pub persistent_keepalive_secs: u16,
}

/// Route everything through the tunnel unless told otherwise.
pub fn default_allowed_ips() -> (s: String)
    ensures
        s@ == "0.0.0.0/0, ::/0"@,
{
    String::from_str("0.0.0.0/0, ::/0")
}

pub fn default_keepalive() -> (k: u16)
    ensures
        k == 25,
{
    25
}

pub const WG_KEY_LEN: usize = 32;

/// The non-empty, trimmed entries of a comma-separated list.
pub open spec fn split_list_spec(s: Seq<char>) -> Seq<Seq<char>> {
    split_char(s, ',').map_values(|p: Seq<char>| trim(p)).filter(|p: Seq<char>| p.len() > 0)
}

pub proof fn lemma_filter_push(s: Seq<Seq<char>>, x: Seq<char>)
    ensures
        s.push(x).filter(|p: Seq<char>| p.len() > 0) == if x.len() > 0 {
            s.filter(|p: Seq<char>| p.len() > 0).push(x)
        } else {
            s.filter(|p: Seq<char>| p.len() > 0)
        },
{
    reveal(Seq::filter);
    assert(s.push(x).drop_last() =~= s);
}

/// `"a, b,,c"` -> `["a", "b", "c"]`.
pub fn split_list(s: &str) -> (out: Vec<String>)
    ensures
        views(out@) == split_list_spec(s@),
{
    let parts = split_on(s, ',');
    let ghost pieces = split_char(s@, ',');
    let ghost trimmed = pieces.map_values(|p: Seq<char>| trim(p));
    let mut out: Vec<String> = Vec::new();
    let mut i: usize = 0;
    assert(views(parts@).len() == parts.len());
    assert(trimmed.subrange(0, 0) =~= seq![]);
    assert(views(out@) =~= seq![]);
    while i < parts.len()
        invariant
            views(parts@) == pieces,
            trimmed == pieces.map_values(|p: Seq<char>| trim(p)),
            i <= parts.len(),
            views(out@) == trimmed.subrange(0, i as int).filter(|p: Seq<char>| p.len() > 0),
        decreases parts.len() - i,
    {
        let t = trim_string(parts[i].as_str());
        proof {
            assert(t@ == trimmed[i as int]);
            assert(trimmed.subrange(0, i + 1) =~= trimmed.subrange(0, i as int).push(t@));
            lemma_filter_push(trimmed.subrange(0, i as int), t@);
        }
        if !t.as_str().is_empty() {
            out.push(t);
            assert(views(out@) =~= views(out@).drop_last().push(t@));
        }
        i += 1;
    }
    assert(trimmed.subrange(0, parts.len() as int) =~= trimmed);
    out
}

// ---- base64 -------------------------------------------------------------

/// The 6-bit value of a standard-alphabet (RFC 4648) base64 character.
pub open spec fn b64_val(c: char) -> Option<u8> {
    if 'A' <= c && c <= 'Z' {
        Some(((c as u32) - ('A' as u32)) as u8)
    } else if 'a' <= c && c <= 'z' {
        Some(((c as u32) - ('a' as u32) + 26) as u8)
    } else if '0' <= c && c <= '9' {
        Some(((c as u32) - ('0' as u32) + 52) as u8)
    } else if c == '+' {
        Some(62)
    } else if c == '/' {
        Some(63)
    } else {
        None
    }
}

pub open spec fn b64_chars_ok(s: Seq<char>) -> bool {
    forall|i: int| 0 <= i < s.len() ==> b64_val(#[trigger] s[i]) is Some
}

pub open spec fn b64_vals(s: Seq<char>) -> Seq<u8> {
    s.map_values(|c: char| b64_val(c)->0)
}

/// The three bytes four 6-bit values encode.
pub open spec fn b64_group(a: u8, b: u8, c: u8, d: u8) -> Seq<u8> {
    seq![
        ((a << 2u8) | (b >> 4u8)) as u8,
        (((b & 15u8) << 4u8) | (c >> 2u8)) as u8,
        (((c & 3u8) << 6u8) | d) as u8,
    ]
}

/// The bytes encoded by a whole number of 4-value groups.
pub open spec fn b64_full(vs: Seq<u8>) -> Seq<u8>
    decreases vs.len(),
{
    if vs.len() < 4 {
        seq![]
    } else {
        let n = vs.len();
        b64_full(vs.subrange(0, n - 4)) + b64_group(vs[n - 4], vs[n - 3], vs[n - 2], vs[n - 1])
    }
}

/// The bytes encoded by a final partial group of 0-3 values (leftover
/// bits that do not make up a byte are dropped).
pub open spec fn b64_partial(vs: Seq<u8>) -> Seq<u8> {
    if vs.len() == 3 {
        b64_group(vs[0], vs[1], vs[2], 0).subrange(0, 2)
    } else if vs.len() == 2 {
        b64_group(vs[0], vs[1], 0, 0).subrange(0, 1)
    } else {
        seq![]
    }
}

/// Base64 decoding of a sequence of 6-bit values.
pub open spec fn b64_decode_vals(vs: Seq<u8>) -> Seq<u8> {
    let q = vs.len() - vs.len() % 4;
    b64_full(vs.subrange(0, q)) + b64_partial(vs.subrange(q, vs.len() as int))
}

/// What `base64_decode` returns: trailing `=` padding is ignored, any other
/// character outside the alphabet is an error.
pub open spec fn base64_decode_spec(input: Seq<char>) -> Option<Seq<u8>> {
    let body = trim_end_char(input, '=');
    if b64_chars_ok(body) {
        Some(b64_decode_vals(b64_vals(body)))
    } else {
        None
    }
}

fn b64_val_exec(c: char) -> (r: Option<u8>)
    ensures
        r == b64_val(c),
{
    if 'A' <= c && c <= 'Z' {
        Some(((c as u32) - ('A' as u32)) as u8)
    } else if 'a' <= c && c <= 'z' {
        Some(((c as u32) - ('a' as u32) + 26) as u8)
    } else if '0' <= c && c <= '9' {
        Some(((c as u32) - ('0' as u32) + 52) as u8)
    } else if c == '+' {
        Some(62)
    } else if c == '/' {
        Some(63)
    } else {
        None
    }
}

proof fn lemma_b64_full_push(vs: Seq<u8>, a: u8, b: u8, c: u8, d: u8)
    requires
        vs.len() % 4 == 0,
    ensures
        b64_full(vs + seq![a, b, c, d]) == b64_full(vs) + b64_group(a, b, c, d),
{
    let w = vs + seq![a, b, c, d];
    assert(w.subrange(0, w.len() - 4) =~= vs);
}

proof fn lemma_bits_phase0(old_buf: u32, buf: u32, v: u8)
    requires
        buf == (old_buf << 6u32) | (v as u32),
        v < 64,
    ensures
        buf & 63 == v,
{
    assert(buf & 63 == v) by (bit_vector)
        requires
            buf == (old_buf << 6u32) | (v as u32),
            v < 64,
    ;
}

proof fn lemma_bits_phase1(old_buf: u32, buf: u32, a: u8, v: u8)
    requires
        buf == (old_buf << 6u32) | (v as u32),
        old_buf & 63 == a,
        v < 64,
        a < 64,
    ensures
        ((buf >> 4u32) as u8) == ((a << 2u8) | (v >> 4u8)) as u8,
        buf & 15 == v & 15,
{
    assert(((buf >> 4u32) as u8) == ((a << 2u8) | (v >> 4u8)) as u8 && buf & 15 == v & 15)
        by (bit_vector)
        requires
            buf == (old_buf << 6u32) | (v as u32),
            old_buf & 63 == a,
            v < 64,
            a < 64,
    ;
}

proof fn lemma_bits_phase2(old_buf: u32, buf: u32, b: u8, v: u8)
    requires
        buf == (old_buf << 6u32) | (v as u32),
        old_buf & 15 == b & 15,
        v < 64,
    ensures
        ((buf >> 2u32) as u8) == (((b & 15u8) << 4u8) | (v >> 2u8)) as u8,
        buf & 3 == v & 3,
{
    assert(((buf >> 2u32) as u8) == (((b & 15u8) << 4u8) | (v >> 2u8)) as u8 && buf & 3 == v & 3)
        by (bit_vector)
        requires
            buf == (old_buf << 6u32) | (v as u32),
            old_buf & 15 == b & 15,
            v < 64,
    ;
}

proof fn lemma_bits_phase3(old_buf: u32, buf: u32, c: u8, v: u8)
    requires
        buf == (old_buf << 6u32) | (v as u32),
        old_buf & 3 == c & 3,
        v < 64,
    ensures
        ((buf >> 0u32) as u8) == (((c & 3u8) << 6u8) | v) as u8,
{
    assert(((buf >> 0u32) as u8) == (((c & 3u8) << 6u8) | v) as u8) by (bit_vector)
        requires
            buf == (old_buf << 6u32) | (v as u32),
            old_buf & 3 == c & 3,
            v < 64,
    ;
}

/// One decoding step: appending the 6-bit value `v` as the `i`-th value.
proof fn lemma_b64_step(
    old_vals: Seq<u8>,
    v: u8,
    i: int,
    old_buf: u32,
    buf: u32,
    old_out: Seq<u8>,
    out: Seq<u8>,
    old_bits: u32,
    bits: u32,
)
    requires
        old_vals.len() == i,
        forall|j: int| 0 <= j < i ==> old_vals[j] < 64,
        i >= 0,
        v < 64,
        buf == (old_buf << 6u32) | (v as u32),
        old_out == b64_full(old_vals.subrange(0, i - i % 4)) + b64_partial(
            old_vals.subrange(i - i % 4, i),
        ),
        i % 4 == 0 ==> old_bits == 0,
        i % 4 == 1 ==> old_bits == 6 && old_buf & 63 == old_vals[i - 1],
        i % 4 == 2 ==> old_bits == 4 && old_buf & 15 == old_vals[i - 1] & 15,
        i % 4 == 3 ==> old_bits == 2 && old_buf & 3 == old_vals[i - 1] & 3,
        old_bits + 6 >= 8 ==> bits == old_bits + 6 - 8 && out == old_out.push(
            (buf >> bits) as u8,
        ),
        old_bits + 6 < 8 ==> bits == old_bits + 6 && out == old_out,
    ensures
        ({
            let vals = old_vals.push(v);
            let j = i + 1;
            &&& out == b64_full(vals.subrange(0, j - j % 4)) + b64_partial(
                vals.subrange(j - j % 4, j),
            )
            &&& j % 4 == 0 ==> bits == 0
            &&& j % 4 == 1 ==> bits == 6 && buf & 63 == vals[j - 1]
            &&& j % 4 == 2 ==> bits == 4 && buf & 15 == vals[j - 1] & 15
            &&& j % 4 == 3 ==> bits == 2 && buf & 3 == vals[j - 1] & 3
        }),
{
    let vals = old_vals.push(v);
    let k = i - i % 4;
    assert(vals.subrange(0, k) =~= old_vals.subrange(0, k));
    if i % 4 == 0 {
        lemma_bits_phase0(old_buf, buf, v);
        assert(vals.subrange(k, i + 1) =~= seq![v]);
        assert(old_vals.subrange(k, i) =~= Seq::<u8>::empty());
    } else if i % 4 == 1 {
        let a = old_vals[i - 1];
        lemma_bits_phase1(old_buf, buf, a, v);
        assert(vals.subrange(k, i + 1) =~= seq![a, v]);
        assert(old_vals.subrange(k, i) =~= seq![a]);
    } else if i % 4 == 2 {
        let a = old_vals[i - 2];
        let b = old_vals[i - 1];
        lemma_bits_phase2(old_buf, buf, b, v);
        assert(vals.subrange(k, i + 1) =~= seq![a, b, v]);
        assert(old_vals.subrange(k, i) =~= seq![a, b]);
        assert(out =~= b64_full(vals.subrange(0, k)) + b64_partial(vals.subrange(k, i + 1)));
    } else {
        let a = old_vals[i - 3];
        let b = old_vals[i - 2];
        let c = old_vals[i - 1];
        lemma_bits_phase3(old_buf, buf, c, v);
        assert(old_vals.subrange(k, i) =~= seq![a, b, c]);
        assert(vals.subrange(0, i + 1) =~= vals.subrange(0, k) + seq![a, b, c, v]);
        lemma_b64_full_push(vals.subrange(0, k), a, b, c, v);
        assert(vals.subrange(i + 1, i + 1) =~= Seq::<u8>::empty());
        assert(b64_partial(old_vals.subrange(k, i)) + seq![((buf >> 0u32) as u8)] =~= b64_group(a, b, c, v));
        assert(out =~= b64_full(vals.subrange(0, i + 1)) + b64_partial(vals.subrange(i + 1, i + 1)));
    }
}

// ---- What the decoder inverts --------------------------------------------------

/// The standard-alphabet character for a 6-bit value.
pub open spec fn b64_char(v: u8) -> char {
    if v < 26 {
        ((v as u32) + ('A' as u32)) as char
    } else if v < 52 {
        ((v as u32) - 26 + ('a' as u32)) as char
    } else if v < 62 {
        ((v as u32) - 52 + ('0' as u32)) as char
    } else if v == 62 {
        '+'
    } else {
        '/'
    }
}

/// The four 6-bit values that encode the bytes `a`, `b`, `c`.
pub open spec fn b64_enc3(a: u8, b: u8, c: u8) -> Seq<u8> {
    seq![
        a >> 2u8,
        (((a & 3u8) << 4u8) | (b >> 4u8)) as u8,
        (((b & 15u8) << 2u8) | (c >> 6u8)) as u8,
        c & 63u8,
    ]
}

/// The values encoding a whole number of 3-byte groups.
pub open spec fn b64_enc_full(bytes: Seq<u8>) -> Seq<u8>
    decreases bytes.len(),
{
    if bytes.len() < 3 {
        seq![]
    } else {
        let n = bytes.len();
        b64_enc_full(bytes.subrange(0, n - 3)) + b64_enc3(bytes[n - 3], bytes[n - 2], bytes[n - 1])
    }
}

/// The values encoding a final group of one or two bytes (two or three
/// values; the missing bits are zero).
pub open spec fn b64_enc_partial(rest: Seq<u8>) -> Seq<u8> {
    if rest.len() == 2 {
        b64_enc3(rest[0], rest[1], 0).subrange(0, 3)
    } else if rest.len() == 1 {
        b64_enc3(rest[0], 0, 0).subrange(0, 2)
    } else {
        seq![]
    }
}

/// The 6-bit values of the base64 encoding of `bytes`.
pub open spec fn b64_enc_vals(bytes: Seq<u8>) -> Seq<u8> {
    let q = bytes.len() - bytes.len() % 3;
    b64_enc_full(bytes.subrange(0, q)) + b64_enc_partial(bytes.subrange(q, bytes.len() as int))
}

/// The RFC 4648 base64 encoding of `bytes`, with `=` padding.
pub open spec fn base64_encode_spec(bytes: Seq<u8>) -> Seq<char> {
    let vals = b64_enc_vals(bytes);
    let pad = if bytes.len() % 3 == 1 {
        seq!['=', '=']
    } else if bytes.len() % 3 == 2 {
        seq!['=']
    } else {
        seq![]
    };
    vals.map_values(|v: u8| b64_char(v)) + pad
}

proof fn lemma_b64_group_inverts(a: u8, b: u8, c: u8)
    ensures
        b64_group(b64_enc3(a, b, c)[0], b64_enc3(a, b, c)[1], b64_enc3(a, b, c)[2], b64_enc3(a, b, c)[3])
            == seq![a, b, c],
        b64_enc3(a, b, c)[0] < 64,
        b64_enc3(a, b, c)[1] < 64,
        b64_enc3(a, b, c)[2] < 64,
        b64_enc3(a, b, c)[3] < 64,
        c == 0 ==> b64_enc3(a, b, c)[3] == 0,
        b == 0 && c == 0 ==> b64_enc3(a, b, c)[2] == 0,
{
    let v0: u8 = a >> 2u8;
    let v1: u8 = (((a & 3u8) << 4u8) | (b >> 4u8)) as u8;
    let v2: u8 = (((b & 15u8) << 2u8) | (c >> 6u8)) as u8;
    let v3: u8 = c & 63u8;
    assert(((v0 << 2u8) | (v1 >> 4u8)) as u8 == a && (((v1 & 15u8) << 4u8) | (v2 >> 2u8)) as u8 == b
        && (((v2 & 3u8) << 6u8) | v3) as u8 == c) by (bit_vector)
        requires
            v0 == a >> 2u8,
            v1 == (((a & 3u8) << 4u8) | (b >> 4u8)) as u8,
            v2 == (((b & 15u8) << 2u8) | (c >> 6u8)) as u8,
            v3 == c & 63u8,
    ;
    assert(v0 < 64 && v1 < 64 && v2 < 64 && v3 < 64 && (c == 0 ==> v3 == 0) && (b == 0 && c == 0 ==> v2
        == 0)) by (bit_vector)
        requires
            v0 == a >> 2u8,
            v1 == (((a & 3u8) << 4u8) | (b >> 4u8)) as u8,
            v2 == (((b & 15u8) << 2u8) | (c >> 6u8)) as u8,
            v3 == c & 63u8,
    ;
    assert(b64_group(v0, v1, v2, v3) =~= seq![a, b, c]);
}

proof fn lemma_b64_char(v: u8)
    requires
        v < 64,
    ensures
        b64_val(b64_char(v)) == Some(v),
        b64_char(v) != '=',
{
}

proof fn lemma_b64_full_round_trip(bytes: Seq<u8>, k: nat)
    requires
        bytes.len() == 3 * k,
    ensures
        b64_enc_full(bytes).len() == 4 * k,
        b64_full(b64_enc_full(bytes)) == bytes,
        forall|i: int| 0 <= i < b64_enc_full(bytes).len() ==> #[trigger] b64_enc_full(bytes)[i] < 64,
    decreases k,
{
    if k > 0 {
        let n = bytes.len() as int;
        let init = bytes.subrange(0, n - 3);
        lemma_b64_full_round_trip(init, (k - 1) as nat);
        let e = b64_enc3(bytes[n - 3], bytes[n - 2], bytes[n - 1]);
        lemma_b64_group_inverts(bytes[n - 3], bytes[n - 2], bytes[n - 1]);
        assert(e =~= seq![e[0], e[1], e[2], e[3]]);
        lemma_b64_full_push(b64_enc_full(init), e[0], e[1], e[2], e[3]);
        assert(bytes =~= init + seq![bytes[n - 3], bytes[n - 2], bytes[n - 1]]);
        let full = b64_enc_full(bytes);
        assert(full == b64_enc_full(init) + e);
        assert forall|i: int| 0 <= i < full.len() implies #[trigger] full[i] < 64 by {
            if i < b64_enc_full(init).len() {
                assert(full[i] == b64_enc_full(init)[i]);
            } else {
                assert(full[i] == e[i - b64_enc_full(init).len()]);
            }
        }
    } else {
        assert(bytes.len() == 0);
    }
}

proof fn lemma_b64_partial_round_trip(rest: Seq<u8>)
    requires
        rest.len() < 3,
    ensures
        b64_partial(b64_enc_partial(rest)) == rest,
        b64_enc_partial(rest).len() == (if rest.len() == 0 { 0int } else { rest.len() + 1int }),
        forall|i: int| 0 <= i < b64_enc_partial(rest).len() ==> #[trigger] b64_enc_partial(rest)[i] < 64,
{
    if rest.len() == 2 {
        lemma_b64_group_inverts(rest[0], rest[1], 0);
        let e = b64_enc3(rest[0], rest[1], 0);
        assert(b64_group(e[0], e[1], e[2], 0).subrange(0, 2) =~= rest);
    } else if rest.len() == 1 {
        lemma_b64_group_inverts(rest[0], 0, 0);
        let e = b64_enc3(rest[0], 0, 0);
        assert(b64_group(e[0], e[1], 0, 0).subrange(0, 1) =~= rest);
    } else {
        assert(b64_partial(seq![]) =~= rest);
    }
}

proof fn lemma_trim_padding(s: Seq<char>, pad: Seq<char>)
    requires
        s.len() == 0 || s.last() != '=',
        forall|i: int| 0 <= i < pad.len() ==> #[trigger] pad[i] == '=',
    ensures
        trim_end_char(s + pad, '=') == s,
    decreases pad.len(),
{
    if pad.len() == 0 {
        assert(s + pad =~= s);
    } else {
        let shorter = pad.drop_last();
        assert((s + pad).drop_last() =~= s + shorter);
        lemma_trim_padding(s, shorter);
    }
}

proof fn lemma_b64_vals_round_trip(bytes: Seq<u8>)
    ensures
        b64_decode_vals(b64_enc_vals(bytes)) == bytes,
        forall|i: int| 0 <= i < b64_enc_vals(bytes).len() ==> #[trigger] b64_enc_vals(bytes)[i] < 64,
{
    let n = bytes.len() as int;
    let r = n % 3;
    let q = n - r;
    let k = (n / 3) as nat;
    assert(q == 3 * k);
    let head = bytes.subrange(0, q);
    let rest = bytes.subrange(q, n);
    lemma_b64_full_round_trip(head, k);
    lemma_b64_partial_round_trip(rest);
    let full = b64_enc_full(head);
    let part = b64_enc_partial(rest);
    let vals = full + part;
    assert(vals == b64_enc_vals(bytes));
    assert forall|i: int| 0 <= i < vals.len() implies #[trigger] vals[i] < 64 by {
        if i < full.len() {
            assert(vals[i] == full[i]);
        } else {
            assert(vals[i] == part[i - full.len()]);
        }
    }
    let m = vals.len() as int;
    assert(m == 4 * k + part.len());
    assert(m % 4 == part.len() as int);
    let q4 = m - m % 4;
    assert(vals.subrange(0, q4) =~= full);
    assert(vals.subrange(q4, m) =~= part);
    assert(head + rest =~= bytes);
}

proof fn lemma_b64_chars_round_trip(vals: Seq<u8>)
    requires
        forall|i: int| 0 <= i < vals.len() ==> #[trigger] vals[i] < 64,
    ensures
        b64_chars_ok(vals.map_values(|v: u8| b64_char(v))),
        b64_vals(vals.map_values(|v: u8| b64_char(v))) == vals,
        vals.len() == 0 || vals.map_values(|v: u8| b64_char(v)).last() != '=',
{
    let chars = vals.map_values(|v: u8| b64_char(v));
    if chars.len() > 0 {
        lemma_b64_char(vals[chars.len() - 1]);
    }
    assert forall|i: int| 0 <= i < chars.len() implies b64_val(#[trigger] chars[i]) is Some by {
        lemma_b64_char(vals[i]);
    }
    assert forall|i: int| 0 <= i < vals.len() implies #[trigger] b64_vals(chars)[i] == vals[i] by {
        lemma_b64_char(vals[i]);
    }
    assert(b64_vals(chars) =~= vals);
}

/// The decoder inverts RFC 4648 base64 encoding: decoding the padded
/// standard-alphabet encoding of any bytes gives those bytes back.
pub proof fn lemma_base64_round_trip(bytes: Seq<u8>)
    ensures
        base64_decode_spec(base64_encode_spec(bytes)) == Some(bytes),
{
    let vals = b64_enc_vals(bytes);
    lemma_b64_vals_round_trip(bytes);
    lemma_b64_chars_round_trip(vals);
    let chars = vals.map_values(|v: u8| b64_char(v));
    let r = bytes.len() % 3;
    let pad: Seq<char> = if r == 1 {
        seq!['=', '=']
    } else if r == 2 {
        seq!['=']
    } else {
        seq![]
    };
    assert(base64_encode_spec(bytes) == chars + pad);
    lemma_trim_padding(chars, pad);
}

/// A hand-rolled standard-alphabet (RFC 4648) base64 decoder: WireGuard keys
/// are always 32 bytes (44 characters with one trailing `=`).
pub fn base64_decode(input: &str) -> (r: Result<Vec<u8>, ()>)
    ensures
        match base64_decode_spec(input@) {
            Some(bytes) => r matches Ok(v) && v@ == bytes,
            None => r is Err,
        },
{
    let all = chars_of(input);
    let mut end = all.len();
    assert(all@.subrange(0, all.len() as int) =~= input@);
    while end > 0 && all[end - 1] == '='
        invariant
            end <= all.len(),
            trim_end_char(all@.subrange(0, end as int), '=') == trim_end_char(input@, '='),
            all@ == input@,
        decreases end,
    {
        assert(all@.subrange(0, end as int).drop_last() =~= all@.subrange(0, end - 1));
        end -= 1;
    }
    let ghost body = all@.subrange(0, end as int);
    assert(all@.subrange(0, all.len() as int) =~= input@);
    assert(trim_end_char(body, '=') == body);
    let mut out: Vec<u8> = Vec::new();
    let mut buf: u32 = 0;
    let mut bits: u32 = 0;
    let mut i: usize = 0;
    let ghost mut vals: Seq<u8> = seq![];
    while i < end
        invariant
            end <= all.len(),
            body == all@.subrange(0, end as int),
            trim_end_char(input@, '=') == body,
            i <= end,
            b64_chars_ok(body.subrange(0, i as int)),
            vals == b64_vals(body.subrange(0, i as int)),
            forall|j: int| 0 <= j < vals.len() ==> vals[j] < 64,
            out@ == b64_full(vals.subrange(0, (i - i % 4) as int)) + b64_partial(
                vals.subrange((i - i % 4) as int, i as int),
            ),
            i % 4 == 0 ==> bits == 0,
            i % 4 == 1 ==> bits == 6 && buf & 63 == vals[i - 1],
            i % 4 == 2 ==> bits == 4 && buf & 15 == vals[i - 1] & 15,
            i % 4 == 3 ==> bits == 2 && buf & 3 == vals[i - 1] & 3,
        decreases end - i,
    {
        let c = all[i];
        let v = match b64_val_exec(c) {
            Some(v) => v,
            None => {
                proof {
                    assert(body[i as int] == c);
                    assert(!b64_chars_ok(body));
                }
                return Err(());
            },
        };
        let ghost old_buf = buf;
        let ghost old_bits = bits;
        let ghost old_vals = vals;
        let ghost old_out = out@;
        proof {
            vals = vals.push(v);
            assert(body.subrange(0, i + 1) =~= body.subrange(0, i as int).push(c));
            assert(b64_vals(body.subrange(0, i + 1)) =~= old_vals.push(v));
            assert forall|j: int| 0 <= j < i + 1 implies b64_val(
                #[trigger] body.subrange(0, i + 1)[j],
            ) is Some by {
                if j < i {
                    assert(body.subrange(0, i + 1)[j] == body.subrange(0, i as int)[j]);
                }
            }
        }
        assert(v < 64);
        buf = (buf << 6u32) | (v as u32);
        bits = bits + 6;
        if bits >= 8 {
            bits = bits - 8;
            out.push((buf >> bits) as u8);
        }
        proof {
            lemma_b64_step(old_vals, v, i as int, old_buf, buf, old_out, out@, old_bits, bits);
        }
        i += 1;
    }
    assert(body.subrange(0, end as int) =~= body);
    Ok(out)
}

/// A 32-byte WireGuard key from its base64 text (surrounding whitespace
/// ignored).
pub fn decode_key(field: &str, b64: &str) -> (r: Result<[u8; 32], NetworkError>)
    ensures
        base64_decode_spec(trim(b64@)) is None ==> vpn_err(r, field@ + " is not valid base64"@),
        base64_decode_spec(trim(b64@)) matches Some(bytes) ==> (bytes.len() != 32 ==> vpn_err(
            r,
            field@ + " must decode to 32 bytes"@,
        )),
        base64_decode_spec(trim(b64@)) matches Some(bytes) ==> (bytes.len() == 32 ==> (r matches Ok(
            k,
        ) && k@ == bytes)),
{
    let trimmed = trim_string(b64);
    let bytes = match base64_decode(trimmed.as_str()) {
        Ok(b) => b,
        Err(_) => return Err(NetworkError::Vpn(join2(field, " is not valid base64"))),
    };
    if bytes.len() != WG_KEY_LEN {
        return Err(NetworkError::Vpn(join2(field, " must decode to 32 bytes")));
    }
    let mut key = [0u8; 32];
    let mut i: usize = 0;
    while i < 32
        invariant
            bytes.len() == 32,
            i <= 32,
            forall|j: int| 0 <= j < i ==> key@[j] == bytes@[j],
        decreases 32 - i,
    {
        key[i] = bytes[i];
        i += 1;
    }
    assert(key@ =~= bytes@);
    Ok(key)
}

} // verus!

verus! {

/// Linux's address-family numbers, as `sockaddr`s carry them.
pub const AF_INET: u16 = 2;
pub const AF_INET6: u16 = 10;

/// `x` as two bytes, low byte first or high byte first.
pub open spec fn u16_bytes_either_order(x: u16, b: Seq<u8>) -> bool {
    b == seq![(x % 256) as u8, (x / 256) as u8] || b == seq![(x / 256) as u8, (x % 256) as u8]
}

/// `u16::to_ne_bytes`: the two bytes of `x` in this machine's byte order,
/// which is one of the two orders; which one is not stated.
#[verifier::external_body]
fn ne_bytes(x: u16) -> (r: [u8; 2])
    ensures
        u16_bytes_either_order(x, r@),
{
    x.to_ne_bytes()
}

/// The bytes of the eight 16-bit groups of an IPv6 address, each most
/// significant byte first.
pub open spec fn v6_octets(g: Seq<u16>) -> Seq<u8>
    decreases g.len(),
{
    if g.len() == 0 {
        seq![]
    } else {
        v6_octets(g.drop_last()) + seq![(g.last() / 256) as u8, (g.last() % 256) as u8]
    }
}

/// What follows the family in a `sockaddr_in` / `sockaddr_in6` for `ip`
/// and `port`: the port in network byte order, then the address
/// (`sin_zero` padding for IPv4; zero flow info before and zero scope id
/// after the address for IPv6).
pub open spec fn sockaddr_tail(ip: crate::ip::IpAddress, port: u16) -> Seq<u8> {
    let p = seq![(port / 256) as u8, (port % 256) as u8];
    match ip {
        crate::ip::IpAddress::V4(o) => p + o@ + seq![0u8, 0, 0, 0, 0, 0, 0, 0],
        crate::ip::IpAddress::V6(g) => p + seq![0u8, 0, 0, 0] + v6_octets(g@) + seq![0u8, 0, 0, 0],
    }
}

pub open spec fn family_of(ip: crate::ip::IpAddress) -> u16 {
    match ip {
        crate::ip::IpAddress::V4(_) => AF_INET,
        crate::ip::IpAddress::V6(_) => AF_INET6,
    }
}

/// The raw `struct sockaddr_in` / `sockaddr_in6` bytes of the peer
/// endpoint `ip`:`port`, as `WGPEER_A_ENDPOINT` carries them: the family
/// in the machine's byte order, the port and the address in network
/// byte order.
pub fn encode_sockaddr(ip: crate::ip::IpAddress, port: u16) -> (b: Vec<u8>)
    ensures
        b@.len() == 2 + sockaddr_tail(ip, port).len(),
        u16_bytes_either_order(family_of(ip), b@.subrange(0, 2)),
        b@.subrange(2, b@.len() as int) == sockaddr_tail(ip, port),
{
    let mut out: Vec<u8> = Vec::new();
    let fam = match ip {
        crate::ip::IpAddress::V4(_) => ne_bytes(AF_INET),
        crate::ip::IpAddress::V6(_) => ne_bytes(AF_INET6),
    };
    out.push(fam[0]);
    out.push(fam[1]);
    out.push((port / 256) as u8);
    out.push((port % 256) as u8);
    match ip {
        crate::ip::IpAddress::V4(o) => {
            out.push(o[0]);
            out.push(o[1]);
            out.push(o[2]);
            out.push(o[3]);
            let mut k: usize = 0;
            while k < 8
                invariant
                    k <= 8,
                    out@.len() == 8 + k,
                    out@.subrange(0, 2) == fam@,
                    out@.subrange(2, 8) == seq![(port / 256) as u8, (port % 256) as u8] + o@,
                    forall|j: int| 8 <= j < out@.len() ==> out@[j] == 0u8,
                decreases 8 - k,
            {
                let ghost before = out@;
                out.push(0u8);
                assert(out@.subrange(0, 2) =~= before.subrange(0, 2));
                assert(out@.subrange(2, 8) =~= before.subrange(2, 8));
                k += 1;
            }
            assert(out@.subrange(2, out@.len() as int) =~= sockaddr_tail(ip, port));
        },
        crate::ip::IpAddress::V6(g) => {
            let mut k: usize = 0;
            while k < 4
                invariant
                    k <= 4,
                    out@.len() == 4 + k,
                    out@.subrange(0, 2) == fam@,
                    out@.subrange(2, 4) == seq![(port / 256) as u8, (port % 256) as u8],
                    forall|j: int| 4 <= j < out@.len() ==> out@[j] == 0u8,
                decreases 4 - k,
            {
                let ghost before = out@;
                out.push(0u8);
                assert(out@.subrange(0, 2) =~= before.subrange(0, 2));
                assert(out@.subrange(2, 4) =~= before.subrange(2, 4));
                k += 1;
            }
            let ghost head = out@;
            let mut i: usize = 0;
            while i < 8
                invariant
                    i <= 8,
                    head.len() == 8,
                    out@ == head + v6_octets(g@.subrange(0, i as int)),
                decreases 8 - i,
            {
                assert(g@.subrange(0, i + 1).drop_last() =~= g@.subrange(0, i as int));
                out.push((g[i] / 256) as u8);
                out.push((g[i] % 256) as u8);
                assert(out@ =~= head + v6_octets(g@.subrange(0, i + 1)));
                i += 1;
            }
            assert(g@.subrange(0, 8) =~= g@);
            let ghost mid = out@;
            out.push(0u8);
            out.push(0u8);
            out.push(0u8);
            out.push(0u8);
            proof {
                lemma_v6_octets_len(g@);
                assert(out@.subrange(0, 2) =~= head.subrange(0, 2));
                assert(head.subrange(2, 8) =~= seq![(port / 256) as u8, (port % 256) as u8] + seq![0u8, 0, 0, 0]);
                assert(out@.subrange(2, out@.len() as int) =~= sockaddr_tail(ip, port));
            }
        },
    }
    out
}

/// Two bytes for each 16-bit group.
pub proof fn lemma_v6_octets_len(g: Seq<u16>)
    ensures
        v6_octets(g).len() == 2 * g.len(),
    decreases g.len(),
{
    if g.len() > 0 {
        lemma_v6_octets_len(g.drop_last());
    }
}

/// A `sockaddr_in` is 16 bytes and a `sockaddr_in6` 28, the family included.
pub proof fn lemma_sockaddr_tail_len(ip: crate::ip::IpAddress, port: u16)
    ensures
        sockaddr_tail(ip, port).len() == match ip {
            crate::ip::IpAddress::V4(_) => 14int,
            crate::ip::IpAddress::V6(_) => 26int,
        },
{
    match ip {
        crate::ip::IpAddress::V4(o) => {},
        crate::ip::IpAddress::V6(g) => {
            lemma_v6_octets_len(g@);
        },
    }
}

} // verus!
