//! The plain-HTTP side of fetching a PAC file: the URL, the request, and
//! reading the response (status line, chunked transfer coding, size
//! limit). The socket itself is the daemon's.

use crate::errors::{join2, join3, other_err, NetworkError};
use crate::text::{
    chars_of, contains_seq, find_char, is_ws, lines, lines_of, parse_unsigned, parse_unsigned_at,
    split_char, split_on, starts_with, str_eq, string_of, to_lower, trim, views,
};
use vstd::prelude::*;
use vstd::string::StringSliceAdditionalSpecFns;
use vstd::utf8::encode_utf8;

verus! {

/// PAC files are typically a few KB; anything past this is not a PAC file.
pub const MAX_PAC_SIZE: usize = 1048576;

/// `s.split_once(c)`.
pub open spec fn split_once(s: Seq<char>, c: char) -> Option<(Seq<char>, Seq<char>)> {
    match find_char(s, c) {
        Some(i) => Some((s.subrange(0, i), s.subrange(i + 1, s.len() as int))),
        None => None,
    }
}

/// Host, port and path of an `http://` URL: the authority ends at the
/// first `/` (the path keeps it, and defaults to `/`); a `:` in the
/// authority separates a port, which defaults to 80.
pub open spec fn http_url(url: Seq<char>) -> Result<(Seq<char>, u16, Seq<char>), Seq<char>> {
    if !starts_with(url, "http://"@) {
        Err("only http:// PAC URLs are supported (no TLS client available)"@)
    } else {
        let rest = url.subrange(7, url.len() as int);
        let (authority, path) = match split_once(rest, '/') {
            Some((a, p)) => (a, seq!['/'] + p),
            None => (rest, "/"@),
        };
        match split_once(authority, ':') {
            Some((h, p)) => match parse_unsigned(p, u16::MAX as int) {
                None => Err("invalid port in PAC URL: '"@ + p + "'"@),
                Some(port) => if h.len() == 0 {
                    Err("PAC URL has no host"@)
                } else {
                    Ok((h, port as u16, path))
                },
            },
            None => if authority.len() == 0 {
                Err("PAC URL has no host"@)
            } else {
                Ok((authority, 80u16, path))
            },
        }
    }
}

fn split_once_at(v: &Vec<char>, lo: usize, hi: usize, c: char) -> (r: Option<usize>)
    requires
        lo <= hi <= v.len(),
    ensures
        match split_once(v@.subrange(lo as int, hi as int), c) {
            Some((a, b)) => (r matches Some(i) && lo <= i < hi && a == v@.subrange(lo as int, i as int) && b
                == v@.subrange(i + 1, hi as int)),
            None => r is None,
        },
{
    let mut i = lo;
    while i < hi
        invariant
            lo <= i <= hi <= v.len(),
            forall|j: int| lo <= j < i ==> v@[j] != c,
        decreases hi - i,
    {
        if v[i] == c {
            proof {
                let s = v@.subrange(lo as int, hi as int);
                crate::text::lemma_find_char(s, c);
                crate::text::lemma_find_char_first(s, c, i - lo);
                assert(s.subrange(0, i - lo) =~= v@.subrange(lo as int, i as int));
                assert(s.subrange(i - lo + 1, s.len() as int) =~= v@.subrange(i + 1, hi as int));
            }
            return Some(i);
        }
        i += 1;
    }
    proof {
        let s = v@.subrange(lo as int, hi as int);
        crate::text::lemma_find_char_none(s, c);
    }
    None
}

/// Splits an `http://` URL into host, port and path.
pub fn parse_http_url(url: &str) -> (r: Result<(String, u16, String), NetworkError>)
    ensures
        match http_url(url@) {
            Ok((h, port, path)) => (r matches Ok(t) && t.0@ == h && t.1 == port && t.2@ == path),
            Err(m) => other_err(r, m),
        },
{
    let v = chars_of(url);
    if !crate::text::starts_with_str(url, "http://") {
        return Err(
            NetworkError::Other(
                String::from_str("only http:// PAC URLs are supported (no TLS client available)"),
            ),
        );
    }
    proof {
        reveal_strlit("http://");
        assert(v@.subrange(0, 7) =~= "http://"@);
    }
    let n = v.len();
    let (auth_end, path) = match split_once_at(&v, 7, n, '/') {
        Some(i) => {
            let mut p = String::new();
            crate::text::push_char(&mut p, '/');
            let rest = string_of(&v, i + 1, n);
            p.append(rest.as_str());
            (i, p)
        },
        None => {
            proof {
                reveal_strlit("/");
            }
            (n, String::from_str("/"))
        },
    };
    proof {
        let rest = url@.subrange(7, url@.len() as int);
        assert(rest =~= v@.subrange(7, n as int));
        match split_once(rest, '/') {
            Some((a, p)) => {
                assert(a =~= v@.subrange(7, auth_end as int));
                assert(path@ =~= seq!['/'] + p);
            },
            None => {},
        }
    }
    match split_once_at(&v, 7, auth_end, ':') {
        Some(i) => {
            match parse_unsigned_at(&v, i + 1, auth_end, u16::MAX as u64) {
                None => {
                    let p = string_of(&v, i + 1, auth_end);
                    Err(NetworkError::Other(join3("invalid port in PAC URL: '", p.as_str(), "'")))
                },
                Some(port) => {
                    if i == 7 {
                        Err(NetworkError::Other(String::from_str("PAC URL has no host")))
                    } else {
                        Ok((string_of(&v, 7, i), port as u16, path))
                    }
                },
            }
        },
        None => {
            if auth_end == 7 {
                Err(NetworkError::Other(String::from_str("PAC URL has no host")))
            } else {
                Ok((string_of(&v, 7, auth_end), 80, path))
            }
        },
    }
}

/// The `GET` request for `path` on `host`.
pub fn http_request(host: &str, path: &str) -> (r: String)
    ensures
        r@ == "GET "@ + path@ + " HTTP/1.1\r\nHost: "@ + host@
            + "\r\nUser-Agent: mitos-network\r\nAccept: application/x-ns-proxy-autoconfig, */*\r\nConnection: close\r\n\r\n"@,
{
    let mut r = join3("GET ", path, " HTTP/1.1\r\nHost: ");
    r.append(host);
    r.append(
        "\r\nUser-Agent: mitos-network\r\nAccept: application/x-ns-proxy-autoconfig, */*\r\nConnection: close\r\n\r\n",
    );
    r
}

// ---- Chunked transfer coding ----------------------------------------------------

pub open spec fn is_ascii_ws_byte(b: u8) -> bool {
    (9 <= b && b <= 13) || b == 32
}

/// Whether `a b c` encode one of the three-byte Unicode `White_Space`
/// characters (U+1680, U+2000-U+200A, U+2028, U+2029, U+202F, U+205F,
/// U+3000).
pub open spec fn is_ws3(a: u8, b: u8, c: u8) -> bool {
    ||| (a == 0xe1u8 && b == 0x9au8 && c == 0x80u8)
    ||| (a == 0xe2u8 && b == 0x80u8 && ((0x80u8 <= c && c <= 0x8au8) || c == 0xa8u8 || c == 0xa9u8
        || c == 0xafu8))
    ||| (a == 0xe2u8 && b == 0x81u8 && c == 0x9fu8)
    ||| (a == 0xe3u8 && b == 0x80u8 && c == 0x80u8)
}

/// Whether `a b` encode U+0085 or U+00A0.
pub open spec fn is_ws2(a: u8, b: u8) -> bool {
    a == 0xc2u8 && (b == 0x85u8 || b == 0xa0u8)
}

/// The length of the UTF-8 encoding of a Unicode `White_Space` character
/// (what `str::trim` strips) at the start of `s`; 0 if there is none.
pub open spec fn ws_prefix_len(s: Seq<u8>) -> int {
    if s.len() >= 1 && is_ascii_ws_byte(s[0]) {
        1
    } else if s.len() >= 2 && is_ws2(s[0], s[1]) {
        2
    } else if s.len() >= 3 && is_ws3(s[0], s[1], s[2]) {
        3
    } else {
        0
    }
}

/// The same at the end of `s`.
pub open spec fn ws_suffix_len(s: Seq<u8>) -> int {
    let n = s.len() as int;
    if n >= 1 && is_ascii_ws_byte(s[n - 1]) {
        1
    } else if n >= 2 && is_ws2(s[n - 2], s[n - 1]) {
        2
    } else if n >= 3 && is_ws3(s[n - 3], s[n - 2], s[n - 1]) {
        3
    } else {
        0
    }
}

/// `s` without its leading whitespace.
pub open spec fn trim_bytes_start(s: Seq<u8>) -> Seq<u8>
    decreases s.len(),
{
    if ws_prefix_len(s) > 0 {
        trim_bytes_start(s.subrange(ws_prefix_len(s), s.len() as int))
    } else {
        s
    }
}

/// `s` without its trailing whitespace.
pub open spec fn trim_bytes_end(s: Seq<u8>) -> Seq<u8>
    decreases s.len(),
{
    if ws_suffix_len(s) > 0 {
        trim_bytes_end(s.subrange(0, s.len() - ws_suffix_len(s)))
    } else {
        s
    }
}

pub open spec fn hex_val(b: u8) -> int {
    if 48 <= b && b <= 57 {
        b - 48
    } else if 97 <= b && b <= 102 {
        b - 87
    } else {
        b - 55
    }
}

pub open spec fn is_hex_byte(b: u8) -> bool {
    (48 <= b && b <= 57) || (97 <= b && b <= 102) || (65 <= b && b <= 70)
}

pub open spec fn hex_value(s: Seq<u8>) -> int
    decreases s.len(),
{
    if s.len() == 0 {
        0
    } else {
        hex_value(s.drop_last()) * 16 + hex_val(s.last())
    }
}

pub open spec fn all_hex(b: Seq<u8>) -> bool {
    forall|i: int| 0 <= i < b.len() ==> is_hex_byte(#[trigger] b[i])
}

/// The digits of a hex number: without one leading `+`.
pub open spec fn hex_body(s: Seq<u8>) -> Seq<u8> {
    if s.len() > 0 && s[0] == 43u8 {
        s.drop_first()
    } else {
        s
    }
}

/// `usize::from_str_radix(s, 16)`: an optional `+`, then at least one hex
/// digit, with a value that fits.
pub open spec fn parse_hex(s: Seq<u8>) -> Option<int> {
    if hex_body(s).len() > 0 && all_hex(hex_body(s)) && hex_value(hex_body(s)) <= usize::MAX {
        Some(hex_value(hex_body(s)))
    } else {
        None
    }
}

/// `b` with the hex letters `a`-`f` made upper case.
pub open spec fn upper_hex_byte(b: u8) -> u8 {
    if 97 <= b && b <= 102 {
        (b - 32) as u8
    } else {
        b
    }
}

pub open spec fn upper_hex(s: Seq<u8>) -> Seq<u8> {
    s.map_values(|b: u8| upper_hex_byte(b))
}

proof fn lemma_hex_value_upper(s: Seq<u8>)
    ensures
        hex_value(upper_hex(s)) == hex_value(s),
    decreases s.len(),
{
    if s.len() > 0 {
        assert(upper_hex(s).drop_last() =~= upper_hex(s.drop_last()));
        lemma_hex_value_upper(s.drop_last());
    }
}

/// Hex digits are read in either case: a size line and the same line with
/// its letters `a`-`f` made upper case give the same number (`"1a"` and
/// `"1A"` both give 26), or both fail.
pub proof fn lemma_parse_hex_either_case(s: Seq<u8>)
    ensures
        parse_hex(upper_hex(s)) == parse_hex(s),
{
    let u = upper_hex(s);
    assert(hex_body(u) =~= upper_hex(hex_body(s)));
    let hb = hex_body(s);
    assert(all_hex(upper_hex(hb)) == all_hex(hb)) by {
        if all_hex(hb) {
            assert forall|i: int| 0 <= i < upper_hex(hb).len() implies is_hex_byte(#[trigger] upper_hex(hb)[i]) by {
                assert(is_hex_byte(hb[i]));
            }
        }
        if all_hex(upper_hex(hb)) {
            assert forall|i: int| 0 <= i < hb.len() implies is_hex_byte(#[trigger] hb[i]) by {
                assert(is_hex_byte(upper_hex(hb)[i]));
            }
        }
    }
    lemma_hex_value_upper(hb);
}

/// The value of one hex digit: `0`-`9` are 0-9, `a`-`f` and `A`-`F` are
/// 10-15; any other byte is no number.
pub proof fn lemma_parse_hex_digit(c: u8)
    ensures
        parse_hex(seq![c]) == if 48 <= c <= 57 {
            Some(c - 48)
        } else if 97 <= c <= 102 {
            Some(c - 97 + 10)
        } else if 65 <= c <= 70 {
            Some(c - 65 + 10)
        } else {
            None::<int>
        },
{
    let s = seq![c];
    if c == 43u8 {
        assert(hex_body(s).len() == 0);
    } else {
        assert(hex_body(s) == s);
    }
    assert(s.drop_last() =~= Seq::<u8>::empty());
    assert(hex_value(s) == hex_value(s.drop_last()) * 16 + hex_val(c));
}

/// A further digit shifts the number one hex place: `"1a"` is 16 * 1 + 10.
pub proof fn lemma_parse_hex_append(s: Seq<u8>, c: u8, v: int, d: int)
    requires
        s.len() > 0,
        s[0] != 43u8,
        parse_hex(s) == Some(v),
        parse_hex(seq![c]) == Some(d),
        v * 16 + d <= usize::MAX,
    ensures
        parse_hex(s.push(c)) == Some(v * 16 + d),
{
    lemma_parse_hex_digit(c);
    let t = s.push(c);
    assert(hex_body(t) =~= t);
    assert(hex_body(s) =~= s);
    assert(t.drop_last() =~= s);
    assert(all_hex(t)) by {
        assert forall|i: int| 0 <= i < t.len() implies is_hex_byte(#[trigger] t[i]) by {
            if i < s.len() {
                assert(t[i] == s[i]);
            }
        }
    }
    assert(seq![c].drop_last() =~= Seq::<u8>::empty());
}

/// As `usize::from_str_radix` reads it, one leading `+` may precede the
/// digits and changes nothing; an empty line, or a `+` alone, is no
/// number.
pub proof fn lemma_parse_hex_sign(s: Seq<u8>)
    ensures
        s.len() > 0 && s[0] != 43u8 ==> parse_hex(seq![43u8] + s) == parse_hex(s),
        parse_hex(Seq::<u8>::empty()) is None,
        parse_hex(seq![43u8]) is None,
{
    if s.len() > 0 && s[0] != 43u8 {
        assert((seq![43u8] + s).drop_first() =~= s);
        assert(hex_body(s) == s);
    }
    assert(seq![43u8].drop_first() =~= Seq::<u8>::empty());
}

/// Index of the first `\r\n` in `s`.
pub open spec fn crlf_at(s: Seq<u8>, i: int) -> bool {
    0 <= i && i + 1 < s.len() && s[i] == 13u8 && s[i + 1] == 10u8
}

pub open spec fn first_crlf(s: Seq<u8>) -> Option<int> {
    if exists|i: int| crlf_at(s, i) {
        Some(choose|i: int| crlf_at(s, i) && forall|j: int| 0 <= j < i ==> !crlf_at(s, j))
    } else {
        None
    }
}

/// Everything before the first `;` (chunk extensions are ignored).
pub open spec fn before_semicolon(s: Seq<u8>) -> Seq<u8> {
    if exists|i: int| 0 <= i < s.len() && s[i] == 59u8 {
        s.subrange(
            0,
            choose|i: int| 0 <= i < s.len() && s[i] == 59u8 && forall|j: int| 0 <= j < i ==> s[j] != 59u8,
        )
    } else {
        s
    }
}

/// The size line of a chunk that starts `rest` and ends at `k`: chunk
/// extensions after `;` dropped, surrounding whitespace trimmed.
pub open spec fn size_line(rest: Seq<u8>, k: int) -> Seq<u8> {
    trim_bytes_end(trim_bytes_start(before_semicolon(rest.subrange(0, k))))
}

/// Where the size line of the chunk starting `rest` ends, and the size it
/// gives.
#[verifier::opaque]
pub open spec fn chunk_header(rest: Seq<u8>) -> Option<(int, int)> {
    match first_crlf(rest) {
        None => None,
        Some(k) => match parse_hex(size_line(rest, k)) {
            None => None,
            Some(size) => Some((k, size)),
        },
    }
}

/// One chunk at the start of `rest`: its data and what follows it; `None`
/// at a missing size line, a size that does not parse, a zero size, or
/// data that runs short.
#[verifier::opaque]
pub open spec fn chunk_step(rest: Seq<u8>) -> Option<(Seq<u8>, Seq<u8>)> {
    match chunk_header(rest) {
        None => None,
        Some((k, size)) => {
            let tail = rest.subrange(k + 2, rest.len() as int);
            if size == 0 || tail.len() < size {
                None
            } else {
                let after = tail.subrange(size, tail.len() as int);
                Some(
                    (
                        tail.subrange(0, size),
                        if after.len() >= 2 && after[0] == 13u8 && after[1] == 10u8 {
                            after.subrange(2, after.len() as int)
                        } else {
                            seq![]
                        },
                    ),
                )
            }
        },
    }
}

/// The body of a chunked message: each chunk is a hex size line, then that
/// many bytes, then `\r\n`. Decoding stops (keeping what was read) at a
/// zero-size chunk, at a size line that does not parse, or when the data
/// runs short.
pub open spec fn dechunk_spec(rest: Seq<u8>) -> Seq<u8>
    decreases rest.len(),
{
    match chunk_step(rest) {
        None => seq![],
        Some((data, next)) => if next.len() < rest.len() {
            data + dechunk_spec(next)
        } else {
            data
        },
    }
}

proof fn lemma_first_crlf(s: Seq<u8>, i: int)
    requires
        crlf_at(s, i),
        forall|j: int| 0 <= j < i ==> !crlf_at(s, j),
    ensures
        first_crlf(s) == Some(i),
{
    let k = choose|k: int| crlf_at(s, k) && forall|j: int| 0 <= j < k ==> !crlf_at(s, j);
    assert(crlf_at(s, k) && forall|j: int| 0 <= j < k ==> !crlf_at(s, j));
    if k < i {
        assert(!crlf_at(s, k));
    }
    if i < k {
        assert(!crlf_at(s, i));
    }
}

/// A size line made of hex digits only (either case).
pub open spec fn hex_digits_only(h: Seq<u8>) -> bool {
    forall|i: int| 0 <= i < h.len() ==> is_hex_byte(#[trigger] h[i])
}

proof fn lemma_size_line_header(h: Seq<u8>, after: Seq<u8>)
    requires
        hex_digits_only(h),
        h.len() > 0,
    ensures
        chunk_header(h + seq![13u8, 10u8] + after) == match parse_hex(h) {
            Some(n) => Some((h.len() as int, n)),
            None => None::<(int, int)>,
        },
{
    reveal(chunk_header);
    let r = h + seq![13u8, 10u8] + after;
    let k = h.len() as int;
    assert(crlf_at(r, k));
    assert forall|j: int| 0 <= j < k implies !crlf_at(r, j) by {
        assert(r[j] == h[j]);
        assert(is_hex_byte(h[j]));
    }
    lemma_first_crlf(r, k);
    assert(r.subrange(0, k) =~= h);
    assert(before_semicolon(h) == h) by {
        if exists|i: int| 0 <= i < h.len() && h[i] == 59u8 {
            let i = choose|i: int| 0 <= i < h.len() && h[i] == 59u8;
            assert(is_hex_byte(h[i]));
        }
    }
    assert(is_hex_byte(h[0]));
    assert(is_hex_byte(h[h.len() - 1]));
    assert(ws_prefix_len(h) == 0);
    assert(trim_bytes_start(h) == h);
    assert(ws_suffix_len(h) == 0);
    assert(trim_bytes_end(h) == h);
}

/// A chunk whose size line gives the length of its data, read in either
/// case (`1a` or `1A` before 26 bytes), decodes to that data, and
/// decoding goes on after its closing `\r\n`.
pub proof fn lemma_dechunk_chunk(h: Seq<u8>, data: Seq<u8>, rest: Seq<u8>)
    requires
        hex_digits_only(h),
        h.len() > 0,
        parse_hex(h) == Some(data.len() as int),
        data.len() > 0,
    ensures
        dechunk_spec(h + seq![13u8, 10u8] + data + seq![13u8, 10u8] + rest) == data + dechunk_spec(rest),
        dechunk_spec(upper_hex(h) + seq![13u8, 10u8] + data + seq![13u8, 10u8] + rest) == data
            + dechunk_spec(rest),
{
    lemma_dechunk_chunk_one(h, data, rest);
    lemma_parse_hex_either_case(h);
    let u = upper_hex(h);
    assert(hex_digits_only(u)) by {
        assert forall|i: int| 0 <= i < u.len() implies is_hex_byte(#[trigger] u[i]) by {
            assert(is_hex_byte(h[i]));
        }
    }
    lemma_dechunk_chunk_one(u, data, rest);
}

proof fn lemma_dechunk_chunk_one(h: Seq<u8>, data: Seq<u8>, rest: Seq<u8>)
    requires
        hex_digits_only(h),
        h.len() > 0,
        parse_hex(h) == Some(data.len() as int),
        data.len() > 0,
    ensures
        dechunk_spec(h + seq![13u8, 10u8] + data + seq![13u8, 10u8] + rest) == data + dechunk_spec(rest),
{
    let after = data + seq![13u8, 10u8] + rest;
    let whole = h + seq![13u8, 10u8] + data + seq![13u8, 10u8] + rest;
    assert(whole =~= h + seq![13u8, 10u8] + after);
    lemma_size_line_header(h, after);
    reveal(chunk_step);
    let k = h.len() as int;
    let tail = whole.subrange(k + 2, whole.len() as int);
    assert(tail =~= after);
    let aft = tail.subrange(data.len() as int, tail.len() as int);
    assert(aft =~= seq![13u8, 10u8] + rest);
    assert(tail.subrange(0, data.len() as int) =~= data);
    assert(aft.subrange(2, aft.len() as int) =~= rest);
    assert(chunk_step(whole) == Some((data, rest)));
}

/// A size line that reads as zero (in any spelling, `0` or `00`) ends the
/// body: nothing after it is decoded.
pub proof fn lemma_dechunk_last_chunk(h: Seq<u8>, rest: Seq<u8>)
    requires
        hex_digits_only(h),
        h.len() > 0,
        parse_hex(h) == Some(0int),
    ensures
        dechunk_spec(h + seq![13u8, 10u8] + rest) == Seq::<u8>::empty(),
{
    lemma_size_line_header(h, rest);
    reveal(chunk_step);
}

/// First `\r\n` in `b[lo..]`, as an index into `b`.
fn find_crlf(b: &[u8], lo: usize) -> (r: Option<usize>)
    requires
        lo <= b.len(),
    ensures
        match r {
            Some(i) => lo <= i && i + 1 < b.len() && first_crlf(b@.subrange(lo as int, b.len() as int))
                == Some(i - lo),
            None => first_crlf(b@.subrange(lo as int, b.len() as int)) is None,
        },
{
    let ghost s = b@.subrange(lo as int, b.len() as int);
    let mut i = lo;
    while i < b.len() && b.len() - i > 1
        invariant
            lo <= i <= b.len(),
            s == b@.subrange(lo as int, b.len() as int),
            forall|j: int| 0 <= j < i - lo ==> !crlf_at(s, j),
        decreases b.len() - i,
    {
        if b[i] == 13u8 && b[i + 1] == 10u8 {
            proof {
                assert(crlf_at(s, i - lo));
                lemma_first_crlf(s, i - lo);
            }
            return Some(i);
        }
        assert(!crlf_at(s, i - lo));
        i += 1;
    }
    proof {
        assert forall|j: int| !crlf_at(s, j) by {
            if 0 <= j && j + 1 < s.len() {
                assert(j < i - lo);
            }
        }
    }
    None
}

/// End of `b[lo..hi]` before its first `;`.
fn semicolon_end(b: &[u8], lo: usize, hi: usize) -> (e: usize)
    requires
        lo <= hi <= b.len(),
    ensures
        lo <= e <= hi,
        b@.subrange(lo as int, e as int) == before_semicolon(b@.subrange(lo as int, hi as int)),
{
    let ghost s = b@.subrange(lo as int, hi as int);
    let mut i = lo;
    while i < hi
        invariant
            lo <= i <= hi <= b.len(),
            s == b@.subrange(lo as int, hi as int),
            forall|j: int| 0 <= j < i - lo ==> s[j] != 59u8,
        decreases hi - i,
    {
        if b[i] == 59u8 {
            proof {
                assert(s[i - lo] == 59u8);
                let k = choose|k: int|
                    0 <= k < s.len() && s[k] == 59u8 && forall|j: int| 0 <= j < k ==> s[j] != 59u8;
                if k < i - lo {
                    assert(s[k] != 59u8);
                }
                if i - lo < k {
                    assert(s[i - lo] != 59u8);
                }
                assert(s.subrange(0, i - lo) =~= b@.subrange(lo as int, i as int));
            }
            return i;
        }
        i += 1;
    }
    proof {
        assert(s =~= b@.subrange(lo as int, hi as int));
    }
    hi
}

fn ws3_at(a: u8, b: u8, c: u8) -> (r: bool)
    ensures
        r == is_ws3(a, b, c),
{
    (a == 0xe1u8 && b == 0x9au8 && c == 0x80u8) || (a == 0xe2u8 && b == 0x80u8 && ((0x80u8 <= c && c
        <= 0x8au8) || c == 0xa8u8 || c == 0xa9u8 || c == 0xafu8)) || (a == 0xe2u8 && b == 0x81u8 && c
        == 0x9fu8) || (a == 0xe3u8 && b == 0x80u8 && c == 0x80u8)
}

fn ws_prefix_at(b: &[u8], a: usize, hi: usize) -> (r: usize)
    requires
        a <= hi <= b.len(),
    ensures
        r == ws_prefix_len(b@.subrange(a as int, hi as int)),
{
    let ghost s = b@.subrange(a as int, hi as int);
    if hi - a >= 1 && ((9u8 <= b[a] && b[a] <= 13u8) || b[a] == 32u8) {
        assert(s[0] == b[a as int]);
        1
    } else if hi - a >= 2 && b[a] == 0xc2u8 && (b[a + 1] == 0x85u8 || b[a + 1] == 0xa0u8) {
        assert(s[0] == b[a as int] && s[1] == b[a + 1]);
        2
    } else if hi - a >= 3 && ws3_at(b[a], b[a + 1], b[a + 2]) {
        assert(s[0] == b[a as int] && s[1] == b[a + 1] && s[2] == b[a + 2]);
        3
    } else {
        proof {
            if s.len() >= 1 {
                assert(s[0] == b[a as int]);
            }
            if s.len() >= 2 {
                assert(s[1] == b[a + 1]);
            }
            if s.len() >= 3 {
                assert(s[2] == b[a + 2]);
            }
        }
        0
    }
}

fn ws_suffix_at(b: &[u8], a: usize, z: usize) -> (r: usize)
    requires
        a <= z <= b.len(),
    ensures
        r == ws_suffix_len(b@.subrange(a as int, z as int)),
{
    let ghost s = b@.subrange(a as int, z as int);
    let n = z - a;
    if n >= 1 && ((9u8 <= b[z - 1] && b[z - 1] <= 13u8) || b[z - 1] == 32u8) {
        assert(s[n - 1] == b[z - 1]);
        1
    } else if n >= 2 && b[z - 2] == 0xc2u8 && (b[z - 1] == 0x85u8 || b[z - 1] == 0xa0u8) {
        assert(s[n - 2] == b[z - 2] && s[n - 1] == b[z - 1]);
        2
    } else if n >= 3 && ws3_at(b[z - 3], b[z - 2], b[z - 1]) {
        assert(s[n - 3] == b[z - 3] && s[n - 2] == b[z - 2] && s[n - 1] == b[z - 1]);
        3
    } else {
        proof {
            if n >= 1 {
                assert(s[n - 1] == b[z - 1]);
            }
            if n >= 2 {
                assert(s[n - 2] == b[z - 2]);
            }
            if n >= 3 {
                assert(s[n - 3] == b[z - 3]);
            }
        }
        0
    }
}

fn trim_byte_bounds(b: &[u8], lo: usize, hi: usize) -> (r: (usize, usize))
    requires
        lo <= hi <= b.len(),
    ensures
        lo <= r.0 <= r.1 <= hi,
        b@.subrange(r.0 as int, r.1 as int) == trim_bytes_end(
            trim_bytes_start(b@.subrange(lo as int, hi as int)),
        ),
{
    let mut a = lo;
    loop
        invariant
            lo <= a <= hi <= b.len(),
            trim_bytes_start(b@.subrange(a as int, hi as int)) == trim_bytes_start(
                b@.subrange(lo as int, hi as int),
            ),
        ensures
            lo <= a <= hi,
            ws_prefix_len(b@.subrange(a as int, hi as int)) == 0,
            trim_bytes_start(b@.subrange(lo as int, hi as int)) == b@.subrange(a as int, hi as int),
        decreases hi - a,
    {
        let k = ws_prefix_at(b, a, hi);
        if k == 0 {
            break;
        }
        assert(b@.subrange(a as int, hi as int).subrange(k as int, (hi - a) as int) =~= b@.subrange(a + k, hi as int));
        a = a + k;
    }
    let mut z = hi;
    loop
        invariant
            lo <= a <= z <= hi <= b.len(),
            trim_bytes_end(b@.subrange(a as int, z as int)) == trim_bytes_end(
                b@.subrange(a as int, hi as int),
            ),
        ensures
            a <= z <= hi,
            trim_bytes_end(b@.subrange(a as int, hi as int)) == b@.subrange(a as int, z as int),
        decreases z - a,
    {
        let k = ws_suffix_at(b, a, z);
        if k == 0 {
            break;
        }
        assert(b@.subrange(a as int, z as int).subrange(0, (z - a - k) as int) =~= b@.subrange(a as int, z - k));
        z = z - k;
    }
    (a, z)
}

fn hex_digit_value(c: u8) -> (v: usize)
    requires
        is_hex_byte(c),
    ensures
        v == hex_val(c),
        v < 16,
{
    if 48u8 <= c && c <= 57u8 {
        (c - 48u8) as usize
    } else if 97u8 <= c && c <= 102u8 {
        (c - 87u8) as usize
    } else {
        (c - 55u8) as usize
    }
}

proof fn lemma_hex_value_nonneg(s: Seq<u8>)
    requires
        forall|i: int| 0 <= i < s.len() ==> is_hex_byte(#[trigger] s[i]),
    ensures
        hex_value(s) >= 0,
    decreases s.len(),
{
    if s.len() > 0 {
        lemma_hex_value_nonneg(s.drop_last());
    }
}

proof fn lemma_hex_value_mono(s: Seq<u8>, n: int)
    requires
        0 <= n <= s.len(),
        forall|i: int| 0 <= i < s.len() ==> is_hex_byte(#[trigger] s[i]),
    ensures
        hex_value(s.subrange(0, n)) <= hex_value(s),
    decreases s.len() - n,
{
    if n < s.len() {
        lemma_hex_value_mono(s, n + 1);
        assert(s.subrange(0, n + 1).drop_last() =~= s.subrange(0, n));
        lemma_hex_value_nonneg(s.subrange(0, n));
    } else {
        assert(s.subrange(0, n) =~= s);
    }
}

/// `usize::from_str_radix(b[lo..hi], 16)`.
fn parse_hex_at(b: &[u8], lo: usize, hi: usize) -> (r: Option<usize>)
    requires
        lo <= hi <= b.len(),
    ensures
        match parse_hex(b@.subrange(lo as int, hi as int)) {
            Some(n) => r == Some(n as usize),
            None => r is None,
        },
        r matches Some(x) ==> parse_hex(b@.subrange(lo as int, hi as int)) == Some(x as int),
{
    let ghost s = b@.subrange(lo as int, hi as int);
    let ghost hb = hex_body(s);
    let start = if lo < hi && b[lo] == 43u8 {
        lo + 1
    } else {
        lo
    };
    let ghost body = b@.subrange(start as int, hi as int);
    proof {
        assert(s.len() == hi - lo);
        if lo < hi {
            assert(s[0] == b@[lo as int]);
        }
        if lo < hi && b@[lo as int] == 43u8 {
            assert(s.drop_first() =~= body);
        } else {
            assert(s =~= body);
        }
        assert(hb == body);
    }
    if start == hi {
        return None;
    }
    let mut k = start;
    while k < hi
        invariant
            start <= k <= hi <= b.len(),
            body == b@.subrange(start as int, hi as int),
            hb == body,
            hb == hex_body(b@.subrange(lo as int, hi as int)),
            forall|i: int| 0 <= i < k - start ==> is_hex_byte(#[trigger] body[i]),
        decreases hi - k,
    {
        assert(body[k - start] == b@[k as int]);
        if !((48u8 <= b[k] && b[k] <= 57u8) || (97u8 <= b[k] && b[k] <= 102u8) || (65u8 <= b[k]
            && b[k] <= 70u8)) {
            proof {
                assert(!is_hex_byte(body[k - start]));
                assert(!all_hex(hb));
            }
            return None;
        }
        k += 1;
    }
    let mut acc: usize = 0;
    let mut i = start;
    while i < hi
        invariant
            start <= i <= hi <= b.len(),
            body == b@.subrange(start as int, hi as int),
            hb == body,
            hb == hex_body(b@.subrange(lo as int, hi as int)),
            all_hex(body),
            acc == hex_value(body.subrange(0, i - start)),
        decreases hi - i,
    {
        assert(body.subrange(0, i - start + 1).drop_last() =~= body.subrange(0, i - start));
        assert(body[i - start] == b@[i as int]);
        let d = hex_digit_value(b[i]);
        proof {
            lemma_hex_value_nonneg(body.subrange(0, i - start));
        }
        if acc > (usize::MAX - d) / 16 {
            proof {
                lemma_hex_value_mono(body, i - start + 1);
                assert(hex_value(body.subrange(0, i - start + 1)) == acc * 16 + d);
                assert(acc * 16 + d > usize::MAX) by (nonlinear_arith)
                    requires
                        acc > (usize::MAX - d) / 16,
                        d < 16,
                ;
                assert(hex_value(hb) > usize::MAX);
            }
            return None;
        }
        assert(acc * 16 + d <= usize::MAX) by (nonlinear_arith)
            requires
                acc <= (usize::MAX - d) / 16,
                d < 16,
        ;
        acc = acc * 16 + d;
        i += 1;
    }
    assert(body.subrange(0, hi - start) =~= body);
    Some(acc)
}

#[verifier::spinoff_prover]
#[verifier::rlimit(40)]
fn chunk_header_at(body: &[u8], pos: usize) -> (r: Option<(usize, usize)>)
    requires
        pos <= body.len(),
    ensures
        match chunk_header(body@.subrange(pos as int, body.len() as int)) {
            None => r is None,
            Some((k, size)) => (r matches Some((k2, size2)) && k2 == pos + k && size2 == size && pos
                <= k2 && k2 + 1 < body.len()),
        },
{
    let n = body.len();
    let ghost rest = body@.subrange(pos as int, n as int);
    proof {
        reveal(chunk_header);
    }
    let k = match find_crlf(body, pos) {
        Some(k) => k,
        None => return None,
    };
    let e = semicolon_end(body, pos, k);
    let (a, z) = trim_byte_bounds(body, pos, e);
    proof {
        assert(rest.subrange(0, k - pos) =~= body@.subrange(pos as int, k as int));
        assert(size_line(rest, k - pos) == body@.subrange(a as int, z as int));
    }
    match parse_hex_at(body, a, z) {
        Some(size) => Some((k, size)),
        None => None,
    }
}

/// The chunk at `body[pos..]`: start and size of its data, and where
/// decoding resumes.
fn chunk_at(body: &[u8], pos: usize) -> (r: Option<(usize, usize, usize)>)
    requires
        pos <= body.len(),
    ensures
        match chunk_step(body@.subrange(pos as int, body.len() as int)) {
            None => r is None,
            Some((data, next)) => (r matches Some((d, size, nx)) && d + size <= body.len() && pos
                < nx <= body.len() && data == body@.subrange(d as int, d + size) && next
                == body@.subrange(nx as int, body.len() as int)),
        },
{
    let n = body.len();
    let ghost rest = body@.subrange(pos as int, n as int);
    proof {
        reveal(chunk_step);
    }
    let (k, size) = match chunk_header_at(body, pos) {
        Some(h) => h,
        None => return None,
    };
    proof {
        assert(rest.subrange(k - pos + 2, rest.len() as int) =~= body@.subrange(k + 2, n as int));
    }
    let data = k + 2;
    if size == 0 || n - data < size {
        return None;
    }
    let after = data + size;
    let next = if n - after >= 2 && body[after] == 13u8 && body[after + 1] == 10u8 {
        after + 2
    } else {
        n
    };
    proof {
        let tail = rest.subrange(k - pos + 2, rest.len() as int);
        assert(tail.subrange(0, size as int) =~= body@.subrange(data as int, after as int));
        let aft = tail.subrange(size as int, tail.len() as int);
        assert(aft =~= body@.subrange(after as int, n as int));
        if next == after + 2 {
            assert(aft.subrange(2, aft.len() as int) =~= body@.subrange(next as int, n as int));
        } else {
            assert(body@.subrange(n as int, n as int) =~= Seq::<u8>::empty());
        }
    }
    Some((data, size, next))
}

/// Decodes a body sent with `Transfer-Encoding: chunked`.
#[verifier::rlimit(60)]
pub fn dechunk(body: &[u8]) -> (out: Vec<u8>)
    ensures
        out@ == dechunk_spec(body@),
{
    let mut out: Vec<u8> = Vec::new();
    let mut pos: usize = 0;
    let n = body.len();
    assert(body@.subrange(0, n as int) =~= body@);
    loop
        invariant
            pos <= n == body.len(),
            out@ + dechunk_spec(body@.subrange(pos as int, n as int)) == dechunk_spec(body@),
        decreases n - pos,
    {
        let ghost rest = body@.subrange(pos as int, n as int);
        match chunk_at(body, pos) {
            None => {
                assert(out@ + dechunk_spec(rest) =~= out@);
                return out;
            },
            Some((data, size, next)) => {
                let ghost before = out@;
                let mut j = data;
                while j < data + size
                    invariant
                        data <= j <= data + size <= n == body.len(),
                        out@ == before + body@.subrange(data as int, j as int),
                    decreases data + size - j,
                {
                    out.push(body[j]);
                    assert(out@ =~= before + body@.subrange(data as int, j + 1));
                    j += 1;
                }
                proof {
                    assert(out@ + dechunk_spec(body@.subrange(next as int, n as int)) =~= before
                        + dechunk_spec(rest));
                }
                pos = next;
            },
        }
    }
}

// ---- The response ----------------------------------------------------------------

/// Index of the first occurrence of `needle` in `s`.
pub open spec fn first_occurrence(s: Seq<char>, needle: Seq<char>) -> Option<int> {
    if exists|i: int| crate::text::occurs_at(s, needle, i) {
        Some(
            choose|i: int|
                crate::text::occurs_at(s, needle, i) && forall|j: int|
                    0 <= j < i ==> !crate::text::occurs_at(s, needle, j),
        )
    } else {
        None
    }
}

/// Headers and body of a response: split at the first blank line.
pub open spec fn response_parts(raw: Seq<char>) -> Option<(Seq<char>, Seq<char>)> {
    match first_occurrence(raw, "\r\n\r\n"@) {
        Some(i) => Some((raw.subrange(0, i), raw.subrange(i + 4, raw.len() as int))),
        None => None,
    }
}

/// Splits a response into headers and body.
pub fn split_response(raw: &str) -> (r: Result<(String, String), NetworkError>)
    ensures
        match response_parts(raw@) {
            Some((h, b)) => (r matches Ok(p) && p.0@ == h && p.1@ == b),
            None => other_err(r, "malformed HTTP response fetching PAC"@),
        },
{
    let v = chars_of(raw);
    let sep = chars_of("\r\n\r\n");
    proof {
        reveal_strlit("\r\n\r\n");
    }
    let mut i: usize = 0;
    while i < v.len()
        invariant
            i <= v.len(),
            v@ == raw@,
            sep@ == "\r\n\r\n"@,
            sep.len() == 4,
            forall|j: int| 0 <= j < i ==> !crate::text::occurs_at(v@, sep@, j),
        decreases v.len() - i,
    {
        if crate::text::occurs_at_exec(&v, &sep, i) {
            proof {
                let k = choose|k: int|
                    crate::text::occurs_at(v@, sep@, k) && forall|j: int|
                        0 <= j < k ==> !crate::text::occurs_at(v@, sep@, j);
                assert(crate::text::occurs_at(v@, sep@, i as int));
                if k < i {
                    assert(!crate::text::occurs_at(v@, sep@, k));
                }
                if i < k {
                    assert(!crate::text::occurs_at(v@, sep@, i as int));
                }
            }
            return Ok((string_of(&v, 0, i), string_of(&v, i + 4, v.len())));
        }
        i += 1;
    }
    proof {
        assert forall|j: int| !crate::text::occurs_at(v@, sep@, j) by {
            if 0 <= j < v.len() {
                assert(!crate::text::occurs_at(v@, sep@, j));
            }
        }
    }
    Err(NetworkError::Other(String::from_str("malformed HTTP response fetching PAC")))
}

/// The first line of the headers (empty if there is none).
pub open spec fn status_line(headers: Seq<char>) -> Seq<char> {
    if lines(headers).len() > 0 {
        lines(headers)[0]
    } else {
        seq![]
    }
}

/// The second space-separated field of the status line (the status code),
/// as `splitn(3, ' ').nth(1)` finds it.
pub open spec fn status_code(line: Seq<char>) -> Option<Seq<char>> {
    match split_once(line, ' ') {
        None => None,
        Some((_, rest)) => match split_once(rest, ' ') {
            Some((code, _)) => Some(code),
            None => Some(rest),
        },
    }
}

fn split_once_str(s: &str, c: char) -> (r: Option<(String, String)>)
    ensures
        match split_once(s@, c) {
            Some((a, b)) => (r matches Some(p) && p.0@ == a && p.1@ == b),
            None => r is None,
        },
{
    let v = chars_of(s);
    assert(v@.subrange(0, v.len() as int) =~= v@);
    match split_once_at(&v, 0, v.len(), c) {
        Some(i) => Some((string_of(&v, 0, i), string_of(&v, i + 1, v.len()))),
        None => None,
    }
}

/// Accepts only a `200` status.
pub fn check_status(headers: &str) -> (r: Result<(), NetworkError>)
    ensures
        status_code(status_line(headers@)) == Some("200"@) ==> r is Ok,
        status_code(status_line(headers@)) != Some("200"@) ==> other_err(
            r,
            "PAC server returned: "@ + status_line(headers@),
        ),
{
    let ls = lines_of(headers);
    let line = if ls.len() > 0 {
        ls[0].clone()
    } else {
        String::new()
    };
    proof {
        assert(views(ls@).len() == ls.len());
        if ls.len() > 0 {
            assert(views(ls@)[0] == ls@[0]@);
        }
    }
    let ok = match split_once_str(line.as_str(), ' ') {
        None => false,
        Some((_, rest)) => match split_once_str(rest.as_str(), ' ') {
            Some((code, _)) => str_eq(code.as_str(), "200"),
            None => str_eq(rest.as_str(), "200"),
        },
    };
    if ok {
        Ok(())
    } else {
        Err(NetworkError::Other(join2("PAC server returned: ", line.as_str())))
    }
}

/// Whether the body uses the chunked transfer coding.
pub fn is_chunked(headers: &str) -> (r: bool)
    ensures
        r == contains_seq(to_lower(headers@), "transfer-encoding: chunked"@),
{
    let l = crate::text::lower_string(headers);
    crate::text::contains_str(l.as_str(), "transfer-encoding: chunked")
}

/// Rejects a body over the size limit.
pub fn check_size(len: usize) -> (r: Result<(), NetworkError>)
    ensures
        len <= MAX_PAC_SIZE ==> r is Ok,
        len > MAX_PAC_SIZE ==> other_err(r, "PAC file exceeds size limit"@),
{
    if len > MAX_PAC_SIZE {
        Err(NetworkError::Other(String::from_str("PAC file exceeds size limit")))
    } else {
        Ok(())
    }
}

/// The body of the PAC file in a server's response `raw` (headers, a blank
/// line, then the body), or why there is none.
pub open spec fn pac_body(raw: Seq<char>) -> Result<Seq<u8>, Seq<char>> {
    match response_parts(raw) {
        None => Err("malformed HTTP response fetching PAC"@),
        Some((h, b)) => {
            let body = if contains_seq(to_lower(h), "transfer-encoding: chunked"@) {
                dechunk_spec(encode_utf8(b))
            } else {
                encode_utf8(b)
            };
            if status_code(status_line(h)) != Some("200"@) {
                Err("PAC server returned: "@ + status_line(h))
            } else if body.len() > MAX_PAC_SIZE {
                Err("PAC file exceeds size limit"@)
            } else {
                Ok(body)
            }
        },
    }
}

/// Reads the PAC file out of the server's whole response: the status must
/// be `200`, a chunked body is decoded, and the result must fit the size
/// limit.
pub fn response_body(raw: &str) -> (r: Result<Vec<u8>, NetworkError>)
    ensures
        match pac_body(raw@) {
            Ok(body) => r matches Ok(v) && v@ == body,
            Err(msg) => other_err(r, msg),
        },
{
    let (headers, body) = match split_response(raw) {
        Ok(p) => p,
        Err(e) => return Err(e),
    };
    match check_status(headers.as_str()) {
        Ok(()) => {},
        Err(e) => return Err(e),
    }
    let bytes = body.as_str().as_bytes();
    let out = if is_chunked(headers.as_str()) {
        dechunk(bytes)
    } else {
        vstd::slice::slice_to_vec(bytes)
    };
    match check_size(out.len()) {
        Ok(()) => Ok(out),
        Err(e) => Err(e),
    }
}

} // verus!
