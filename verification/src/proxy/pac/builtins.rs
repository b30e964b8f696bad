//! The pure parts of the standard PAC helper functions: shell-glob
//! matching, subnet tests, host-name predicates and the UTC calendar
//! arithmetic behind `weekdayRange`/`dateRange`/`timeRange`.

use crate::text::{
    chars_of, contains_char, decimal, ends_with, lower_char, lower_string, parse_unsigned,
    starts_with, str_eq, to_lower,
};
use vstd::prelude::*;
use vstd::string::StringSliceAdditionalSpecFns;

verus! {

// ---- shExpMatch ----------------------------------------------------------------

/// Shell-style glob matching on bytes: `*` matches any run of bytes, `?`
/// any single byte, every other byte itself.
pub open spec fn glob(s: Seq<u8>, p: Seq<u8>) -> bool
    decreases p.len(), s.len(),
{
    if p.len() > 0 && p[0] == 42u8 {
        glob(s, p.drop_first()) || (s.len() > 0 && glob(s.drop_first(), p))
    } else if s.len() > 0 && p.len() > 0 && (p[0] == 63u8 || s[0] == p[0]) {
        glob(s.drop_first(), p.drop_first())
    } else {
        s.len() == 0 && p.len() == 0
    }
}

/// `*` alone matches every string.
pub proof fn lemma_star_matches_everything(s: Seq<u8>)
    ensures
        glob(s, seq![42u8]),
    decreases s.len(),
{
    let star = seq![42u8];
    assert(star.drop_first() =~= Seq::<u8>::empty());
    assert(star.len() > 0 && star[0] == 42u8);
    if s.len() > 0 {
        lemma_star_matches_everything(s.drop_first());
        assert(glob(s.drop_first(), star));
    } else {
        assert(glob(s, Seq::<u8>::empty()));
    }
}

/// A pattern without wildcards matches exactly itself.
pub proof fn lemma_literal_pattern(s: Seq<u8>, p: Seq<u8>)
    requires
        forall|i: int| 0 <= i < p.len() ==> p[i] != 42u8 && p[i] != 63u8,
    ensures
        glob(s, p) == (s == p),
    decreases p.len(), s.len(),
{
    if s.len() > 0 && p.len() > 0 {
        let (s1, p1) = (s.drop_first(), p.drop_first());
        assert(p[0] != 42u8 && p[0] != 63u8);
        assert forall|i: int| 0 <= i < p1.len() implies p1[i] != 42u8 && p1[i] != 63u8 by {
            assert(p1[i] == p[i + 1]);
        }
        lemma_literal_pattern(s1, p1);
        assert(glob(s, p) == (s[0] == p[0] && glob(s1, p1)));
        if s[0] == p[0] && s1 == p1 {
            assert forall|i: int| 0 <= i < s.len() implies s[i] == p[i] by {
                if i > 0 {
                    assert(s[i] == s1[i - 1]);
                    assert(p[i] == p1[i - 1]);
                }
            }
            assert(s =~= p);
        }
        if s == p {
            assert(s1 =~= p1);
        }
    } else if p.len() > 0 {
        assert(p[0] != 42u8);
        assert(!glob(s, p));
        assert(s.len() != p.len());
    } else if s.len() > 0 {
        assert(s.len() != p.len());
    } else {
        assert(s =~= p);
    }
}

/// Matches `s[i..]` against `p[j..]`.
fn glob_at(s: &[u8], i: usize, p: &[u8], j: usize) -> (r: bool)
    requires
        i <= s.len(),
        j <= p.len(),
    ensures
        r == glob(s@.subrange(i as int, s.len() as int), p@.subrange(j as int, p.len() as int)),
    decreases p.len() - j, s.len() - i,
{
    let ghost ss = s@.subrange(i as int, s.len() as int);
    let ghost pp = p@.subrange(j as int, p.len() as int);
    proof {
        if ss.len() > 0 {
            assert(ss.drop_first() =~= s@.subrange(i + 1, s.len() as int));
        }
        if pp.len() > 0 {
            assert(pp.drop_first() =~= p@.subrange(j + 1, p.len() as int));
        }
    }
    if j < p.len() && p[j] == 42u8 {
        if glob_at(s, i, p, j + 1) {
            return true;
        }
        i < s.len() && glob_at(s, i + 1, p, j)
    } else if i < s.len() && j < p.len() && (p[j] == 63u8 || s[i] == p[j]) {
        glob_at(s, i + 1, p, j + 1)
    } else {
        i == s.len() && j == p.len()
    }
}

/// `shExpMatch(str, pattern)`: whether `s` matches the shell-style pattern.
pub fn sh_exp_match(s: &str, pattern: &str) -> (r: bool)
    ensures
        r == glob(s.spec_bytes(), pattern.spec_bytes()),
{
    let sb = s.as_bytes();
    let pb = pattern.as_bytes();
    proof {
        assert(sb@.subrange(0, sb@.len() as int) =~= sb@);
        assert(pb@.subrange(0, pb@.len() as int) =~= pb@);
    }
    glob_at(sb, 0, pb, 0)
}

// ---- isInNet ------------------------------------------------------------------

/// One octet of a dotted quad as `Ipv4Addr::from_str` reads it: one to
/// three decimal digits, no leading zero, at most 255.
pub open spec fn octet(s: Seq<char>) -> Option<int> {
    if 1 <= s.len() <= 3 && !(s.len() > 1 && s[0] == '0') && s[0] != '+' {
        match parse_unsigned(s, 255) {
            Some(n) => Some(n),
            None => None,
        }
    } else {
        None
    }
}

/// A dotted-quad IPv4 address as a 32-bit number.
pub open spec fn ipv4_value(s: Seq<char>) -> Option<u32> {
    let parts = crate::text::split_char(s, '.');
    if parts.len() == 4 && octet(parts[0]) is Some && octet(parts[1]) is Some && octet(
        parts[2],
    ) is Some && octet(parts[3]) is Some {
        Some(
            (octet(parts[0])->0 * 16777216 + octet(parts[1])->0 * 65536 + octet(parts[2])->0 * 256
                + octet(parts[3])->0) as u32,
        )
    } else {
        None
    }
}

fn parse_octet(p: &String) -> (r: Option<u32>)
    ensures
        match octet(p@) {
            Some(n) => r == Some(n as u32),
            None => r is None,
        },
        r matches Some(n) ==> n <= 255 && octet(p@) == Some(n as int),
{
    let v = chars_of(p.as_str());
    if v.len() < 1 || v.len() > 3 || (v.len() > 1 && v[0] == '0') || v[0] == '+' {
        return None;
    }
    assert(v@.subrange(0, v.len() as int) =~= v@);
    match crate::text::parse_unsigned_at(&v, 0, v.len(), 255) {
        Some(n) => Some(n as u32),
        None => None,
    }
}

/// Parses a dotted-quad IPv4 address.
pub fn parse_ipv4(s: &str) -> (r: Option<u32>)
    ensures
        r == ipv4_value(s@),
{
    let parts = crate::text::split_on(s, '.');
    proof {
        assert(crate::text::views(parts@).len() == parts.len());
    }
    if parts.len() != 4 {
        return None;
    }
    proof {
        assert(parts@[0]@ == crate::text::split_char(s@, '.')[0]);
        assert(parts@[1]@ == crate::text::split_char(s@, '.')[1]);
        assert(parts@[2]@ == crate::text::split_char(s@, '.')[2]);
        assert(parts@[3]@ == crate::text::split_char(s@, '.')[3]);
    }
    let a = match parse_octet(&parts[0]) {
        Some(n) => n,
        None => return None,
    };
    let b = match parse_octet(&parts[1]) {
        Some(n) => n,
        None => return None,
    };
    let c = match parse_octet(&parts[2]) {
        Some(n) => n,
        None => return None,
    };
    let d = match parse_octet(&parts[3]) {
        Some(n) => n,
        None => return None,
    };
    assert(a * 16777216 + b * 65536 + c * 256 + d <= 0xffff_ffff) by (nonlinear_arith)
        requires
            a <= 255,
            b <= 255,
            c <= 255,
            d <= 255,
    ;
    proof {
        let ps = crate::text::split_char(s@, '.');
        assert(ps.len() == 4);
        assert(octet(ps[0]) == Some(a as int));
        assert(octet(ps[1]) == Some(b as int));
        assert(octet(ps[2]) == Some(c as int));
        assert(octet(ps[3]) == Some(d as int));
    }
    Some(a * 16777216 + b * 65536 + c * 256 + d)
}

/// `isInNet` once the host is an address: `ip` and `pattern` agree on the
/// bits of `mask`; false when any of the three is not a dotted quad.
pub fn is_in_net(ip: &str, pattern: &str, mask: &str) -> (r: bool)
    ensures
        r == (ipv4_value(ip@) is Some && ipv4_value(pattern@) is Some && ipv4_value(mask@) is Some
            && (ipv4_value(ip@)->0 & ipv4_value(mask@)->0) == (ipv4_value(pattern@)->0
            & ipv4_value(mask@)->0)),
{
    match (parse_ipv4(ip), parse_ipv4(pattern), parse_ipv4(mask)) {
        (Some(i), Some(p), Some(m)) => (i & m) == (p & m),
        _ => false,
    }
}

// ---- Host-name predicates --------------------------------------------------------

/// `isPlainHostName(host)`: no dot in it.
pub fn is_plain_host_name(host: &str) -> (r: bool)
    ensures
        r == !host@.contains('.'),
{
    !contains_char(host, '.')
}

/// `dnsDomainIs(host, domain)`, compared case-insensitively (ASCII).
pub fn dns_domain_is(host: &str, domain: &str) -> (r: bool)
    ensures
        r == ends_with(to_lower(host@), to_lower(domain@)),
{
    let h = lower_string(host);
    let d = lower_string(domain);
    crate::text::ends_with_str(h.as_str(), d.as_str())
}

/// `localHostOrDomainIs(host, hostdom)`: equal, or `host` is unqualified
/// and `hostdom` is `host` plus a domain (ASCII case-insensitive).
pub fn local_host_or_domain_is(host: &str, hostdom: &str) -> (r: bool)
    ensures
        r == (to_lower(host@) == to_lower(hostdom@) || (!host@.contains('.') && starts_with(
            to_lower(hostdom@),
            to_lower(host@).push('.'),
        ))),
{
    let h = lower_string(host);
    let d = lower_string(hostdom);
    if str_eq(h.as_str(), d.as_str()) {
        return true;
    }
    let mut prefix = h.clone();
    crate::text::push_char(&mut prefix, '.');
    let plain = !contains_char(h.as_str(), '.');
    proof {
        assert(forall|i: int| 0 <= i < host@.len() ==> (#[trigger] to_lower(host@)[i] == '.'
            <==> host@[i] == '.'));
        if host@.contains('.') {
            let i = choose|i: int| 0 <= i < host@.len() && host@[i] == '.';
            assert(h@[i] == '.');
        }
        if h@.contains('.') {
            let i = choose|i: int| 0 <= i < h@.len() && h@[i] == '.';
            assert(host@[i] == '.');
        }
    }
    plain && crate::text::starts_with_str(d.as_str(), prefix.as_str())
}

/// Number of `c` in `s`.
pub open spec fn count_char(s: Seq<char>, c: char) -> nat
    decreases s.len(),
{
    if s.len() == 0 {
        0
    } else {
        count_char(s.drop_last(), c) + if s.last() == c {
            1nat
        } else {
            0nat
        }
    }
}

/// `dnsDomainLevels(host)`: the number of dots.
pub fn dns_domain_levels(host: &str) -> (n: usize)
    ensures
        n == count_char(host@, '.'),
{
    let v = chars_of(host);
    let mut n: usize = 0;
    let mut i: usize = 0;
    while i < v.len()
        invariant
            i <= v.len(),
            v@ == host@,
            n == count_char(v@.subrange(0, i as int), '.'),
            n <= i,
        decreases v.len() - i,
    {
        assert(v@.subrange(0, i + 1).drop_last() =~= v@.subrange(0, i as int));
        if v[i] == '.' {
            n += 1;
        }
        i += 1;
    }
    assert(v@.subrange(0, v.len() as int) =~= v@);
    n
}

// ---- Calendar ---------------------------------------------------------------------

/// Whole days and seconds into the day of a Unix time (floor division, so
/// times before 1970 fall on the right day).
pub fn days_and_secs(unix_secs: i64) -> (r: (i64, u32))
    ensures
        r.0 == unix_secs / 86400,
        r.1 == unix_secs % 86400,
{
    let q = unix_secs / 86400;
    let m = unix_secs % 86400;
    if m < 0 {
        (q - 1, (m + 86400) as u32)
    } else {
        (q, m as u32)
    }
}

/// Proleptic-Gregorian (year, month, day) of the day `z` days after
/// 1970-01-01, following Howard Hinnant's `civil_from_days`.
pub open spec fn civil(z: int) -> (int, int, int) {
    let z = z + 719468;
    // Floor division: eras of 400 years (146097 days) from 0000-03-01.
    let era = z / 146097;
    let doe = z - era * 146097;
    let yoe = (doe - doe / 1460 + doe / 36524 - doe / 146096) / 365;
    let y = yoe + era * 400;
    let doy = doe - (365 * yoe + yoe / 4 - yoe / 100);
    let mp = (5 * doy + 2) / 153;
    let d = doy - (153 * mp + 2) / 5 + 1;
    let m = if mp < 10 {
        mp + 3
    } else {
        mp - 9
    };
    (if m <= 2 {
        y + 1
    } else {
        y
    }, m, d)
}

proof fn lemma_floor_div(zz: int, q: int)
    requires
        zz < 0,
        q == -((-zz + 146096) / 146097),
    ensures
        q == zz / 146097,
{
    let n = -zz + 146096;
    assert(n >= 146097);
    let k = n / 146097;
    let r = n % 146097;
    assert(n == k * 146097 + r && 0 <= r < 146097) by {
        vstd::arithmetic::div_mod::lemma_fundamental_div_mod(n, 146097);
    }
    // zz = -n + 146096 = -k*146097 + (146096 - r), with 0 <= 146096 - r < 146097.
    assert(zz == (-k) * 146097 + (146096 - r)) by (nonlinear_arith)
        requires
            n == k * 146097 + r,
            n == -zz + 146096,
    ;
    vstd::arithmetic::div_mod::lemma_fundamental_div_mod_converse(zz, 146097, -k, 146096 - r);
}

/// `civil_from_days`: days since 1970-01-01 to (year, month, day).
#[verifier::rlimit(40)]
pub fn civil_from_days(z: i64) -> (r: (i64, u32, u32))
    requires
        -0x1000_0000_0000_0000 <= z <= 0x1000_0000_0000_0000,
    ensures
        (r.0 as int, r.1 as int, r.2 as int) == civil(z as int),
{
    let zz: i64 = z + 719468;
    let era: i64 = if zz >= 0 {
        zz / 146097
    } else {
        -((-zz + 146096) / 146097)
    };
    proof {
        if zz < 0 {
            lemma_floor_div(zz as int, era as int);
        }
        vstd::arithmetic::div_mod::lemma_fundamental_div_mod(zz as int, 146097);
    }
    let doe: u64 = (zz - era * 146097) as u64;
    assert(doe < 146097);
    let yoe: u64 = (doe - doe / 1460 + doe / 36524 - doe / 146096) / 365;
    assert(yoe < 400);
    let y: i64 = yoe as i64 + era * 400;
    let doy: u64 = doe - (365 * yoe + yoe / 4 - yoe / 100);
    assert(doy <= 365) by {
        assert(doe - doe / 1460 + doe / 36524 - doe / 146096 < 365 * yoe + 365);
    }
    let mp: u64 = (5 * doy + 2) / 153;
    assert(mp <= 11);
    let d: u32 = (doy - (153 * mp + 2) / 5 + 1) as u32;
    let m: u32 = if mp < 10 {
        (mp + 3) as u32
    } else {
        (mp - 9) as u32
    };
    let y: i64 = if m <= 2 {
        y + 1
    } else {
        y
    };
    (y, m, d)
}

/// Day of the week of the day `z` days after 1970-01-01 (a Thursday), with
/// Sunday as 0.
pub open spec fn weekday(z: int) -> int {
    ((z % 7) + 4) % 7
}

pub fn weekday_from_days(z: i64) -> (w: u32)
    ensures
        w == weekday(z as int),
        w < 7,
{
    let r = z % 7;
    let r = if r < 0 {
        r + 7
    } else {
        r
    };
    proof {
        vstd::arithmetic::div_mod::lemma_fundamental_div_mod(z as int, 7);
    }
    ((r + 4) % 7) as u32
}

/// `x` lies in the range from `a` to `b`, wrapping around when `a > b`
/// (`FRI`..`MON`, hour 22..2); with no `b`, `x` equals `a`.
pub open spec fn in_range(x: int, a: int, b: Option<int>) -> bool {
    match b {
        None => x == a,
        Some(b) => if a <= b {
            a <= x <= b
        } else {
            x >= a || x <= b
        },
    }
}

/// The comparison behind `weekdayRange`, `dateRange` and `timeRange`.
pub fn range_match(x: u32, a: u32, b: Option<u32>) -> (r: bool)
    ensures
        r == in_range(
            x as int,
            a as int,
            match b {
                Some(v) => Some(v as int),
                None => None,
            },
        ),
{
    match b {
        None => x == a,
        Some(b) => if a <= b {
            x >= a && x <= b
        } else {
            x >= a || x <= b
        },
    }
}

/// Index of a weekday name (`SUN` = 0 .. `SAT` = 6), any ASCII case.
pub open spec fn weekday_index_spec(name: Seq<char>) -> Option<int> {
    let u = crate::text::to_upper(name);
    if u == "SUN"@ {
        Some(0)
    } else if u == "MON"@ {
        Some(1)
    } else if u == "TUE"@ {
        Some(2)
    } else if u == "WED"@ {
        Some(3)
    } else if u == "THU"@ {
        Some(4)
    } else if u == "FRI"@ {
        Some(5)
    } else if u == "SAT"@ {
        Some(6)
    } else {
        None
    }
}

pub fn weekday_index(name: &str) -> (r: Option<u32>)
    ensures
        match weekday_index_spec(name@) {
            Some(i) => r == Some(i as u32),
            None => r is None,
        },
{
    let u = crate::text::upper_string(name);
    let names: [&str; 7] = ["SUN", "MON", "TUE", "WED", "THU", "FRI", "SAT"];
    if str_eq(u.as_str(), "SUN") {
        Some(0)
    } else if str_eq(u.as_str(), "MON") {
        Some(1)
    } else if str_eq(u.as_str(), "TUE") {
        Some(2)
    } else if str_eq(u.as_str(), "WED") {
        Some(3)
    } else if str_eq(u.as_str(), "THU") {
        Some(4)
    } else if str_eq(u.as_str(), "FRI") {
        Some(5)
    } else if str_eq(u.as_str(), "SAT") {
        Some(6)
    } else {
        None
    }
}

} // verus!
