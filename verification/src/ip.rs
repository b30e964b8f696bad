//! IP addresses, routes and neighbor entries as read from the kernel, and
//! their canonical text forms.

use crate::text::{decimal, push_char, u64_to_string};
use vstd::prelude::*;

verus! {

#[derive(Debug, Clone, Copy, PartialEq, Eq, Structural)]
pub enum Family {
    V4,
    V6,
}

/// An IPv4 address (four octets) or an IPv6 address (eight 16-bit groups).
#[derive(Debug, Clone, Copy)]
pub enum IpAddress {
    V4([u8; 4]),
    V6([u16; 8]),
}

/// Neighbor-cache entry states (NUD states).
#[derive(Debug, Clone, Copy, PartialEq, Eq, Structural)]
pub enum NeighborState {
    Incomplete,
    Reachable,
    Stale,
    Delay,
    Probe,
    Failed,
    Noarp,
    Permanent,
}

/// One routing-table entry. `destination` is `None` for the default route.
#[derive(Debug, Clone, Copy)]
pub struct Route {
    pub destination: Option<(IpAddress, u8)>,
    pub gateway: Option<IpAddress>,
    pub oif_index: i32,
    pub metric: Option<u32>,
}

/// One neighbor-cache entry.
#[derive(Debug, Clone, Copy)]
pub struct Neighbor {
    pub ip: IpAddress,
    pub mac: Option<[u8; 6]>,
    pub ifindex: i32,
    pub state: NeighborState,
}

// ---- Text forms ------------------------------------------------------------

/// Lowercase hexadecimal digit for `d` in `0..16`.
pub open spec fn hex_digit(d: int) -> char {
    if d < 10 {
        ((d + 48) as u32) as char
    } else {
        ((d + 87) as u32) as char
    }
}

/// Lowercase hexadecimal rendering without leading zeros (`{:x}`).
pub open spec fn hex_text(n: nat) -> Seq<char>
    decreases n,
{
    if n < 16 {
        seq![hex_digit(n as int)]
    } else {
        hex_text(n / 16).push(hex_digit((n % 16) as int))
    }
}

/// Dotted-quad rendering of four octets.
pub open spec fn v4_text(a: u8, b: u8, c: u8, d: u8) -> Seq<char> {
    decimal(a as nat) + seq!['.'] + decimal(b as nat) + seq!['.'] + decimal(c as nat) + seq!['.']
        + decimal(d as nat)
}

/// Number of consecutive zero groups of `s` starting at `i`.
pub open spec fn zero_run(s: Seq<u16>, i: int) -> nat
    decreases s.len() - i,
{
    if i < 0 || i >= s.len() || s[i] != 0 {
        0
    } else {
        1 + zero_run(s, i + 1)
    }
}

/// `i` starts the run of zero groups that the canonical IPv6 form
/// compresses to `::`: the longest run of at least two zero groups, the
/// leftmost one among equally long runs.
pub open spec fn is_best_run(s: Seq<u16>, i: int) -> bool {
    &&& 0 <= i < s.len()
    &&& zero_run(s, i) >= 2
    &&& forall|j: int| 0 <= j < s.len() ==> #[trigger] zero_run(s, j) <= zero_run(s, i)
    &&& forall|j: int| 0 <= j < i ==> #[trigger] zero_run(s, j) < zero_run(s, i)
}

/// Groups in hex, separated by `:`.
pub open spec fn groups_text(s: Seq<u16>) -> Seq<char>
    decreases s.len(),
{
    if s.len() == 0 {
        seq![]
    } else if s.len() == 1 {
        hex_text(s[0] as nat)
    } else {
        groups_text(s.drop_last()) + seq![':'] + hex_text(s.last() as nat)
    }
}

/// Whether the eight groups are an IPv4-mapped address (`::ffff:a.b.c.d`).
pub open spec fn is_v4_mapped(s: Seq<u16>) -> bool {
    s[0] == 0 && s[1] == 0 && s[2] == 0 && s[3] == 0 && s[4] == 0 && s[5] == 0xffff
}

/// Canonical (RFC 5952) text of an IPv6 address, as `Display` writes it.
pub open spec fn v6_text(s: Seq<u16>) -> Seq<char> {
    if is_v4_mapped(s) {
        seq![':', ':', 'f', 'f', 'f', 'f', ':'] + v4_text(
            (s[6] / 256) as u8,
            (s[6] % 256) as u8,
            (s[7] / 256) as u8,
            (s[7] % 256) as u8,
        )
    } else if exists|i: int| is_best_run(s, i) {
        let i = choose|i: int| is_best_run(s, i);
        groups_text(s.subrange(0, i)) + seq![':', ':'] + groups_text(
            s.subrange(i + zero_run(s, i), s.len() as int),
        )
    } else {
        groups_text(s)
    }
}

impl IpAddress {
    /// The address's text form.
    pub open spec fn text(self) -> Seq<char> {
        match self {
            IpAddress::V4(o) => v4_text(o[0], o[1], o[2], o[3]),
            IpAddress::V6(g) => v6_text(g@),
        }
    }
}

/// Two lowercase hex digits for a byte (`{:02x}`).
pub open spec fn hex_pair(b: u8) -> Seq<char> {
    seq![hex_digit((b / 16) as int), hex_digit((b % 16) as int)]
}

/// `aa:bb:cc:dd:ee:ff`, two lowercase hex digits per byte.
pub open spec fn mac_text(m: Seq<u8>) -> Seq<char> {
    hex_pair(m[0]) + seq![':'] + hex_pair(m[1]) + seq![':'] + hex_pair(m[2]) + seq![':']
        + hex_pair(m[3]) + seq![':'] + hex_pair(m[4]) + seq![':'] + hex_pair(m[5])
}

fn hex_digit_exec(d: u64) -> (c: char)
    requires
        d < 16,
    ensures
        c == hex_digit(d as int),
{
    if d < 10 {
        ((d as u8) + 48u8) as char
    } else {
        ((d as u8) + 87u8) as char
    }
}

/// `format!("{:x}", n)`.
pub fn hex_string(n: u64) -> (s: String)
    ensures
        s@ == hex_text(n as nat),
    decreases n,
{
    if n < 16 {
        let mut s = String::new();
        push_char(&mut s, hex_digit_exec(n));
        assert(s@ =~= seq![hex_digit(n as int)]);
        s
    } else {
        let mut s = hex_string(n / 16);
        push_char(&mut s, hex_digit_exec(n % 16));
        s
    }
}

/// Dotted-quad text of four octets.
pub fn v4_string(a: u8, b: u8, c: u8, d: u8) -> (s: String)
    ensures
        s@ == v4_text(a, b, c, d),
{
    let mut s = u64_to_string(a as u64);
    push_char(&mut s, '.');
    let t = u64_to_string(b as u64);
    s.append(t.as_str());
    push_char(&mut s, '.');
    let t = u64_to_string(c as u64);
    s.append(t.as_str());
    push_char(&mut s, '.');
    let t = u64_to_string(d as u64);
    s.append(t.as_str());
    assert(s@ =~= v4_text(a, b, c, d));
    s
}

/// Groups `g[lo..hi]` in hex, separated by `:`.
fn groups_string(g: &[u16; 8], lo: usize, hi: usize) -> (s: String)
    requires
        lo <= hi <= 8,
    ensures
        s@ == groups_text(g@.subrange(lo as int, hi as int)),
{
    let mut s = String::new();
    let mut k = lo;
    while k < hi
        invariant
            lo <= k <= hi <= 8,
            g@.len() == 8,
            s@ == groups_text(g@.subrange(lo as int, k as int)),
        decreases hi - k,
    {
        let ghost before = g@.subrange(lo as int, k as int);
        if k > lo {
            push_char(&mut s, ':');
        }
        let h = hex_string(g[k] as u64);
        s.append(h.as_str());
        k += 1;
        proof {
            let now = g@.subrange(lo as int, k as int);
            assert(now.drop_last() =~= before);
            if k - 1 == lo {
                assert(before.len() == 0);
                assert(s@ =~= hex_text(now[0] as nat));
            } else {
                assert(s@ =~= groups_text(before) + seq![':'] + hex_text(now.last() as nat));
            }
        }
    }
    s
}

proof fn lemma_best_run_unique(s: Seq<u16>, i: int, j: int)
    requires
        is_best_run(s, i),
        is_best_run(s, j),
    ensures
        i == j,
{
    if i < j {
        assert(zero_run(s, i) < zero_run(s, j));
        assert(zero_run(s, i) >= zero_run(s, j));
    } else if j < i {
        assert(zero_run(s, j) < zero_run(s, i));
        assert(zero_run(s, j) >= zero_run(s, i));
    }
}

proof fn lemma_zero_run_bound(s: Seq<u16>, i: int)
    requires
        0 <= i <= s.len(),
    ensures
        i + zero_run(s, i) <= s.len(),
    decreases s.len() - i,
{
    if i < s.len() && s[i] == 0 {
        lemma_zero_run_bound(s, i + 1);
    }
}

/// The canonical text of an IPv6 address.
pub fn v6_string(g: &[u16; 8]) -> (s: String)
    ensures
        s@ == v6_text(g@),
{
    if g[0] == 0 && g[1] == 0 && g[2] == 0 && g[3] == 0 && g[4] == 0 && g[5] == 0xffff {
        let mut s = String::new();
        push_char(&mut s, ':');
        push_char(&mut s, ':');
        push_char(&mut s, 'f');
        push_char(&mut s, 'f');
        push_char(&mut s, 'f');
        push_char(&mut s, 'f');
        push_char(&mut s, ':');
        let t = v4_string(
            (g[6] / 256) as u8,
            (g[6] % 256) as u8,
            (g[7] / 256) as u8,
            (g[7] % 256) as u8,
        );
        s.append(t.as_str());
        return s;
    }
    // Lengths of the zero runs starting at each group.
    let mut runs: [u64; 8] = [0; 8];
    let mut i: usize = 8;
    while i > 0
        invariant
            i <= 8,
            g@.len() == 8,
            runs@.len() == 8,
            forall|j: int| i <= j < 8 ==> runs@[j] == zero_run(g@, j),
            forall|j: int| i <= j < 8 ==> runs@[j] <= 8 - j,
        decreases i,
    {
        i -= 1;
        if g[i] == 0 {
            let next: u64 = if i + 1 < 8 {
                runs[i + 1]
            } else {
                0
            };
            runs[i] = next + 1;
        } else {
            runs[i] = 0;
        }
        assert(zero_run(g@, (i + 1) as int) == if i + 1 < 8 {
            runs@[i + 1] as nat
        } else {
            0nat
        });
    }
    let mut best: usize = 0;
    let mut best_len: u64 = 0;
    let mut k: usize = 0;
    while k < 8
        invariant
            k <= 8,
            best < 8,
            g@.len() == 8,
            runs@.len() == 8,
            forall|j: int| 0 <= j < 8 ==> runs@[j] == zero_run(g@, j),
            forall|j: int| 0 <= j < k ==> zero_run(g@, j) <= best_len,
            best_len > 0 ==> runs@[best as int] == best_len,
            best_len > 0 ==> forall|j: int| 0 <= j < best ==> zero_run(g@, j) < best_len,
            best_len > 0 ==> best < k,
        decreases 8 - k,
    {
        if runs[k] > best_len {
            best = k;
            best_len = runs[k];
        }
        k += 1;
    }
    if best_len >= 2 {
        assert(is_best_run(g@, best as int));
        proof {
            lemma_zero_run_bound(g@, best as int);
            assert forall|j: int| is_best_run(g@, j) implies j == best by {
                lemma_best_run_unique(g@, j, best as int);
            }
        }
        let head = groups_string(g, 0, best);
        let tail = groups_string(g, best + best_len as usize, 8);
        let mut s = head;
        push_char(&mut s, ':');
        push_char(&mut s, ':');
        s.append(tail.as_str());
        assert(s@ =~= v6_text(g@));
        s
    } else {
        assert forall|j: int| !is_best_run(g@, j) by {
            if 0 <= j < 8 {
                assert(zero_run(g@, j) <= best_len);
            }
        }
        let s = groups_string(g, 0, 8);
        assert(g@.subrange(0, 8) =~= g@);
        s
    }
}

impl IpAddress {
    /// `to_string()`: dotted quad for IPv4, canonical compressed form for
    /// IPv6.
    pub fn to_text(&self) -> (s: String)
        ensures
            s@ == self.text(),
    {
        match self {
            IpAddress::V4(o) => v4_string(o[0], o[1], o[2], o[3]),
            IpAddress::V6(g) => v6_string(g),
        }
    }
}

fn push_hex_byte(s: &mut String, b: u8)
    ensures
        final(s)@ == old(s)@ + hex_pair(b),
{
    push_char(s, hex_digit_exec((b / 16) as u64));
    push_char(s, hex_digit_exec((b % 16) as u64));
    assert(s@ =~= old(s)@ + hex_pair(b));
}

/// A MAC address as `aa:bb:cc:dd:ee:ff`.
pub fn format_mac(m: &[u8; 6]) -> (s: String)
    ensures
        s@ == mac_text(m@),
{
    let mut s = String::new();
    push_hex_byte(&mut s, m[0]);
    push_char(&mut s, ':');
    push_hex_byte(&mut s, m[1]);
    push_char(&mut s, ':');
    push_hex_byte(&mut s, m[2]);
    push_char(&mut s, ':');
    push_hex_byte(&mut s, m[3]);
    push_char(&mut s, ':');
    push_hex_byte(&mut s, m[4]);
    push_char(&mut s, ':');
    push_hex_byte(&mut s, m[5]);
    assert(s@ =~= mac_text(m@));
    s
}

} // verus!
