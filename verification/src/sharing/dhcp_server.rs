//! The DHCPv4 server behind a hotspot or shared connection: the lease
//! table, what each DISCOVER/REQUEST is answered with, and the options of
//! a reply. Addresses are IPv4 addresses as 32-bit numbers.

use vstd::prelude::*;

verus! {

pub const MSG_DISCOVER: u8 = 1;
pub const MSG_OFFER: u8 = 2;
pub const MSG_REQUEST: u8 = 3;
pub const MSG_ACK: u8 = 5;
pub const MSG_NAK: u8 = 6;

pub const OPT_SUBNET_MASK: u8 = 1;
pub const OPT_ROUTER: u8 = 3;
pub const OPT_DNS: u8 = 6;
pub const OPT_REQUESTED_IP: u8 = 50;
pub const OPT_LEASE_TIME: u8 = 51;
pub const OPT_MSG_TYPE: u8 = 53;
pub const OPT_SERVER_ID: u8 = 54;

#[derive(Debug, Clone)]
pub struct DhcpServerConfig {
    pub interface: String,
    pub server_ip: u32,
    pub pool_start: u32,
    pub pool_end: u32,
    pub prefixlen: u8,
    pub lease_time_secs: u32,
    pub dns_servers: Vec<u32>,
}

/// MAC address (as a 48-bit number) to leased address, and where the
/// search for a free address resumes.
pub struct LeaseTable {
    by_mac: Vec<(u64, u32)>,
    next_candidate: u32,
}

/// Whether `addr` is leased to anyone in `t`.
pub open spec fn taken(t: Seq<(u64, u32)>, addr: int) -> bool {
    exists|i: int| 0 <= i < t.len() && #[trigger] t[i].1 == addr
}

/// The `k`-th address tried for a new lease: the pool is walked round
/// from `next`.
pub open spec fn candidate(start: u32, end: u32, next: u32, k: int) -> int {
    start + (next - start + k) % (end - start + 1)
}

impl LeaseTable {
    /// The leases, by MAC address.
    pub closed spec fn leases(self) -> Map<u64, u32> {
        Map::new(
            |m: u64| exists|i: int| 0 <= i < self.by_mac.len() && #[trigger] self.by_mac@[i].0 == m,
            |m: u64| {
                let i = choose|i: int| 0 <= i < self.by_mac.len() && #[trigger] self.by_mac@[i].0 == m;
                self.by_mac@[i].1
            },
        )
    }

    /// Whether some MAC address holds the lease on `a`.
    pub open spec fn leased(self, a: int) -> bool {
        exists|m: u64| #[trigger] self.leases().dom().contains(m) && self.leases()[m] == a
    }

    pub closed spec fn entries(self) -> Seq<(u64, u32)> {
        self.by_mac@
    }

    pub closed spec fn next(self) -> u32 {
        self.next_candidate
    }

    /// No MAC address appears twice, and no address is leased twice.
    pub closed spec fn wf(self) -> bool {
        &&& forall|i: int, j: int|
            0 <= i < j < self.by_mac.len() ==> #[trigger] self.by_mac@[i].0 != #[trigger] self.by_mac@[j].0
        &&& forall|i: int, j: int|
            0 <= i < j < self.by_mac.len() ==> #[trigger] self.by_mac@[i].1 != #[trigger] self.by_mac@[j].1
    }

    /// An empty table whose search starts at `pool_start`.
    pub fn new(pool_start: u32) -> (t: LeaseTable)
        ensures
            t.wf(),
            t.leases() == Map::<u64, u32>::empty(),
            t.next() == pool_start,
    {
        let t = LeaseTable { by_mac: Vec::new(), next_candidate: pool_start };
        assert(t.leases() =~= Map::<u64, u32>::empty());
        t
    }

    fn find(&self, mac: &u64) -> (r: Option<usize>)
        ensures
            match r {
                Some(i) => i < self.by_mac.len() && self.by_mac@[i as int].0 == *mac,
                None => forall|i: int| 0 <= i < self.by_mac.len() ==> self.by_mac@[i].0 != *mac,
            },
    {
        let mut i: usize = 0;
        while i < self.by_mac.len()
            invariant
                i <= self.by_mac.len(),
                forall|j: int| 0 <= j < i ==> self.by_mac@[j].0 != *mac,
            decreases self.by_mac.len() - i,
        {
            if self.by_mac[i].0 == *mac {
                return Some(i);
            }
            i += 1;
        }
        None
    }

    fn is_taken(&self, addr: u32) -> (b: bool)
        ensures
            b == taken(self.by_mac@, addr as int),
    {
        let mut i: usize = 0;
        while i < self.by_mac.len()
            invariant
                i <= self.by_mac.len(),
                forall|j: int| 0 <= j < i ==> self.by_mac@[j].1 != addr,
            decreases self.by_mac.len() - i,
        {
            if self.by_mac[i].1 == addr {
                return true;
            }
            i += 1;
        }
        false
    }

    proof fn lemma_lookup(self, i: int)
        requires
            self.wf(),
            0 <= i < self.by_mac.len(),
        ensures
            self.leases().dom().contains(self.by_mac@[i].0),
            self.leases()[self.by_mac@[i].0] == self.by_mac@[i].1,
    {
        let m = self.by_mac@[i].0;
        let j = choose|j: int| 0 <= j < self.by_mac.len() && #[trigger] self.by_mac@[j].0 == m;
        if j != i {
            if j < i {
                assert(self.by_mac@[j].0 != self.by_mac@[i].0);
            } else {
                assert(self.by_mac@[i].0 != self.by_mac@[j].0);
            }
        }
    }

    /// An address is taken in the table's entries exactly when some MAC
    /// address holds its lease.
    pub proof fn lemma_taken_iff_leased(self, a: int)
        requires
            self.wf(),
        ensures
            taken(self.entries(), a) <==> self.leased(a),
    {
        if taken(self.entries(), a) {
            let i = choose|i: int| 0 <= i < self.by_mac@.len() && #[trigger] self.by_mac@[i].1 == a;
            self.lemma_lookup(i);
            assert(self.leases().dom().contains(self.by_mac@[i].0));
        }
        if self.leased(a) {
            let m = choose|m: u64| #[trigger] self.leases().dom().contains(m) && self.leases()[m] == a;
            let j = choose|j: int| 0 <= j < self.by_mac.len() && #[trigger] self.by_mac@[j].0 == m;
            self.lemma_lookup(j);
            assert(self.by_mac@[j].1 == a);
        }
    }

    /// Walking round the pool from `next` meets every address of it.
    pub proof fn lemma_candidate_covers(start: u32, end: u32, next: u32, a: int)
        requires
            start <= end,
            start <= next,
            start <= a <= end,
        ensures
            exists|k: int| 0 <= k <= end - start && #[trigger] candidate(start, end, next, k) == a,
    {
        let size: int = end - start + 1;
        let x: int = next - start;
        let y: int = a - next;
        let k: int = y % size;
        vstd::arithmetic::div_mod::lemma_mod_bound(y, size);
        vstd::arithmetic::div_mod::lemma_add_mod_noop(x, y, size);
        vstd::arithmetic::div_mod::lemma_add_mod_noop(x, k, size);
        vstd::arithmetic::div_mod::lemma_mod_twice(y, size);
        vstd::arithmetic::div_mod::lemma_small_mod((a - start) as nat, size as nat);
        assert(candidate(start, end, next, k) == a);
    }

    /// The address for `mac` from the pool `[start, end]`: the one it
    /// already has, else the first free address walking round the pool
    /// from where the last search stopped; `None` when the pool is
    /// misconfigured (`end < start`) or every address in it is taken.
    pub fn allocate(&mut self, mac: u64, start: u32, end: u32) -> (r: Option<u32>)
        requires
            old(self).wf(),
            start <= old(self).next(),
            end < u32::MAX,
        ensures
            final(self).wf(),
            start <= final(self).next(),
            old(self).leases().dom().contains(mac) ==> r == Some(old(self).leases()[mac])
                && final(self).leases() == old(self).leases() && final(self).next() == old(self).next(),
            !old(self).leases().dom().contains(mac) && end < start ==> r is None && final(self).leases()
                == old(self).leases() && final(self).next() == old(self).next(),
            !old(self).leases().dom().contains(mac) && start <= end ==> match r {
                Some(a) => exists|k: int|
                    0 <= k <= end - start && a == candidate(start, end, old(self).next(), k)
                        && !taken(old(self).entries(), a as int) && (forall|j: int|
                        0 <= j < k ==> taken(old(self).entries(), #[trigger] candidate(start, end, old(self).next(), j)))
                        && final(self).leases() == old(self).leases().insert(mac, a)
                        && final(self).next() == a + 1,
                None => (forall|j: int|
                    0 <= j <= end - start ==> taken(old(self).entries(), #[trigger] candidate(start, end, old(self).next(), j)))
                    && final(self).leases() == old(self).leases()
                    && final(self).next() == candidate(start, end, old(self).next(), end - start) + 1,
            },
            !old(self).leases().dom().contains(mac) && start <= end ==> match r {
                Some(a) => start <= a <= end && !old(self).leased(a as int),
                None => forall|a: int| start <= a <= end ==> #[trigger] old(self).leased(a),
            },
    {
        let ghost orig = *self;
        match self.find(&mac) {
            Some(i) => {
                proof {
                    self.lemma_lookup(i as int);
                }
                return Some(self.by_mac[i].1);
            },
            None => {},
        }
        proof {
            assert(!self.leases().dom().contains(mac));
            assert forall|i: int| 0 <= i < self.by_mac.len() implies self.by_mac@[i].0 != mac by {
                if self.by_mac@[i].0 == mac {
                    assert(self.leases().dom().contains(mac));
                }
            }
        }
        if end < start {
            return None;
        }
        let size: u32 = end - start + 1;
        let ghost next0 = self.next_candidate;
        let mut k: u32 = 0;
        while k < size
            invariant
                self.wf(),
                self.by_mac@ == old(self).by_mac@,
                start <= end < u32::MAX,
                size == end - start + 1,
                start <= next0,
                k <= size,
                k == 0 ==> self.next_candidate == next0,
                k > 0 ==> self.next_candidate == candidate(start, end, next0, k - 1) + 1,
                start <= self.next_candidate,
                forall|j: int| 0 <= j < k ==> taken(self.by_mac@, #[trigger] candidate(start, end, next0, j)),
                forall|i: int| 0 <= i < self.by_mac.len() ==> self.by_mac@[i].0 != mac,
                next0 == old(self).next(),
                orig == *old(self),
            decreases size - k,
        {
            let off = (self.next_candidate - start) % size;
            let cand = start + off;
            proof {
                if k > 0 {
                    let prev = candidate(start, end, next0, k - 1);
                    assert((prev + 1 - start) % (size as int) == (next0 - start + k) % (size as int)) by {
                        let a = next0 - start + k - 1;
                        vstd::arithmetic::div_mod::lemma_add_mod_noop(a, 1, size as int);
                        vstd::arithmetic::div_mod::lemma_mod_twice(a, size as int);
                        vstd::arithmetic::div_mod::lemma_small_mod(1nat, size as nat);
                        if size == 1 {
                            assert(a % 1 == 0);
                            assert((a + 1) % 1 == 0);
                        }
                    }
                }
                assert(cand == candidate(start, end, next0, k as int));
            }
            self.next_candidate = cand + 1;
            if !self.is_taken(cand) {
                let ghost before = self.by_mac@;
                let ghost old_leases = self.leases();
                assert(forall|i: int, j: int| 0 <= i < j < before.len() ==> #[trigger] before[i].0 != #[trigger] before[j].0);
                assert(forall|i: int, j: int| 0 <= i < j < before.len() ==> #[trigger] before[i].1 != #[trigger] before[j].1);
                assert forall|m: u64| #[trigger] old_leases.dom().contains(m) implies m != mac by {
                    let i = choose|i: int| 0 <= i < before.len() && #[trigger] before[i].0 == m;
                }
                self.by_mac.push((mac, cand));
                proof {
                    assert forall|i: int, j: int|
                        0 <= i < j < self.by_mac.len() implies #[trigger] self.by_mac@[i].0 != #[trigger] self.by_mac@[j].0 by {
                        assert(self.by_mac@[i] == before[i]);
                        if j == before.len() {
                            if before[i].0 == mac {
                                assert(old_leases.dom().contains(before[i].0));
                            }
                        } else {
                            assert(self.by_mac@[j] == before[j]);
                        }
                    }
                    assert forall|i: int, j: int|
                        0 <= i < j < self.by_mac.len() implies #[trigger] self.by_mac@[i].1 != #[trigger] self.by_mac@[j].1 by {
                        assert(self.by_mac@[i] == before[i]);
                        if j == before.len() {
                            assert(!taken(before, cand as int));
                            assert(before[i].1 != cand);
                        } else {
                            assert(self.by_mac@[j] == before[j]);
                        }
                    }
                    assert(self.leases() =~= old_leases.insert(mac, cand)) by {
                        assert forall|m: u64| #[trigger] self.leases().dom().contains(m) <==> old_leases.insert(mac, cand).dom().contains(m) by {
                            if self.leases().dom().contains(m) {
                                let j = choose|j: int| 0 <= j < self.by_mac.len() && #[trigger] self.by_mac@[j].0 == m;
                                if j < before.len() {
                                    assert(before[j].0 == m);
                                }
                            }
                            if old_leases.dom().contains(m) && m != mac {
                                let j = choose|j: int| 0 <= j < before.len() && #[trigger] before[j].0 == m;
                                assert(self.by_mac@[j].0 == m);
                            }
                            if m == mac {
                                assert(self.by_mac@[before.len() as int].0 == m);
                            }
                        }
                        assert forall|m: u64| #[trigger] self.leases().dom().contains(m) implies self.leases()[m] == old_leases.insert(mac, cand)[m] by {
                            let j = choose|j: int| 0 <= j < self.by_mac.len() && #[trigger] self.by_mac@[j].0 == m;
                            if m == mac {
                                if j < before.len() {
                                    assert(before[j].0 == mac);
                                    assert(old_leases.dom().contains(mac));
                                }
                            } else {
                                let j2 = choose|j2: int| 0 <= j2 < before.len() && #[trigger] before[j2].0 == m;
                                assert(self.by_mac@[j2] == before[j2]);
                                assert(self.by_mac@[j2].0 == m);
                                if j < before.len() {
                                    assert(self.by_mac@[j] == before[j]);
                                    if j != j2 {
                                        if j < j2 {
                                            assert(before[j].0 != before[j2].0);
                                        } else {
                                            assert(before[j2].0 != before[j].0);
                                        }
                                    }
                                }
                            }
                        }
                    }
                }
                proof {
                    assert(cand == candidate(start, end, old(self).next(), k as int) && !taken(old(self).entries(), cand as int)
                        && (forall|j: int| 0 <= j < k ==> taken(old(self).entries(), #[trigger] candidate(start, end, old(self).next(), j)))
                        && self.leases() == old(self).leases().insert(mac, cand) && self.next() == cand + 1);
                    orig.lemma_taken_iff_leased(cand as int);
                    vstd::arithmetic::div_mod::lemma_mod_bound(next0 - start + k, size as int);
                }
                return Some(cand);
            }
            k += 1;
        }
        proof {
            assert forall|a: int| start <= a <= end implies #[trigger] orig.leased(a) by {
                Self::lemma_candidate_covers(start, end, next0, a);
                let j = choose|j: int| 0 <= j <= end - start && #[trigger] candidate(start, end, next0, j) == a;
                assert(taken(orig.entries(), candidate(start, end, next0, j)));
                orig.lemma_taken_iff_leased(a);
            }
        }
        None
    }

    /// Whether `mac` holds the lease on `addr`.
    pub fn holds(&self, mac: &u64, addr: u32) -> (b: bool)
        requires
            self.wf(),
        ensures
            b == (self.leases().dom().contains(*mac) && self.leases()[*mac] == addr),
    {
        match self.find(mac) {
            Some(i) => {
                proof {
                    self.lemma_lookup(i as int);
                }
                self.by_mac[i].1 == addr
            },
            None => false,
        }
    }
}

/// `/prefixlen` as a netmask.
pub open spec fn subnet_mask_spec(prefixlen: u8) -> u32 {
    if prefixlen == 0 {
        0
    } else {
        (0xffff_ffffu32 << ((32 - prefixlen) as u32)) as u32
    }
}

pub fn subnet_mask(prefixlen: u8) -> (m: u32)
    requires
        prefixlen <= 32,
    ensures
        m == subnet_mask_spec(prefixlen),
{
    if prefixlen == 0 {
        0
    } else {
        0xffff_ffffu32 << ((32 - prefixlen) as u32)
    }
}

/// The four bytes of an address, most significant first.
pub open spec fn octets(a: u32) -> Seq<u8> {
    seq![(a / 16777216) as u8, ((a / 65536) % 256) as u8, ((a / 256) % 256) as u8, (a % 256) as u8]
}

pub fn octets_exec(a: u32) -> (b: Vec<u8>)
    ensures
        b@ == octets(a),
{
    let mut b = Vec::new();
    b.push((a / 16777216) as u8);
    b.push(((a / 65536) % 256) as u8);
    b.push(((a / 256) % 256) as u8);
    b.push((a % 256) as u8);
    assert(b@ =~= octets(a));
    b
}

/// The addresses' bytes, one after the other.
pub open spec fn all_octets(v: Seq<u32>) -> Seq<u8>
    decreases v.len(),
{
    if v.len() == 0 {
        seq![]
    } else {
        all_octets(v.drop_last()) + octets(v.last())
    }
}

pub open spec fn option_views(v: Seq<(u8, Vec<u8>)>) -> Seq<(u8, Seq<u8>)> {
    v.map_values(|o: (u8, Vec<u8>)| (o.0, o.1@))
}

/// The options of a reply of type `msg_type`: the message type and server
/// id; then, except in a NAK, the netmask, the router (this server), the
/// lease time and, if any are configured, the DNS servers.
pub open spec fn reply_options_spec(cfg: DhcpServerConfig, msg_type: u8) -> Seq<(u8, Seq<u8>)> {
    seq![(OPT_MSG_TYPE, seq![msg_type]), (OPT_SERVER_ID, octets(cfg.server_ip))] + if msg_type == MSG_NAK {
        seq![]
    } else {
        seq![
            (OPT_SUBNET_MASK, octets(subnet_mask_spec(cfg.prefixlen))),
            (OPT_ROUTER, octets(cfg.server_ip)),
            (OPT_LEASE_TIME, octets(cfg.lease_time_secs)),
        ] + if cfg.dns_servers.len() > 0 {
            seq![(OPT_DNS, all_octets(cfg.dns_servers@))]
        } else {
            seq![]
        }
    }
}

pub fn reply_options(cfg: &DhcpServerConfig, msg_type: u8) -> (opts: Vec<(u8, Vec<u8>)>)
    requires
        cfg.prefixlen <= 32,
    ensures
        option_views(opts@) == reply_options_spec(*cfg, msg_type),
{
    let mut opts: Vec<(u8, Vec<u8>)> = Vec::new();
    let mut t = Vec::new();
    t.push(msg_type);
    opts.push((OPT_MSG_TYPE, t));
    opts.push((OPT_SERVER_ID, octets_exec(cfg.server_ip)));
    if msg_type != MSG_NAK {
        opts.push((OPT_SUBNET_MASK, octets_exec(subnet_mask(cfg.prefixlen))));
        opts.push((OPT_ROUTER, octets_exec(cfg.server_ip)));
        opts.push((OPT_LEASE_TIME, octets_exec(cfg.lease_time_secs)));
        if cfg.dns_servers.len() > 0 {
            let mut dns: Vec<u8> = Vec::new();
            let mut i: usize = 0;
            while i < cfg.dns_servers.len()
                invariant
                    i <= cfg.dns_servers.len(),
                    dns@ == all_octets(cfg.dns_servers@.subrange(0, i as int)),
                decreases cfg.dns_servers.len() - i,
            {
                let mut o = octets_exec(cfg.dns_servers[i]);
                let ghost before = dns@;
                dns.append(&mut o);
                assert(cfg.dns_servers@.subrange(0, i + 1).drop_last() =~= cfg.dns_servers@.subrange(0, i as int));
                i += 1;
            }
            assert(cfg.dns_servers@.subrange(0, cfg.dns_servers.len() as int) =~= cfg.dns_servers@);
            opts.push((OPT_DNS, dns));
        }
    }
    assert(option_views(opts@) =~= reply_options_spec(*cfg, msg_type));
    opts
}

/// The address a REQUEST asks for: its requested-address option, else
/// its `ciaddr`.
pub open spec fn requested_addr(opt: Option<u32>, ciaddr: u32) -> u32 {
    match opt {
        Some(a) => a,
        None => ciaddr,
    }
}

/// ACK with the address when it is the client's lease, else NAK.
pub open spec fn request_answer(leases: Map<u64, u32>, mac: u64, req: u32) -> (u8, u32) {
    if leases.dom().contains(mac) && leases[mac] == req {
        (MSG_ACK, req)
    } else {
        (MSG_NAK, 0)
    }
}

/// A MAC address as a 48-bit number, first byte most significant.
pub open spec fn mac_key_spec(m: [u8; 6]) -> u64 {
    (m[0] * 0x100_0000_0000 + m[1] * 0x1_0000_0000 + m[2] * 0x100_0000 + m[3] * 0x1_0000 + m[4]
        * 0x100 + m[5]) as u64
}

pub fn mac_key(m: [u8; 6]) -> (k: u64)
    ensures
        k == mac_key_spec(m),
{
    (m[0] as u64) * 0x100_0000_0000 + (m[1] as u64) * 0x1_0000_0000 + (m[2] as u64) * 0x100_0000
        + (m[3] as u64) * 0x1_0000 + (m[4] as u64) * 0x100 + (m[5] as u64)
}

/// What a client message is answered with: the reply type and the
/// address it carries (0 in a NAK).
pub struct Answer {
    pub msg_type: u8,
    pub yiaddr: u32,
}

impl LeaseTable {
    /// The answer to a DISCOVER (an OFFER of the client's address, if one
    /// can be allocated) or a REQUEST (an ACK when the requested address,
    /// from the request's option or else its `ciaddr`, is the client's
    /// lease, otherwise a NAK); other messages get no answer.
    pub fn answer(
        &mut self,
        msg_type: u8,
        chaddr: u64,
        requested_option: Option<u32>,
        ciaddr: u32,
        cfg: &DhcpServerConfig,
    ) -> (r: Option<Answer>)
        requires
            old(self).wf(),
            cfg.pool_start <= old(self).next(),
            cfg.pool_end < u32::MAX,
        ensures
            final(self).wf(),
            cfg.pool_start <= final(self).next(),
            msg_type == MSG_REQUEST ==> final(self).leases() == old(self).leases(),
            msg_type == MSG_REQUEST ==> (r matches Some(ans) && (ans.msg_type, ans.yiaddr)
                == request_answer(old(self).leases(), chaddr, requested_addr(requested_option, ciaddr))),
            msg_type == MSG_DISCOVER ==> match r {
                Some(ans) => ans.msg_type == MSG_OFFER && final(self).leases().dom().contains(chaddr)
                    && final(self).leases()[chaddr] == ans.yiaddr && (old(self).leases().dom().contains(chaddr)
                    || cfg.pool_start <= ans.yiaddr <= cfg.pool_end),
                None => final(self).leases() == old(self).leases(),
            },
            msg_type != MSG_REQUEST && msg_type != MSG_DISCOVER ==> r is None && final(self).leases()
                == old(self).leases(),
    {
        if msg_type == MSG_DISCOVER {
            match self.allocate(chaddr, cfg.pool_start, cfg.pool_end) {
                Some(a) => {
                    proof {
                        if !old(self).leases().dom().contains(chaddr) {
                            let k = choose|k: int|
                                0 <= k <= cfg.pool_end - cfg.pool_start && a == candidate(cfg.pool_start, cfg.pool_end, old(self).next(), k)
                                    && !taken(old(self).entries(), a as int) && (forall|j: int|
                                    0 <= j < k ==> taken(old(self).entries(), #[trigger] candidate(cfg.pool_start, cfg.pool_end, old(self).next(), j)))
                                    && self.leases() == old(self).leases().insert(chaddr, a) && self.next() == a + 1;
                            let size = cfg.pool_end - cfg.pool_start + 1;
                            assert(0 <= (old(self).next() - cfg.pool_start + k) % (size as int) < size) by {
                                vstd::arithmetic::div_mod::lemma_mod_bound(old(self).next() - cfg.pool_start + k, size as int);
                            }
                        }
                    }
                    Some(Answer { msg_type: MSG_OFFER, yiaddr: a })
                },
                None => None,
            }
        } else if msg_type == MSG_REQUEST {
            let req = match requested_option {
                Some(a) => a,
                None => ciaddr,
            };
            if self.holds(&chaddr, req) {
                Some(Answer { msg_type: MSG_ACK, yiaddr: req })
            } else {
                Some(Answer { msg_type: MSG_NAK, yiaddr: 0 })
            }
        } else {
            None
        }
    }
}

/// No address is ever leased to two clients: in a well-formed table
/// (which `new` makes and `allocate` and `answer` keep) distinct MAC
/// addresses hold distinct addresses.
pub proof fn lemma_no_shared_leases(t: LeaseTable, m1: u64, m2: u64)
    requires
        t.wf(),
        t.leases().dom().contains(m1),
        t.leases().dom().contains(m2),
        m1 != m2,
    ensures
        t.leases()[m1] != t.leases()[m2],
{
    let i = choose|i: int| 0 <= i < t.by_mac.len() && #[trigger] t.by_mac@[i].0 == m1;
    let j = choose|j: int| 0 <= j < t.by_mac.len() && #[trigger] t.by_mac@[j].0 == m2;
    t.lemma_lookup(i);
    t.lemma_lookup(j);
    if i < j {
        assert(t.by_mac@[i].1 != t.by_mac@[j].1);
    } else {
        assert(i != j);
        assert(t.by_mac@[j].1 != t.by_mac@[i].1);
    }
}

/// Every address tried for a new lease lies in the pool.
pub proof fn lemma_candidate_in_pool(start: u32, end: u32, next: u32, k: int)
    requires
        start <= end,
        start <= next,
        0 <= k,
    ensures
        start <= candidate(start, end, next, k) <= end,
{
    vstd::arithmetic::div_mod::lemma_mod_bound(next - start + k, end - start + 1);
}

} // verus!
