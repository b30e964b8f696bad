//! Traffic-rate sampling across the managed devices: point-in-time
//! throughput from two successive counter readings, not lifetime counters.

use crate::device::DeviceStatistics;
use crate::text::str_eq;
use vstd::prelude::*;

verus! {

/// The counters' growth from `prev` to `cur`; a counter that went down
/// (the device was reset) counts as zero growth.
pub open spec fn delta_spec(prev: DeviceStatistics, cur: DeviceStatistics) -> DeviceStatistics {
    DeviceStatistics {
        rx_bytes: if cur.rx_bytes >= prev.rx_bytes { (cur.rx_bytes - prev.rx_bytes) as u64 } else { 0 },
        tx_bytes: if cur.tx_bytes >= prev.tx_bytes { (cur.tx_bytes - prev.tx_bytes) as u64 } else { 0 },
        rx_packets: if cur.rx_packets >= prev.rx_packets { (cur.rx_packets - prev.rx_packets) as u64 } else { 0 },
        tx_packets: if cur.tx_packets >= prev.tx_packets { (cur.tx_packets - prev.tx_packets) as u64 } else { 0 },
        rx_errors: if cur.rx_errors >= prev.rx_errors { (cur.rx_errors - prev.rx_errors) as u64 } else { 0 },
        tx_errors: if cur.tx_errors >= prev.tx_errors { (cur.tx_errors - prev.tx_errors) as u64 } else { 0 },
        rx_dropped: if cur.rx_dropped >= prev.rx_dropped { (cur.rx_dropped - prev.rx_dropped) as u64 } else { 0 },
        tx_dropped: if cur.tx_dropped >= prev.tx_dropped { (cur.tx_dropped - prev.tx_dropped) as u64 } else { 0 },
    }
}

fn sat(a: u64, b: u64) -> (r: u64)
    ensures
        r == if a >= b { (a - b) as u64 } else { 0 },
{
    if a >= b {
        a - b
    } else {
        0
    }
}

pub fn delta(prev: &DeviceStatistics, cur: &DeviceStatistics) -> (d: DeviceStatistics)
    ensures
        d == delta_spec(*prev, *cur),
{
    DeviceStatistics {
        rx_bytes: sat(cur.rx_bytes, prev.rx_bytes),
        tx_bytes: sat(cur.tx_bytes, prev.tx_bytes),
        rx_packets: sat(cur.rx_packets, prev.rx_packets),
        tx_packets: sat(cur.tx_packets, prev.tx_packets),
        rx_errors: sat(cur.rx_errors, prev.rx_errors),
        tx_errors: sat(cur.tx_errors, prev.tx_errors),
        rx_dropped: sat(cur.rx_dropped, prev.rx_dropped),
        tx_dropped: sat(cur.tx_dropped, prev.tx_dropped),
    }
}

/// The last reading taken of each device: its name, when (monotonic
/// milliseconds) and the counters.
pub struct RateSampler {
    last: Vec<(String, u64, DeviceStatistics)>,
}

/// What a sample yields once a device has an earlier reading: the
/// milliseconds between the two (at least 1) and the counters' growth.
#[derive(Debug, Clone, Copy)]
pub struct RateSample {
    pub elapsed_ms: u64,
    pub delta: DeviceStatistics,
}

impl RateSampler {
    /// The readings, keyed by device name.
    pub closed spec fn readings(self) -> Map<Seq<char>, (u64, DeviceStatistics)> {
        Map::new(
            |k: Seq<char>| exists|i: int| 0 <= i < self.last.len() && #[trigger] self.last@[i].0@ == k,
            |k: Seq<char>| {
                let i = choose|i: int| 0 <= i < self.last.len() && #[trigger] self.last@[i].0@ == k;
                (self.last@[i].1, self.last@[i].2)
            },
        )
    }

    #[verifier::type_invariant]
    closed spec fn inv(self) -> bool {
        forall|i: int, j: int|
            0 <= i < j < self.last.len() ==> #[trigger] self.last@[i].0@ != #[trigger] self.last@[j].0@
    }

    pub fn new() -> (s: RateSampler)
        ensures
            s.readings() == Map::<Seq<char>, (u64, DeviceStatistics)>::empty(),
    {
        let s = RateSampler { last: Vec::new() };
        assert(s.readings() =~= Map::<Seq<char>, (u64, DeviceStatistics)>::empty());
        s
    }

    fn find(&self, ifname: &str) -> (r: Option<usize>)
        ensures
            match r {
                Some(i) => i < self.last.len() && self.last@[i as int].0@ == ifname@,
                None => forall|i: int| 0 <= i < self.last.len() ==> self.last@[i].0@ != ifname@,
            },
    {
        let mut i: usize = 0;
        while i < self.last.len()
            invariant
                i <= self.last.len(),
                forall|j: int| 0 <= j < i ==> self.last@[j].0@ != ifname@,
            decreases self.last.len() - i,
        {
            if str_eq(self.last[i].0.as_str(), ifname) {
                return Some(i);
            }
            i += 1;
        }
        None
    }

    /// Records the reading `current` of `ifname` taken at `now_ms`. The
    /// first reading of a device yields nothing to compare against; later
    /// ones yield the time since and the growth since the previous one.
    pub fn sample(&mut self, ifname: &str, now_ms: u64, current: DeviceStatistics) -> (r: Option<
        RateSample,
    >)
        ensures
            final(self).readings() == old(self).readings().insert(ifname@, (now_ms, current)),
            match old(self).readings().get(ifname@) {
                None => r is None,
                Some((t, prev)) => (r matches Some(s) && s.delta == delta_spec(prev, current)
                    && s.elapsed_ms == if now_ms > t { (now_ms - t) as u64 } else { 1u64 }),
            },
    {
        proof {
            use_type_invariant(&*self);
        }
        let ghost old_r = self.readings();
        let found = self.find(ifname);
        let mut last = Vec::new();
        std::mem::swap(&mut last, &mut self.last);
        let ghost before = last@;
        match found {
            Some(i) => {
                let t = last[i].1;
                let prev = last[i].2;
                let d = delta(&prev, &current);
                let elapsed = if now_ms > t {
                    now_ms - t
                } else {
                    1
                };
                last.set(i, (String::from_str(ifname), now_ms, current));
                proof {
                    assert(old_r.dom().contains(ifname@));
                    let k = choose|k: int| 0 <= k < before.len() && #[trigger] before[k].0@ == ifname@;
                    assert(k == i);
                }
                *self = RateSampler { last };
                proof {
                    assert(self.readings() =~= old_r.insert(ifname@, (now_ms, current))) by {
                        assert forall|k: Seq<char>| self.readings().dom().contains(k) implies
                            old_r.insert(ifname@, (now_ms, current)).dom().contains(k) by {
                            let j = choose|j: int| 0 <= j < self.last.len() && #[trigger] self.last@[j].0@ == k;
                            if j != i {
                                assert(before[j].0@ == k);
                            }
                        }
                        assert forall|k: Seq<char>| old_r.insert(ifname@, (now_ms, current)).dom().contains(k) implies
                            self.readings().dom().contains(k) by {
                            if k != ifname@ {
                                let j = choose|j: int| 0 <= j < before.len() && #[trigger] before[j].0@ == k;
                                assert(self.last@[j].0@ == k);
                            } else {
                                assert(self.last@[i as int].0@ == k);
                            }
                        }
                        assert forall|k: Seq<char>| #[trigger] self.readings().dom().contains(k) implies
                            self.readings()[k] == old_r.insert(ifname@, (now_ms, current))[k] by {
                            let j = choose|j: int| 0 <= j < self.last.len() && #[trigger] self.last@[j].0@ == k;
                            if k != ifname@ {
                                let j2 = choose|j2: int| 0 <= j2 < before.len() && #[trigger] before[j2].0@ == k;
                                assert(j == j2);
                            } else {
                                assert(j == i);
                            }
                        }
                    }
                }
                Some(RateSample { elapsed_ms: elapsed, delta: d })
            },
            None => {
                last.push((String::from_str(ifname), now_ms, current));
                *self = RateSampler { last };
                proof {
                    assert(!old_r.dom().contains(ifname@));
                    assert(self.readings() =~= old_r.insert(ifname@, (now_ms, current))) by {
                        assert forall|k: Seq<char>| self.readings().dom().contains(k) implies
                            old_r.insert(ifname@, (now_ms, current)).dom().contains(k) by {
                            let j = choose|j: int| 0 <= j < self.last.len() && #[trigger] self.last@[j].0@ == k;
                            if j < before.len() {
                                assert(before[j].0@ == k);
                            }
                        }
                        assert forall|k: Seq<char>| old_r.insert(ifname@, (now_ms, current)).dom().contains(k) implies
                            self.readings().dom().contains(k) by {
                            if k != ifname@ {
                                let j = choose|j: int| 0 <= j < before.len() && #[trigger] before[j].0@ == k;
                                assert(self.last@[j].0@ == k);
                            } else {
                                assert(self.last@[before.len() as int].0@ == k);
                            }
                        }
                        assert forall|k: Seq<char>| #[trigger] self.readings().dom().contains(k) implies
                            self.readings()[k] == old_r.insert(ifname@, (now_ms, current))[k] by {
                            let j = choose|j: int| 0 <= j < self.last.len() && #[trigger] self.last@[j].0@ == k;
                            if k != ifname@ {
                                let j2 = choose|j2: int| 0 <= j2 < before.len() && #[trigger] before[j2].0@ == k;
                                assert(self.last@[j2].0@ == k);
                                assert(j == j2);
                            } else {
                                assert(j == before.len());
                            }
                        }
                    }
                }
                None
            },
        }
    }
}

/// Drops every reading older than `max_age_ms` at `now_ms`, so devices that
/// went away do not accumulate over the daemon's lifetime.
pub fn prune_stale(sampler: &mut RateSampler, now_ms: u64, max_age_ms: u64)
    ensures
        final(sampler).readings() == old(sampler).readings().restrict(
            old(sampler).readings().dom().filter(
                |k: Seq<char>| {
                    let t = old(sampler).readings()[k].0;
                    (if now_ms >= t { now_ms - t } else { 0 }) < max_age_ms
                },
            ),
        ),
{
    proof {
        use_type_invariant(&*sampler);
    }
    let ghost old_r = sampler.readings();
    let mut last = Vec::new();
    std::mem::swap(&mut last, &mut sampler.last);
    let ghost before = last@;
    let mut kept: Vec<(String, u64, DeviceStatistics)> = Vec::new();
    let n = last.len();
    let mut rest = crate::collections::reversed(last);
    let mut i: usize = 0;
    let ghost mut idx: Seq<int> = seq![];
    while i < n
        invariant
            i <= n == before.len(),
            rest.len() == n - i,
            forall|k: int| 0 <= k < n - i ==> #[trigger] rest@[k] == before[n - 1 - k],
            forall|a: int, b: int| 0 <= a < b < n ==> #[trigger] before[a].0@ != #[trigger] before[b].0@,
            idx.len() == kept.len(),
            forall|k: int| 0 <= k < idx.len() ==> 0 <= #[trigger] idx[k] < i,
            forall|a: int, b: int| 0 <= a < b < idx.len() ==> #[trigger] idx[a] < #[trigger] idx[b],
            forall|k: int| 0 <= k < kept.len() ==> #[trigger] kept@[k] == before[idx[k]],
            forall|j: int| 0 <= j < i ==> ((if now_ms >= before[j].1 { now_ms - before[j].1 } else { 0 }) < max_age_ms
                <==> exists|k: int| 0 <= k < idx.len() && #[trigger] idx[k] == j),
        decreases n - i,
    {
        let e = rest.pop().unwrap();
        assert(e == before[i as int]);
        let age = if now_ms >= e.1 { now_ms - e.1 } else { 0 };
        let ghost old_idx = idx;
        if age < max_age_ms {
            kept.push(e);
            proof {
                idx = idx.push(i as int);
                assert(idx[idx.len() - 1] == i);
            }
        }
        proof {
            assert forall|j: int| 0 <= j < i + 1 implies ((if now_ms >= before[j].1 { now_ms - before[j].1 } else { 0 }) < max_age_ms
                <==> exists|k: int| 0 <= k < idx.len() && #[trigger] idx[k] == j) by {
                if j < i {
                    if exists|k: int| 0 <= k < old_idx.len() && #[trigger] old_idx[k] == j {
                        let k = choose|k: int| 0 <= k < old_idx.len() && #[trigger] old_idx[k] == j;
                        assert(idx[k] == j);
                    }
                    if exists|k: int| 0 <= k < idx.len() && #[trigger] idx[k] == j {
                        let k = choose|k: int| 0 <= k < idx.len() && #[trigger] idx[k] == j;
                        if k < old_idx.len() {
                            assert(old_idx[k] == j);
                        }
                    }
                } else {
                    if age < max_age_ms {
                        assert(idx[idx.len() - 1] == j);
                    } else {
                        if exists|k: int| 0 <= k < idx.len() && #[trigger] idx[k] == j {
                            let k = choose|k: int| 0 <= k < idx.len() && #[trigger] idx[k] == j;
                            assert(old_idx[k] < i);
                        }
                    }
                }
            }
        }
        i += 1;
    }
    *sampler = RateSampler { last: kept };
    proof {
        let f = |k: Seq<char>| {
            let t = old_r[k].0;
            (if now_ms >= t { now_ms - t } else { 0 }) < max_age_ms
        };
        let want = old_r.restrict(old_r.dom().filter(f));
        assert forall|k: Seq<char>| #[trigger] sampler.readings().dom().contains(k) <==> want.dom().contains(k) by {
            if sampler.readings().dom().contains(k) {
                let j = choose|j: int| 0 <= j < sampler.last.len() && #[trigger] sampler.last@[j].0@ == k;
                let bj = idx[j];
                assert(before[bj].0@ == k);
                assert(old_r.dom().contains(k));
                let c = choose|c: int| 0 <= c < before.len() && #[trigger] before[c].0@ == k;
                assert(c == bj);
            }
            if want.dom().contains(k) {
                let c = choose|c: int| 0 <= c < before.len() && #[trigger] before[c].0@ == k;
                let kk = choose|kk: int| 0 <= kk < idx.len() && #[trigger] idx[kk] == c;
                assert(sampler.last@[kk].0@ == k);
            }
        }
        assert forall|k: Seq<char>| #[trigger] sampler.readings().dom().contains(k) implies sampler.readings()[k] == want[k] by {
            let j = choose|j: int| 0 <= j < sampler.last.len() && #[trigger] sampler.last@[j].0@ == k;
            let c = choose|c: int| 0 <= c < before.len() && #[trigger] before[c].0@ == k;
            assert(before[idx[j]].0@ == k);
            assert(c == idx[j]);
        }
        assert(sampler.readings() =~= want);
    }
}

} // verus!
