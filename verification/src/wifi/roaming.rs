//! BSS (access point) selection when several APs share one SSID -- a mesh
//! system or enterprise multi-AP deployment. wpa_supplicant roams on its own
//! once associated; this is the policy applied at initial connection time
//! and when deciding whether a manual "roam now" request is worth acting on.

use super::network::WifiNetwork;
use crate::text::str_eq;
use vstd::prelude::*;

verus! {

/// A candidate BSS must be at least this much stronger than the current
/// one to justify a roam -- otherwise a client ping-pongs between two APs
/// of nearly equal signal.
pub const ROAM_HYSTERESIS_DBM: i32 = 8;

/// `ns[i]` is the BSS `best_bss` picks for `ssid`: the strongest one with
/// that SSID, and the last of several equally strong ones.
pub open spec fn is_best_bss(ns: Seq<WifiNetwork>, ssid: Seq<char>, i: int) -> bool {
    &&& 0 <= i < ns.len()
    &&& ns[i].ssid@ == ssid
    &&& forall|j: int| 0 <= j < ns.len() && ns[j].ssid@ == ssid ==> ns[j].signal_dbm <= ns[i].signal_dbm
    &&& forall|j: int| i < j < ns.len() && ns[j].ssid@ == ssid ==> ns[j].signal_dbm < ns[i].signal_dbm
}

pub open spec fn has_ssid(ns: Seq<WifiNetwork>, ssid: Seq<char>) -> bool {
    exists|j: int| 0 <= j < ns.len() && ns[j].ssid@ == ssid
}

/// Index of the BSS `best_bss` picks.
pub fn best_bss_index(networks: &[WifiNetwork], ssid: &str) -> (r: Option<usize>)
    ensures
        match r {
            Some(i) => is_best_bss(networks@, ssid@, i as int),
            None => !has_ssid(networks@, ssid@),
        },
{
    let mut best: Option<usize> = None;
    let mut i: usize = 0;
    while i < networks.len()
        invariant
            i <= networks.len(),
            match best {
                Some(b) => is_best_bss(networks@.subrange(0, i as int), ssid@, b as int),
                None => !has_ssid(networks@.subrange(0, i as int), ssid@),
            },
        decreases networks.len() - i,
    {
        let ghost pre = networks@.subrange(0, i as int);
        let ghost next = networks@.subrange(0, i + 1);
        assert(forall|j: int| 0 <= j < i ==> next[j] == pre[j]);
        if str_eq(networks[i].ssid.as_str(), ssid) {
            match best {
                Some(b) => {
                    if networks[b].signal_dbm <= networks[i].signal_dbm {
                        best = Some(i);
                    }
                },
                None => {
                    best = Some(i);
                },
            }
        }
        i += 1;
    }
    assert(networks@.subrange(0, networks.len() as int) =~= networks@);
    best
}

/// The strongest BSS advertising `ssid` (the last of equally strong ones).
pub fn best_bss<'a>(networks: &'a [WifiNetwork], ssid: &str) -> (r: Option<&'a WifiNetwork>)
    ensures
        r is None <==> !has_ssid(networks@, ssid@),
        r matches Some(n) ==> exists|i: int| is_best_bss(networks@, ssid@, i) && *n == networks@[i],
{
    match best_bss_index(networks, ssid) {
        Some(i) => Some(&networks[i]),
        None => None,
    }
}

/// Index of the first network whose BSSID is `bssid`.
pub open spec fn first_with_bssid(ns: Seq<WifiNetwork>, bssid: Seq<char>, i: int) -> bool {
    0 <= i < ns.len() && ns[i].bssid@ == bssid && forall|j: int|
        0 <= j < i ==> ns[j].bssid@ != bssid
}

pub open spec fn has_bssid(ns: Seq<WifiNetwork>, bssid: Seq<char>) -> bool {
    exists|j: int| 0 <= j < ns.len() && ns[j].bssid@ == bssid
}

/// The roam decision: given the current BSS (first entry with
/// `current_bssid`) and the best BSS for `ssid`, roam when the best one is
/// a different BSS at least `ROAM_HYSTERESIS_DBM` stronger.
pub open spec fn roam_target(ns: Seq<WifiNetwork>, ssid: Seq<char>, current_bssid: Seq<char>, c: int, b: int) -> bool {
    first_with_bssid(ns, current_bssid, c) && is_best_bss(ns, ssid, b) && ns[b].bssid@
        != current_bssid && ns[b].signal_dbm - ns[c].signal_dbm >= ROAM_HYSTERESIS_DBM
}

/// Whether it's worth switching from `current_bssid` to whatever the
/// strongest visible BSS for `ssid` is right now.
pub fn should_roam<'a>(networks: &'a [WifiNetwork], ssid: &str, current_bssid: &str) -> (r: Option<&'a WifiNetwork>)
    ensures
        r matches Some(n) ==> exists|c: int, b: int|
            roam_target(networks@, ssid@, current_bssid@, c, b) && *n == networks@[b],
        r is None ==> forall|c: int, b: int| !roam_target(networks@, ssid@, current_bssid@, c, b),
{
    let mut c: usize = 0;
    while c < networks.len() && !str_eq(networks[c].bssid.as_str(), current_bssid)
        invariant
            c <= networks.len(),
            forall|j: int| 0 <= j < c ==> networks@[j].bssid@ != current_bssid@,
        decreases networks.len() - c,
    {
        c += 1;
    }
    if c == networks.len() {
        return None;
    }
    let current_signal = networks[c].signal_dbm;
    let b = match best_bss_index(networks, ssid) {
        Some(b) => b,
        None => return None,
    };
    let candidate = &networks[b];
    proof {
        assert forall|c2: int, b2: int| roam_target(networks@, ssid@, current_bssid@, c2, b2) implies c2
            == c && networks@[b2] == networks@[b as int] by {
            if c2 < c {
            } else if c < c2 {
            }
            if b2 < b {
            } else if b < b2 {
            }
        }
    }
    // The difference is taken in 64 bits, where no two signal levels can
    // overflow it.
    if !str_eq(candidate.bssid.as_str(), current_bssid) && (candidate.signal_dbm as i64) - (
    current_signal as i64) >= (ROAM_HYSTERESIS_DBM as i64) {
        assert(roam_target(networks@, ssid@, current_bssid@, c as int, b as int));
        Some(candidate)
    } else {
        None
    }
}

} // verus!
