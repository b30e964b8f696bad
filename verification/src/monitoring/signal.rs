//! Wi-Fi signal strength, from wpa_supplicant's `SIGNAL_POLL` reply.

use crate::text::{chars_of, parse_signed, parse_signed_at, parse_unsigned, parse_unsigned_at};
use crate::wifi::wpa::{lookup, lookup_spec, pair_views};
use vstd::prelude::*;

verus! {

#[derive(Debug, Clone, Copy, Default)]
pub struct SignalInfo {
    pub rssi_dbm: Option<i32>,
    pub link_speed_mbps: Option<i32>,
    pub frequency_mhz: Option<u32>,
}

/// `s.parse::<i32>()` of the value of `key`, if present and valid.
pub open spec fn i32_field(poll: Seq<(Seq<char>, Seq<char>)>, key: Seq<char>) -> Option<i32> {
    match lookup_spec(poll, key) {
        Some(v) => match parse_signed(v, i32::MIN as int, i32::MAX as int) {
            Some(n) => Some(n as i32),
            None => None,
        },
        None => None,
    }
}

/// `s.parse::<u32>()` of the value of `key`, if present and valid.
pub open spec fn u32_field(poll: Seq<(Seq<char>, Seq<char>)>, key: Seq<char>) -> Option<u32> {
    match lookup_spec(poll, key) {
        Some(v) => match parse_unsigned(v, u32::MAX as int) {
            Some(n) => Some(n as u32),
            None => None,
        },
        None => None,
    }
}

fn i32_of(poll: &Vec<(String, String)>, key: &str) -> (r: Option<i32>)
    ensures
        r == i32_field(pair_views(poll@), key@),
{
    match lookup(poll, key) {
        Some(v) => {
            let c = chars_of(v.as_str());
            assert(c@.subrange(0, c.len() as int) =~= c@);
            match parse_signed_at(&c, 0, c.len(), i32::MAX as u64) {
                Some(n) => Some(n as i32),
                None => None,
            }
        },
        None => None,
    }
}

fn u32_of(poll: &Vec<(String, String)>, key: &str) -> (r: Option<u32>)
    ensures
        r == u32_field(pair_views(poll@), key@),
{
    match lookup(poll, key) {
        Some(v) => {
            let c = chars_of(v.as_str());
            assert(c@.subrange(0, c.len() as int) =~= c@);
            match parse_unsigned_at(&c, 0, c.len(), u32::MAX as u64) {
                Some(n) => Some(n as u32),
                None => None,
            }
        },
        None => None,
    }
}

/// The signal figures in a parsed `SIGNAL_POLL` reply
/// (`RSSI=-45`, `LINKSPEED=130`, `FREQUENCY=5180`); a missing or
/// malformed field is `None`.
pub fn current(poll: &Vec<(String, String)>) -> (s: SignalInfo)
    ensures
        s.rssi_dbm == i32_field(pair_views(poll@), "RSSI"@),
        s.link_speed_mbps == i32_field(pair_views(poll@), "LINKSPEED"@),
        s.frequency_mhz == u32_field(pair_views(poll@), "FREQUENCY"@),
{
    SignalInfo {
        rssi_dbm: i32_of(poll, "RSSI"),
        link_speed_mbps: i32_of(poll, "LINKSPEED"),
        frequency_mhz: u32_of(poll, "FREQUENCY"),
    }
}

} // verus!
