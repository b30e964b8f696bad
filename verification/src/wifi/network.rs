//! `WifiNetwork`: a single scan-result BSS, plus the `SCAN_RESULTS` table
//! parser.

use super::security::{from_flags_spec, SecurityType};
use crate::text::{
    chars_of, lines, lines_of, parse_signed, parse_signed_at, parse_unsigned, parse_unsigned_at,
    split_char, split_on, views,
};
use vstd::prelude::*;

verus! {

#[derive(Debug, Clone)]
pub struct WifiNetwork {
    pub ssid: String,
    pub bssid: String,
    pub frequency_mhz: u32,
    pub signal_dbm: i32,
    pub security: SecurityType,
}

/// The mathematical content of a `WifiNetwork`.
pub struct WifiNetworkView {
    pub ssid: Seq<char>,
    pub bssid: Seq<char>,
    pub frequency_mhz: u32,
    pub signal_dbm: i32,
    pub security: SecurityType,
}

impl View for WifiNetwork {
    type V = WifiNetworkView;

    open spec fn view(&self) -> WifiNetworkView {
        WifiNetworkView {
            ssid: self.ssid@,
            bssid: self.bssid@,
            frequency_mhz: self.frequency_mhz,
            signal_dbm: self.signal_dbm,
            security: self.security,
        }
    }
}

pub open spec fn clamp_signal(dbm: i32) -> int {
    if dbm < -100 {
        -100
    } else if dbm > -50 {
        -50
    } else {
        dbm as int
    }
}

impl WifiNetwork {
    /// 0-100 bar-style signal quality: -100..-50 dBm mapped linearly onto
    /// 0..100 (the mapping NetworkManager's `nm-utils` applies).
    pub fn signal_percent(&self) -> (r: u8)
        ensures
            r == (clamp_signal(self.signal_dbm) + 100) * 2,
            r <= 100,
    {
        let clamped = if self.signal_dbm < -100 {
            -100
        } else if self.signal_dbm > -50 {
            -50
        } else {
            self.signal_dbm
        };
        let pct = ((clamped + 100) * 2) as u8;
        if pct < 100 {
            pct
        } else {
            100
        }
    }
}

/// One `SCAN_RESULTS` row: `bssid \t frequency \t signal \t flags \t ssid`.
/// Rows whose frequency or signal does not parse, with fewer than four
/// columns, or with an empty SSID (a hidden network) are skipped.
pub open spec fn scan_entry(line: Seq<char>) -> Option<WifiNetworkView> {
    let cols = split_char(line, '\t');
    if cols.len() >= 5 && parse_unsigned(cols[1], u32::MAX as int) is Some && parse_signed(
        cols[2],
        i32::MIN as int,
        i32::MAX as int,
    ) is Some && cols[4].len() > 0 {
        Some(
            WifiNetworkView {
                ssid: cols[4],
                bssid: cols[0],
                frequency_mhz: parse_unsigned(cols[1], u32::MAX as int)->0 as u32,
                signal_dbm: parse_signed(cols[2], i32::MIN as int, i32::MAX as int)->0 as i32,
                security: from_flags_spec(cols[3]),
            },
        )
    } else {
        None
    }
}

/// The entries of `rows`, in order, skipping those that don't parse.
pub open spec fn scan_entries(rows: Seq<Seq<char>>) -> Seq<WifiNetworkView>
    decreases rows.len(),
{
    if rows.len() == 0 {
        seq![]
    } else {
        let prev = scan_entries(rows.drop_last());
        match scan_entry(rows.last()) {
            Some(e) => prev.push(e),
            None => prev,
        }
    }
}

/// All lines of `raw` after the first (header) line.
pub open spec fn body_lines(raw: Seq<char>) -> Seq<Seq<char>> {
    let ls = lines(raw);
    if ls.len() == 0 {
        ls
    } else {
        ls.drop_first()
    }
}

pub open spec fn network_views(v: Seq<WifiNetwork>) -> Seq<WifiNetworkView> {
    v.map_values(|n: WifiNetwork| n@)
}

fn parse_scan_line(line: &str) -> (r: Option<WifiNetwork>)
    ensures
        match scan_entry(line@) {
            Some(e) => r matches Some(n) && n@ == e,
            None => r is None,
        },
{
    let cols = split_on(line, '\t');
    proof {
        assert(views(cols@).len() == cols.len());
    }
    if cols.len() < 5 {
        return None;
    }
    assert(cols@[1]@ == split_char(line@, '\t')[1]);
    assert(cols@[2]@ == split_char(line@, '\t')[2]);
    assert(cols@[0]@ == split_char(line@, '\t')[0]);
    assert(cols@[3]@ == split_char(line@, '\t')[3]);
    assert(cols@[4]@ == split_char(line@, '\t')[4]);
    let f = chars_of(cols[1].as_str());
    let freq = match parse_unsigned_at(&f, 0, f.len(), u32::MAX as u64) {
        Some(n) => n,
        None => {
            assert(f@.subrange(0, f.len() as int) =~= f@);
            return None;
        },
    };
    assert(f@.subrange(0, f.len() as int) =~= f@);
    let s = chars_of(cols[2].as_str());
    let sig = match parse_signed_at(&s, 0, s.len(), i32::MAX as u64) {
        Some(n) => n,
        None => {
            assert(s@.subrange(0, s.len() as int) =~= s@);
            return None;
        },
    };
    assert(s@.subrange(0, s.len() as int) =~= s@);
    if cols[4].as_str().is_empty() {
        return None;
    }
    let security = SecurityType::from_flags(cols[3].as_str());
    proof {
        let c = split_char(line@, '\t');
        assert(parse_unsigned(c[1], u32::MAX as int) == Some(freq as int));
        assert(parse_signed(c[2], i32::MIN as int, i32::MAX as int) == Some(sig as int));
        assert(freq <= u32::MAX);
    }
    Some(
        WifiNetwork {
            ssid: cols[4].clone(),
            bssid: cols[0].clone(),
            frequency_mhz: freq as u32,
            signal_dbm: sig as i32,
            security,
        },
    )
}

/// Parses wpa_supplicant's `SCAN_RESULTS` reply:
/// ```text
/// bssid / frequency / signal level / flags / ssid
/// 00:11:22:33:44:55	2412	-42	[WPA2-PSK-CCMP][ESS]	MyNetwork
/// ```
pub fn parse_scan_results(raw: &str) -> (out: Vec<WifiNetwork>)
    ensures
        network_views(out@) == scan_entries(body_lines(raw@)),
{
    let ls = lines_of(raw);
    let mut out: Vec<WifiNetwork> = Vec::new();
    if ls.len() == 0 {
        assert(network_views(out@) =~= seq![]);
        return out;
    }
    let ghost body = body_lines(raw@);
    assert(views(ls@).len() == ls.len());
    let mut i: usize = 1;
    proof {
        assert(body.subrange(0, 0) =~= seq![]);
        assert(network_views(out@) =~= seq![]);
    }
    while i < ls.len()
        invariant
            1 <= i <= ls.len(),
            views(ls@) == lines(raw@),
            body == views(ls@).drop_first(),
            network_views(out@) == scan_entries(body.subrange(0, i - 1)),
        decreases ls.len() - i,
    {
        let ghost prefix = body.subrange(0, i - 1);
        assert(body.subrange(0, i as int).drop_last() =~= prefix);
        assert(body[i - 1] == ls@[i as int]@);
        let entry = parse_scan_line(ls[i].as_str());
        match entry {
            Some(n) => {
                out.push(n);
                assert(network_views(out@) =~= scan_entries(prefix).push(n@));
            },
            None => {},
        }
        i += 1;
    }
    assert(body.subrange(0, ls.len() - 1) =~= body);
    out
}

} // verus!
