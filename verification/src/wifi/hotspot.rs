//! Access-point mode through `hostapd`: the configuration file it is given
//! and the checks made before starting it. Addressing the AP interface,
//! serving DHCP to its clients and NAT are one layer up.

use crate::errors::NetworkError;
use crate::security::validation::{
    interface_name_chars_ok, interface_name_len_ok, passphrase_len_ok, ssid_chars_ok, ssid_len_ok,
    validate_interface_name, validate_ssid, validate_wpa_passphrase,
};
use crate::text::{decimal, u64_to_string};
use vstd::prelude::*;

verus! {

#[derive(Debug, Clone)]
pub struct HotspotConfig {
    pub interface: String,
    pub ssid: String,
    pub passphrase: Option<String>,
    pub channel: u8,
    /// `g` for 2.4 GHz, `a` for 5 GHz.
    pub hw_mode: String,
}

/// `/run/mitos-network/hostapd-<ifname>.conf`.
pub fn config_path(ifname: &str) -> (p: String)
    ensures
        p@ == "/run/mitos-network/hostapd-"@ + ifname@ + ".conf"@,
{
    crate::errors::join3("/run/mitos-network/hostapd-", ifname, ".conf")
}

/// The `hostapd.conf` text: interface, driver, SSID, band and channel,
/// 802.11n and WMM on, then WPA2-PSK/CCMP with the passphrase, or a comment
/// making an open network explicit.
pub open spec fn config_text(cfg: HotspotConfig) -> Seq<char> {
    "interface="@ + cfg.interface@ + "\n"@ + "driver=nl80211\n"@ + "ssid="@ + cfg.ssid@ + "\n"@
        + "hw_mode="@ + cfg.hw_mode@ + "\n"@ + "channel="@ + decimal(cfg.channel as nat) + "\n"@
        + "ieee80211n=1\n"@ + "wmm_enabled=1\n"@ + match cfg.passphrase {
        Some(p) => "wpa=2\n"@ + "wpa_passphrase="@ + p@ + "\n"@ + "wpa_key_mgmt=WPA-PSK\n"@
            + "rsn_pairwise=CCMP\n"@,
        None => "# open network: no wpa_passphrase configured\n"@,
    }
}

pub fn render_config(cfg: &HotspotConfig) -> (out: String)
    ensures
        out@ == config_text(*cfg),
{
    let mut out = String::new();
    out.append("interface=");
    out.append(cfg.interface.as_str());
    out.append("\n");
    out.append("driver=nl80211\n");
    out.append("ssid=");
    out.append(cfg.ssid.as_str());
    out.append("\n");
    out.append("hw_mode=");
    out.append(cfg.hw_mode.as_str());
    out.append("\n");
    out.append("channel=");
    let ch = u64_to_string(cfg.channel as u64);
    out.append(ch.as_str());
    out.append("\n");
    out.append("ieee80211n=1\n");
    out.append("wmm_enabled=1\n");
    match &cfg.passphrase {
        Some(pass) => {
            out.append("wpa=2\n");
            out.append("wpa_passphrase=");
            out.append(pass.as_str());
            out.append("\n");
            out.append("wpa_key_mgmt=WPA-PSK\n");
            out.append("rsn_pairwise=CCMP\n");
        },
        None => {
            out.append("# open network: no wpa_passphrase configured\n");
        },
    }
    assert(out@ =~= config_text(*cfg));
    out
}

/// What starting a hotspot checks first: the interface name, the SSID and
/// the passphrase (if any), in that order.
pub open spec fn settings_ok(interface: &str, ssid: &str, passphrase: Option<&str>) -> bool {
    &&& interface_name_len_ok(interface)
    &&& interface_name_chars_ok(interface@)
    &&& ssid_len_ok(ssid)
    &&& ssid_chars_ok(ssid@)
    &&& match passphrase {
        Some(p) => passphrase_len_ok(p) && p.is_ascii(),
        None => true,
    }
}

/// The message of the first check a hotspot's settings fail, if any: the
/// interface name's length, then its characters, the SSID's length, then
/// its characters, then the passphrase's length, then its being ASCII.
pub open spec fn settings_error(interface: &str, ssid: &str, passphrase: Option<&str>) -> Option<Seq<char>> {
    if !interface_name_len_ok(interface) {
        Some("interface name '"@ + interface@ + "' must be 1-15 characters"@)
    } else if !interface_name_chars_ok(interface@) {
        Some("interface name '"@ + interface@ + "' contains invalid characters"@)
    } else if !ssid_len_ok(ssid) {
        Some("SSID must be 1-32 bytes"@)
    } else if !ssid_chars_ok(ssid@) {
        Some("SSID contains invalid characters"@)
    } else {
        match passphrase {
            Some(p) => if !passphrase_len_ok(p) {
                Some("WPA passphrase must be 8-63 characters"@)
            } else if !p.is_ascii() {
                Some("WPA passphrase must be ASCII"@)
            } else {
                None
            },
            None => None,
        }
    }
}

/// Checks a hotspot's interface name, SSID and passphrase before anything
/// is started; the first failing check's error is returned.
pub fn check_settings(interface: &str, ssid: &str, passphrase: Option<&str>) -> (r: Result<(), NetworkError>)
    ensures
        r is Ok <==> settings_ok(interface, ssid, passphrase),
        match settings_error(interface, ssid, passphrase) {
            None => r is Ok,
            Some(m) => crate::errors::parse_err(r, m),
        },
{
    validate_interface_name(interface)?;
    validate_ssid(ssid)?;
    if let Some(p) = passphrase {
        validate_wpa_passphrase(p)?;
    }
    Ok(())
}

} // verus!
