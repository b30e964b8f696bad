//! Shared input validation for anything that ends up on the wire to
//! wpa_supplicant, hostapd, nftables or a helper process. Every one of
//! those consumers is a plain-text command/config format, so an unchecked
//! SSID or interface name is an injection vector.

use crate::errors::{config_err, join2, join3, parse_err, wifi_err, NetworkError};
use crate::text::{chars_of, contains_char, is_hex_digit, is_ws, is_ws_exec, split_char, split_on, views};
use vstd::prelude::*;

verus! {

/// Byte length of `s` in UTF-8 (`str::len`).
pub open spec fn byte_len(s: &str) -> nat {
    s.len() as nat
}

pub open spec fn has_ws(s: Seq<char>) -> bool {
    exists|i: int| 0 <= i < s.len() && is_ws(#[trigger] s[i])
}

/// Interface names are 1-15 bytes (`IFNAMSIZ` is 16 with the NUL).
pub open spec fn interface_name_len_ok(name: &str) -> bool {
    name@.len() > 0 && byte_len(name) <= 15
}

pub open spec fn interface_name_chars_ok(name: Seq<char>) -> bool {
    !name.contains('/') && !has_ws(name) && name != seq!['.'] && name != seq!['.', '.']
}

fn has_ws_exec(v: &Vec<char>) -> (r: bool)
    ensures
        r == has_ws(v@),
{
    let mut i: usize = 0;
    while i < v.len()
        invariant
            i <= v.len(),
            forall|j: int| 0 <= j < i ==> !is_ws(v[j]),
        decreases v.len() - i,
    {
        if is_ws_exec(v[i]) {
            return true;
        }
        i += 1;
    }
    false
}

/// Linux's `IFNAMSIZ` is 16 including the NUL terminator.
pub fn validate_interface_name(name: &str) -> (r: Result<(), NetworkError>)
    ensures
        !interface_name_len_ok(name) ==> parse_err(
            r,
            "interface name '"@ + name@ + "' must be 1-15 characters"@,
        ),
        interface_name_len_ok(name) && !interface_name_chars_ok(name@) ==> parse_err(
            r,
            "interface name '"@ + name@ + "' contains invalid characters"@,
        ),
        interface_name_len_ok(name) && interface_name_chars_ok(name@) ==> r is Ok,
{
    if name.is_empty() || name.len() > 15 {
        return Err(NetworkError::Parse(join3("interface name '", name, "' must be 1-15 characters")));
    }
    let v = chars_of(name);
    let dot_like = (v.len() == 1 && v[0] == '.') || (v.len() == 2 && v[0] == '.' && v[1] == '.');
    proof {
        if v.len() == 1 && v[0] == '.' {
            assert(name@ =~= seq!['.']);
        }
        if v.len() == 2 && v[0] == '.' && v[1] == '.' {
            assert(name@ =~= seq!['.', '.']);
        }
    }
    if contains_char(name, '/') || has_ws_exec(&v) || dot_like {
        return Err(NetworkError::Parse(join3("interface name '", name, "' contains invalid characters")));
    }
    Ok(())
}

/// SSIDs are 1-32 bytes and may not hold NUL, newline or `"`.
pub open spec fn ssid_len_ok(ssid: &str) -> bool {
    ssid@.len() > 0 && byte_len(ssid) <= 32
}

pub open spec fn ssid_chars_ok(ssid: Seq<char>) -> bool {
    !ssid.contains('\0') && !ssid.contains('\n') && !ssid.contains('"')
}

/// SSIDs are up to 32 *bytes*; only UTF-8 ones are accepted.
pub fn validate_ssid(ssid: &str) -> (r: Result<(), NetworkError>)
    ensures
        !ssid_len_ok(ssid) ==> parse_err(r, "SSID must be 1-32 bytes"@),
        ssid_len_ok(ssid) && !ssid_chars_ok(ssid@) ==> parse_err(
            r,
            "SSID contains invalid characters"@,
        ),
        ssid_len_ok(ssid) && ssid_chars_ok(ssid@) ==> r is Ok,
{
    if ssid.is_empty() || ssid.len() > 32 {
        return Err(NetworkError::Parse(String::from_str("SSID must be 1-32 bytes")));
    }
    if contains_char(ssid, '\0') || contains_char(ssid, '\n') || contains_char(ssid, '"') {
        return Err(NetworkError::Parse(String::from_str("SSID contains invalid characters")));
    }
    Ok(())
}

pub open spec fn passphrase_len_ok(pass: &str) -> bool {
    8 <= byte_len(pass) <= 63
}

/// WPA2/WPA3-Personal passphrases are 8-63 ASCII characters.
pub fn validate_wpa_passphrase(pass: &str) -> (r: Result<(), NetworkError>)
    ensures
        !passphrase_len_ok(pass) ==> parse_err(r, "WPA passphrase must be 8-63 characters"@),
        passphrase_len_ok(pass) && !pass.is_ascii() ==> parse_err(
            r,
            "WPA passphrase must be ASCII"@,
        ),
        passphrase_len_ok(pass) && pass.is_ascii() ==> r is Ok,
{
    if pass.len() < 8 || pass.len() > 63 {
        return Err(NetworkError::Parse(String::from_str("WPA passphrase must be 8-63 characters")));
    }
    if !pass.is_ascii() {
        return Err(NetworkError::Parse(String::from_str("WPA passphrase must be ASCII")));
    }
    Ok(())
}

pub open spec fn identifier_char(c: char) -> bool {
    ('a' <= c && c <= 'z') || ('A' <= c && c <= 'Z') || ('0' <= c && c <= '9') || c == '-'
        || c == '_' || c == '.'
}

pub open spec fn identifier_len_ok(id: &str) -> bool {
    id@.len() > 0 && byte_len(id) <= 64
}

pub open spec fn identifier_chars_ok(id: Seq<char>) -> bool {
    forall|i: int| 0 <= i < id.len() ==> identifier_char(#[trigger] id[i])
}

/// Whether `id` is a valid identifier (what `validate_identifier` accepts).
pub open spec fn is_identifier(id: &str) -> bool {
    identifier_len_ok(id) && identifier_chars_ok(id@)
}

/// Why `validate_identifier` refuses `id`.
pub open spec fn identifier_error(id: &str) -> Seq<char> {
    if !identifier_len_ok(id) {
        "identifier '"@ + id@ + "' must be 1-64 characters"@
    } else {
        "identifier '"@ + id@ + "' may only contain letters, digits, '-', '_', '.'"@
    }
}

/// A conservative allow-list for anything embedded into a generated
/// config file or path as a bare token (connection ids, zone names,
/// profile ids).
pub fn validate_identifier(id: &str) -> (r: Result<(), NetworkError>)
    ensures
        !identifier_len_ok(id) ==> parse_err(
            r,
            "identifier '"@ + id@ + "' must be 1-64 characters"@,
        ),
        identifier_len_ok(id) && !identifier_chars_ok(id@) ==> parse_err(
            r,
            "identifier '"@ + id@ + "' may only contain letters, digits, '-', '_', '.'"@,
        ),
        r is Ok <==> is_identifier(id),
{
    if id.is_empty() || id.len() > 64 {
        return Err(NetworkError::Parse(join3("identifier '", id, "' must be 1-64 characters")));
    }
    let v = chars_of(id);
    let mut i: usize = 0;
    while i < v.len()
        invariant
            v@ == id@,
            identifier_len_ok(id),
            i <= v.len(),
            forall|j: int| 0 <= j < i ==> identifier_char(#[trigger] v@[j]),
        decreases v.len() - i,
    {
        let c = v[i];
        if !(('a' <= c && c <= 'z') || ('A' <= c && c <= 'Z') || ('0' <= c && c <= '9') || c
            == '-' || c == '_' || c == '.') {
            return Err(
                NetworkError::Parse(
                    join3("identifier '", id, "' may only contain letters, digits, '-', '_', '.'"),
                ),
            );
        }
        i += 1;
    }
    Ok(())
}

pub open spec fn mac_octet_ok(o: Seq<char>) -> bool {
    o.len() == 2 && is_hex_digit(o[0]) && is_hex_digit(o[1])
}

/// `XX:XX:XX:XX:XX:XX` in upper- or lower-case hex.
pub open spec fn is_mac_address(mac: Seq<char>) -> bool {
    let parts = split_char(mac, ':');
    parts.len() == 6 && forall|i: int| 0 <= i < 6 ==> mac_octet_ok(#[trigger] parts[i])
}

fn hex_digit_exec(c: char) -> (r: bool)
    ensures
        r == is_hex_digit(c),
{
    ('0' <= c && c <= '9') || ('a' <= c && c <= 'f') || ('A' <= c && c <= 'F')
}

/// A Bluetooth (or any 802-style) MAC address: exactly six colon-separated
/// two-digit hex octets.
pub fn validate_mac_address(mac: &str) -> (r: Result<(), NetworkError>)
    ensures
        is_mac_address(mac@) ==> r is Ok,
        !is_mac_address(mac@) ==> parse_err(r, "'"@ + mac@ + "' is not a valid MAC address"@),
{
    let octets = split_on(mac, ':');
    if octets.len() != 6 {
        return Err(NetworkError::Parse(join3("'", mac, "' is not a valid MAC address")));
    }
    let mut i: usize = 0;
    while i < 6
        invariant
            octets.len() == 6,
            views(octets@) == split_char(mac@, ':'),
            i <= 6,
            forall|j: int| 0 <= j < i ==> mac_octet_ok(#[trigger] split_char(mac@, ':')[j]),
        decreases 6 - i,
    {
        let o = chars_of(octets[i].as_str());
        assert(o@ == split_char(mac@, ':')[i as int]);
        if o.len() != 2 || !hex_digit_exec(o[0]) || !hex_digit_exec(o[1]) {
            return Err(NetworkError::Parse(join3("'", mac, "' is not a valid MAC address")));
        }
        i += 1;
    }
    Ok(())
}

pub open spec fn quoted_value_ok(value: Seq<char>) -> bool {
    !value.contains('"') && !value.contains('\\') && !value.contains('\0') && !value.contains(
        '\n',
    )
}

/// A value destined for a wpa_supplicant `SET_NETWORK <id> <field>
/// "<value>"` command: anything that could break out of the quoted
/// literal is rejected outright.
pub fn validate_quoted_value(field: &str, value: &str) -> (r: Result<(), NetworkError>)
    ensures
        quoted_value_ok(value@) ==> r is Ok,
        !quoted_value_ok(value@) ==> wifi_err(
            r,
            field@ + " may not contain a quote, backslash, or control character"@,
        ),
{
    if contains_char(value, '"') || contains_char(value, '\\') || contains_char(value, '\0')
        || contains_char(value, '\n') {
        return Err(
            NetworkError::Wifi(
                join2(field, " may not contain a quote, backslash, or control character"),
            ),
        );
    }
    Ok(())
}

/// A filesystem path for a certificate/key handed to wpa_supplicant: it
/// must be absolute and obey the quoted-value rule.
pub fn validate_cert_path(field: &str, path: &str) -> (r: Result<(), NetworkError>)
    ensures
        !(path@.len() > 0 && path@[0] == '/') ==> config_err(
            r,
            field@ + " must be an absolute path"@,
        ),
        path@.len() > 0 && path@[0] == '/' && !quoted_value_ok(path@) ==> wifi_err(
            r,
            field@ + " may not contain a quote, backslash, or control character"@,
        ),
        path@.len() > 0 && path@[0] == '/' && quoted_value_ok(path@) ==> r is Ok,
{
    let v = chars_of(path);
    if !(v.len() > 0 && v[0] == '/') {
        return Err(NetworkError::Config(join2(field, " must be an absolute path")));
    }
    validate_quoted_value(field, path)
}

} // verus!
