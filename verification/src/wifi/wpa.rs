//! The wpa_supplicant control protocol, the same text protocol `wpa_cli`
//! speaks: one command line in, one reply back (`OK`, `FAIL`, or
//! command-specific text), plus unsolicited `CTRL-EVENT-*` pushes on an
//! attached monitor connection. This module builds the commands and reads
//! the replies; the daemon owns the sockets.

use crate::errors::{join2, wifi_err, NetworkError};
use crate::security::validation::{quoted_value_ok, validate_interface_name, validate_quoted_value};
use crate::text::{
    chars_of, decimal, find_char, lines, lines_of, parse_unsigned, parse_unsigned_at, push_char,
    split_char, split_on, starts_with, str_eq, string_of, trim, trim_end, trim_string, u64_to_string,
    views,
};
use vstd::prelude::*;

verus! {

/// `s.split_once(c)`.
pub open spec fn split_once(s: Seq<char>, c: char) -> Option<(Seq<char>, Seq<char>)> {
    match find_char(s, c) {
        Some(i) => Some((s.subrange(0, i), s.subrange(i + 1, s.len() as int))),
        None => None,
    }
}

/// The `key=value` lines of a `STATUS` or `SIGNAL_POLL` reply, in order;
/// other lines are skipped.
pub open spec fn key_values(ls: Seq<Seq<char>>) -> Seq<(Seq<char>, Seq<char>)>
    decreases ls.len(),
{
    if ls.len() == 0 {
        seq![]
    } else {
        let prev = key_values(ls.drop_last());
        match split_once(ls.last(), '=') {
            Some(kv) => prev.push(kv),
            None => prev,
        }
    }
}

pub open spec fn pair_views(v: Seq<(String, String)>) -> Seq<(Seq<char>, Seq<char>)> {
    v.map_values(|p: (String, String)| (p.0@, p.1@))
}

/// The value recorded last for `key`, as a map built from the pairs in
/// order would hold it.
pub open spec fn lookup_spec(pairs: Seq<(Seq<char>, Seq<char>)>, key: Seq<char>) -> Option<
    Seq<char>,
>
    decreases pairs.len(),
{
    if pairs.len() == 0 {
        None
    } else if pairs.last().0 == key {
        Some(pairs.last().1)
    } else {
        lookup_spec(pairs.drop_last(), key)
    }
}

fn split_once_exec(s: &str, c: char) -> (r: Option<(String, String)>)
    ensures
        match split_once(s@, c) {
            Some((a, b)) => (r matches Some(p) && p.0@ == a && p.1@ == b),
            None => r is None,
        },
{
    let v = chars_of(s);
    match crate::text::find_from(&v, 0, c) {
        Some(i) => {
            proof {
                crate::text::lemma_find_char(s@, c);
                assert(v@.subrange(0, v.len() as int) =~= v@);
            }
            Some((string_of(&v, 0, i), string_of(&v, i + 1, v.len())))
        },
        None => {
            proof {
                crate::text::lemma_find_char(s@, c);
                assert(v@.subrange(0, v.len() as int) =~= v@);
            }
            None
        },
    }
}

/// Parses a `STATUS` / `SIGNAL_POLL` reply into its `key=value` pairs.
pub fn parse_key_values(raw: &str) -> (pairs: Vec<(String, String)>)
    ensures
        pair_views(pairs@) == key_values(lines(raw@)),
{
    let ls = lines_of(raw);
    let ghost all = views(ls@);
    let mut out: Vec<(String, String)> = Vec::new();
    let mut i: usize = 0;
    assert(all.len() == ls.len());
    while i < ls.len()
        invariant
            i <= ls.len(),
            all == views(ls@),
            all == lines(raw@),
            pair_views(out@) == key_values(all.subrange(0, i as int)),
        decreases ls.len() - i,
    {
        assert(all.subrange(0, i + 1).drop_last() =~= all.subrange(0, i as int));
        let ghost prev = pair_views(out@);
        match split_once_exec(ls[i].as_str(), '=') {
            Some(p) => {
                out.push(p);
                assert(pair_views(out@) =~= prev.push((p.0@, p.1@)));
            },
            None => {},
        }
        i += 1;
    }
    assert(all.subrange(0, ls.len() as int) =~= all);
    out
}

/// The value of `key` in a parsed reply (the last one, if repeated).
pub fn lookup(pairs: &Vec<(String, String)>, key: &str) -> (r: Option<String>)
    ensures
        match lookup_spec(pair_views(pairs@), key@) {
            Some(v) => (r matches Some(s) && s@ == v),
            None => r is None,
        },
{
    let mut i = pairs.len();
    assert(pair_views(pairs@).subrange(0, i as int) =~= pair_views(pairs@));
    while i > 0
        invariant
            i <= pairs.len(),
            lookup_spec(pair_views(pairs@), key@) == lookup_spec(
                pair_views(pairs@).subrange(0, i as int),
                key@,
            ),
        decreases i,
    {
        let ghost pre = pair_views(pairs@).subrange(0, i as int);
        assert(pre.drop_last() =~= pair_views(pairs@).subrange(0, i - 1));
        if str_eq(pairs[i - 1].0.as_str(), key) {
            return Some(pairs[i - 1].1.clone());
        }
        i -= 1;
    }
    None
}

/// A `LIST_NETWORKS` row: `id \t ssid \t bssid \t flags`; rows whose id
/// does not parse or that have no SSID column are skipped.
pub open spec fn network_row(line: Seq<char>) -> Option<(u32, Seq<char>)> {
    let cols = split_char(line, '\t');
    if cols.len() >= 2 && parse_unsigned(cols[0], u32::MAX as int) is Some {
        Some((parse_unsigned(cols[0], u32::MAX as int)->0 as u32, cols[1]))
    } else {
        None
    }
}

pub open spec fn network_rows(rows: Seq<Seq<char>>) -> Seq<(u32, Seq<char>)>
    decreases rows.len(),
{
    if rows.len() == 0 {
        seq![]
    } else {
        let prev = network_rows(rows.drop_last());
        match network_row(rows.last()) {
            Some(e) => prev.push(e),
            None => prev,
        }
    }
}

pub open spec fn id_views(v: Seq<(u32, String)>) -> Seq<(u32, Seq<char>)> {
    v.map_values(|p: (u32, String)| (p.0, p.1@))
}

fn parse_network_row(line: &str) -> (r: Option<(u32, String)>)
    ensures
        match network_row(line@) {
            Some(e) => (r matches Some(p) && p.0 == e.0 && p.1@ == e.1),
            None => r is None,
        },
{
    let cols = split_on(line, '\t');
    proof {
        assert(views(cols@).len() == cols.len());
    }
    if cols.len() < 2 {
        return None;
    }
    assert(cols@[0]@ == split_char(line@, '\t')[0]);
    assert(cols@[1]@ == split_char(line@, '\t')[1]);
    let f = chars_of(cols[0].as_str());
    assert(f@.subrange(0, f.len() as int) =~= f@);
    match parse_unsigned_at(&f, 0, f.len(), u32::MAX as u64) {
        Some(n) => Some((n as u32, cols[1].clone())),
        None => None,
    }
}

/// Parses a `LIST_NETWORKS` reply (after its header line) into
/// `(id, ssid)` pairs.
pub fn parse_list_networks(raw: &str) -> (out: Vec<(u32, String)>)
    ensures
        id_views(out@) == network_rows(crate::wifi::network::body_lines(raw@)),
{
    let ls = lines_of(raw);
    let mut out: Vec<(u32, String)> = Vec::new();
    if ls.len() == 0 {
        assert(id_views(out@) =~= seq![]);
        return out;
    }
    let ghost body = crate::wifi::network::body_lines(raw@);
    assert(views(ls@).len() == ls.len());
    let mut i: usize = 1;
    proof {
        assert(body.subrange(0, 0) =~= seq![]);
        assert(id_views(out@) =~= seq![]);
    }
    while i < ls.len()
        invariant
            1 <= i <= ls.len(),
            views(ls@) == lines(raw@),
            body == views(ls@).drop_first(),
            id_views(out@) == network_rows(body.subrange(0, i - 1)),
        decreases ls.len() - i,
    {
        let ghost prefix = body.subrange(0, i - 1);
        assert(body.subrange(0, i as int).drop_last() =~= prefix);
        assert(body[i - 1] == ls@[i as int]@);
        match parse_network_row(ls[i].as_str()) {
            Some(p) => {
                out.push(p);
                assert(id_views(out@) =~= network_rows(prefix).push((p.0, p.1@)));
            },
            None => {},
        }
        i += 1;
    }
    assert(body.subrange(0, ls.len() - 1) =~= body);
    out
}

/// The reply `reply` to `cmd` is an acknowledgement.
pub open spec fn reply_ok(reply: Seq<char>) -> bool {
    trim(reply) == "OK"@
}

/// Checks the reply to a command that answers `OK` on success.
pub fn check_ok_reply(cmd: &str, reply: &str) -> (r: Result<(), NetworkError>)
    ensures
        reply_ok(reply@) ==> r is Ok,
        !reply_ok(reply@) ==> wifi_err(r, "'"@ + cmd@ + "' failed: "@ + reply@),
{
    let t = trim_string(reply);
    if str_eq(t.as_str(), "OK") {
        Ok(())
    } else {
        let mut m = crate::errors::join3("'", cmd, "' failed: ");
        m.append(reply);
        Err(NetworkError::Wifi(m))
    }
}

/// Whether a `PING` reply is `PONG`.
pub fn is_pong(reply: &str) -> (r: bool)
    ensures
        r == (trim(reply@) == "PONG"@),
{
    let t = trim_string(reply);
    str_eq(t.as_str(), "PONG")
}

/// Reads the id out of an `ADD_NETWORK` reply.
pub fn parse_add_network_reply(reply: &str) -> (r: Result<u32, NetworkError>)
    ensures
        match parse_unsigned(trim(reply@), u32::MAX as int) {
            Some(n) => r == Ok::<u32, NetworkError>(n as u32),
            None => wifi_err(r, "unexpected ADD_NETWORK reply: "@ + reply@),
        },
{
    let t = trim_string(reply);
    let v = chars_of(t.as_str());
    assert(v@.subrange(0, v.len() as int) =~= v@);
    match parse_unsigned_at(&v, 0, v.len(), u32::MAX as u64) {
        Some(n) => Ok(n as u32),
        None => Err(NetworkError::Wifi(join2("unexpected ADD_NETWORK reply: ", reply))),
    }
}

/// A reply with trailing whitespace removed, as replies are compared.
pub fn normalize_reply(raw: &str) -> (r: String)
    ensures
        r@ == trim_end(raw@),
{
    let v = chars_of(raw);
    let mut b = v.len();
    assert(v@.subrange(0, b as int) =~= v@);
    while b > 0 && crate::text::is_ws_exec(v[b - 1])
        invariant
            b <= v.len(),
            trim_end(v@.subrange(0, b as int)) == trim_end(v@),
        decreases b,
    {
        proof {
            crate::text::lemma_trim_end_step(v@, 0, b as int);
            assert(v@.subrange(0, v.len() as int) =~= v@);
        }
        b -= 1;
    }
    proof {
        assert(v@.subrange(0, v.len() as int) =~= v@);
    }
    string_of(&v, 0, b)
}

/// `SET_NETWORK <id> <key> "<value>"`, after checking that `value` cannot
/// break out of the quotes.
pub fn set_network_quoted_command(id: u32, key: &str, value: &str) -> (r: Result<
    String,
    NetworkError,
>)
    ensures
        quoted_value_ok(value@) ==> (r matches Ok(c) && c@ == "SET_NETWORK "@ + decimal(id as nat)
            + " "@ + key@ + " \""@ + value@ + "\""@),
        !quoted_value_ok(value@) ==> wifi_err(
            r,
            key@ + " may not contain a quote, backslash, or control character"@,
        ),
{
    match validate_quoted_value(key, value) {
        Err(e) => Err(e),
        Ok(()) => {
            let mut c = String::from_str("SET_NETWORK ");
            let n = u64_to_string(id as u64);
            c.append(n.as_str());
            c.append(" ");
            c.append(key);
            c.append(" \"");
            c.append(value);
            c.append("\"");
            Ok(c)
        },
    }
}

/// `SET_NETWORK <id> <key> <value>`.
pub fn set_network_raw_command(id: u32, key: &str, value: &str) -> (c: String)
    ensures
        c@ == "SET_NETWORK "@ + decimal(id as nat) + " "@ + key@ + " "@ + value@,
{
    let mut c = String::from_str("SET_NETWORK ");
    let n = u64_to_string(id as u64);
    c.append(n.as_str());
    c.append(" ");
    c.append(key);
    c.append(" ");
    c.append(value);
    c
}

/// `<verb> <id>`, for `ENABLE_NETWORK`, `DISABLE_NETWORK`,
/// `SELECT_NETWORK` and `REMOVE_NETWORK`.
pub fn network_command(verb: &str, id: u32) -> (c: String)
    ensures
        c@ == verb@ + " "@ + decimal(id as nat),
{
    let mut c = String::from_str(verb);
    c.append(" ");
    let n = u64_to_string(id as u64);
    c.append(n.as_str());
    c
}

/// Where the control socket of `ifname` is, after checking the name.
pub fn server_path(ctrl_dir: &str, ifname: &str) -> (r: Result<String, NetworkError>)
    ensures
        r matches Ok(p) ==> p@ == ctrl_dir@ + "/"@ + ifname@,
        r is Ok <== validate_interface_name_ok(ifname),
        r is Err ==> !validate_interface_name_ok(ifname),
{
    match validate_interface_name(ifname) {
        Err(e) => Err(e),
        Ok(()) => Ok(crate::errors::join3(ctrl_dir, "/", ifname)),
    }
}

/// What `validate_interface_name` accepts.
pub open spec fn validate_interface_name_ok(name: &str) -> bool {
    crate::security::validation::interface_name_len_ok(name)
        && crate::security::validation::interface_name_chars_ok(name@)
}

/// The name of an unsolicited event line, without the `<level>` priority
/// prefix wpa_supplicant puts in front of it.
pub open spec fn event_name_spec(line: Seq<char>) -> Seq<char> {
    if line.len() > 0 && line[0] == '<' {
        match split_once(line.drop_first(), '>') {
            Some((_, rest)) => rest,
            None => line,
        }
    } else {
        line
    }
}

pub fn event_name(line: &str) -> (r: String)
    ensures
        r@ == event_name_spec(line@),
{
    let v = chars_of(line);
    if v.len() > 0 && v[0] == '<' {
        match crate::text::find_from(&v, 1, '>') {
            Some(i) => {
                proof {
                    let t = line@.drop_first();
                    crate::text::lemma_find_char(t, '>');
                    assert(t =~= v@.subrange(1, v.len() as int));
                    match find_char(t, '>') {
                        Some(j) => {
                            assert(j + 1 == i);
                            assert(t.subrange(j + 1, t.len() as int) =~= v@.subrange(
                                i + 1,
                                v.len() as int,
                            ));
                        },
                        None => {
                            assert(t[i - 1] == '>');
                        },
                    }
                }
                return string_of(&v, i + 1, v.len());
            },
            None => {
                proof {
                    let t = line@.drop_first();
                    crate::text::lemma_find_char(t, '>');
                    assert(t =~= v@.subrange(1, v.len() as int));
                    match find_char(t, '>') {
                        Some(j) => {
                            assert(v@[j + 1] == '>');
                        },
                        None => {},
                    }
                }
            },
        }
    }
    String::from_str(line)
}

/// Whether an event line names one of `names` (as a prefix of the event
/// name).
pub fn event_matches(line: &str, names: &Vec<String>) -> (r: bool)
    ensures
        r == exists|i: int|
            0 <= i < names.len() && starts_with(event_name_spec(line@), #[trigger] names@[i]@),
{
    let ev = event_name(line);
    let mut i: usize = 0;
    while i < names.len()
        invariant
            i <= names.len(),
            ev@ == event_name_spec(line@),
            forall|j: int| 0 <= j < i ==> !starts_with(ev@, #[trigger] names@[j]@),
        decreases names.len() - i,
    {
        if crate::text::starts_with_str(ev.as_str(), names[i].as_str()) {
            return true;
        }
        i += 1;
    }
    false
}

} // verus!
