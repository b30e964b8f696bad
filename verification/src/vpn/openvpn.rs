//! OpenVPN sessions, as far as the daemon decides anything about them:
//! the `--up`/`--down` scripts that report the tunnel device, the command
//! line, and what each line of the management interface's `>STATE:` feed
//! means. The `openvpn` process and its sockets are the daemon's.

use crate::errors::{join2, join3, NetworkError};
use crate::text::{chars_of, find_char, split_char, split_on, starts_with, str_eq, string_of, trim_end};
use vstd::prelude::*;

verus! {

/// The live status of a session: OpenVPN's own name for its last state
/// (`CONNECTING`, `CONNECTED`, `RECONNECTING`, ...) and, once known, the
/// tun/tap device it picked.
#[derive(Debug, Clone, Default)]
pub struct SessionStatus {
    pub state: String,
    pub ifname: Option<String>,
}

/// What the management connection told the daemon that was waiting for
/// the tunnel to come up.
#[derive(Debug, Clone)]
pub enum MgmtEvent {
    Connected(Option<String>),
    Failed(String),
}

/// The `--up` script: writes the device name OpenVPN passes in `$dev` to
/// `ifname_file`.
pub fn up_script(ifname_file: &str) -> (s: String)
    ensures
        s@ == "#!/bin/sh\numask 077\nprintf '%s' \"$dev\" > '"@ + ifname_file@ + "'\n"@,
{
    join3("#!/bin/sh\numask 077\nprintf '%s' \"$dev\" > '", ifname_file, "'\n")
}

/// The `--down` script: empties `ifname_file`.
pub fn down_script(ifname_file: &str) -> (s: String)
    ensures
        s@ == "#!/bin/sh\n: > '"@ + ifname_file@ + "'\n"@,
{
    join3("#!/bin/sh\n: > '", ifname_file, "'\n")
}

/// The interface name assumed when the `--up` script's output never
/// appears.
pub fn fallback_ifname(profile_id: &str) -> (s: String)
    ensures
        s@ == "openvpn-"@ + profile_id@,
{
    join2("openvpn-", profile_id)
}

pub open spec fn strs(v: Seq<String>) -> Seq<Seq<char>> {
    v.map_values(|s: String| s@)
}

/// The `openvpn` command line (after the program name): the config, the
/// credentials file if any, the management socket the daemon listens on
/// (OpenVPN connects out to it), script security and the up/down scripts,
/// and daemonizing under a name that carries the profile id.
pub open spec fn openvpn_args_spec(
    config: Seq<char>,
    auth_file: Option<Seq<char>>,
    mgmt_sock: Seq<char>,
    up: Seq<char>,
    down: Seq<char>,
    profile_id: Seq<char>,
) -> Seq<Seq<char>> {
    seq!["--config"@, config] + match auth_file {
        Some(f) => seq!["--auth-user-pass"@, f],
        None => seq![],
    } + seq![
        "--management"@,
        mgmt_sock,
        "unix"@,
        "--management-client"@,
        "--script-security"@,
        "2"@,
        "--up"@,
        up,
        "--up-restart"@,
        "--down"@,
        down,
        "--daemon"@,
        "mitos-openvpn-"@ + profile_id,
    ]
}

fn s(x: &str) -> (r: String)
    ensures
        r@ == x@,
{
    String::from_str(x)
}

pub fn openvpn_args(
    config: &str,
    auth_file: Option<&str>,
    mgmt_sock: &str,
    up: &str,
    down: &str,
    profile_id: &str,
) -> (args: Vec<String>)
    ensures
        strs(args@) == openvpn_args_spec(
            config@,
            match auth_file {
                Some(f) => Some(f@),
                None => None,
            },
            mgmt_sock@,
            up@,
            down@,
            profile_id@,
        ),
{
    let mut a: Vec<String> = Vec::new();
    a.push(s("--config"));
    a.push(s(config));
    if let Some(f) = auth_file {
        a.push(s("--auth-user-pass"));
        a.push(s(f));
    }
    a.push(s("--management"));
    a.push(s(mgmt_sock));
    a.push(s("unix"));
    a.push(s("--management-client"));
    a.push(s("--script-security"));
    a.push(s("2"));
    a.push(s("--up"));
    a.push(s(up));
    a.push(s("--up-restart"));
    a.push(s("--down"));
    a.push(s(down));
    a.push(s("--daemon"));
    a.push(join2("mitos-openvpn-", profile_id));
    assert(strs(a@) =~= openvpn_args_spec(
        config@,
        match auth_file {
            Some(f) => Some(f@),
            None => None,
        },
        mgmt_sock@,
        up@,
        down@,
        profile_id@,
    ));
    a
}

/// The state named by a management-interface line: the second
/// comma-separated field after `>STATE:` (trailing whitespace ignored);
/// `None` for any other line.
pub open spec fn line_state(line: Seq<char>) -> Option<Seq<char>> {
    let t = trim_end(line);
    if starts_with(t, ">STATE:"@) && split_char(t.subrange(7, t.len() as int), ',').len() >= 2 {
        Some(split_char(t.subrange(7, t.len() as int), ',')[1])
    } else {
        None
    }
}

pub fn state_of_line(line: &str) -> (r: Option<String>)
    ensures
        match line_state(line@) {
            Some(st) => (r matches Some(x) && x@ == st),
            None => r is None,
        },
{
    let v = chars_of(line);
    let mut end = v.len();
    assert(v@.subrange(0, end as int) =~= v@);
    while end > 0 && crate::text::is_ws_exec(v[end - 1])
        invariant
            end <= v.len(),
            v@ == line@,
            trim_end(v@.subrange(0, end as int)) == trim_end(line@),
        decreases end,
    {
        proof {
            crate::text::lemma_trim_end_step(v@, 0, end as int);
        }
        end -= 1;
    }
    let t = string_of(&v, 0, end);
    proof {
        assert(trim_end(v@.subrange(0, end as int)) == v@.subrange(0, end as int));
    }
    if !crate::text::starts_with_str(t.as_str(), ">STATE:") {
        return None;
    }
    proof {
        reveal_strlit(">STATE:");
    }
    let tv = chars_of(t.as_str());
    let rest = string_of(&tv, 7, tv.len());
    let fields = split_on(rest.as_str(), ',');
    proof {
        assert(crate::text::views(fields@).len() == fields.len());
    }
    if fields.len() < 2 {
        return None;
    }
    assert(fields@[1]@ == split_char(rest@, ',')[1]);
    Some(fields[1].clone())
}

/// Follows a session's management feed. Until the first `CONNECTED` or
/// failure is reported, the daemon is waiting on it; after that the feed
/// only keeps the status current.
#[derive(Debug, Clone)]
pub struct MgmtTracker {
    pub status: SessionStatus,
    pub waiting: bool,
}

/// What to do with a line of the feed.
#[derive(Debug, Clone)]
pub enum LineAction {
    /// Nothing more (not a state line, or a state that needs no report).
    Nothing,
    /// The tunnel is up: read the device name the up script wrote, then
    /// call `connected`.
    ReadIfname,
    /// Tell the waiting daemon this.
    Report(MgmtEvent),
}

impl MgmtTracker {
    pub fn new() -> (t: MgmtTracker)
        ensures
            t.waiting,
            t.status.state@.len() == 0,
            t.status.ifname is None,
    {
        MgmtTracker { status: SessionStatus { state: String::new(), ifname: None }, waiting: true }
    }

    /// Takes in one line of the feed.
    pub fn on_line(&mut self, line: &str) -> (a: LineAction)
        ensures
            match line_state(line@) {
                None => a is Nothing && final(self).status.state@ == old(self).status.state@ && final(self).waiting
                    == old(self).waiting,
                Some(st) => {
                    &&& final(self).status.state@ == st
                    &&& st == "CONNECTED"@ ==> a is ReadIfname && final(self).waiting == old(self).waiting
                    &&& (st == "AUTH_FAILED"@ || st == "FATAL"@) ==> if old(self).waiting {
                        (a matches LineAction::Report(MgmtEvent::Failed(m)) && m@ == "openvpn reported state "@ + st)
                            && !final(self).waiting
                    } else {
                        a is Nothing && !final(self).waiting
                    }
                    &&& !(st == "CONNECTED"@ || st == "AUTH_FAILED"@ || st == "FATAL"@) ==> a is Nothing
                        && final(self).waiting == old(self).waiting
                },
            },
            final(self).status.ifname == old(self).status.ifname,
    {
        proof {
            reveal_strlit("CONNECTED");
            reveal_strlit("AUTH_FAILED");
            reveal_strlit("FATAL");
        }
        match state_of_line(line) {
            None => LineAction::Nothing,
            Some(st) => {
                let connected = str_eq(st.as_str(), "CONNECTED");
                let failed = str_eq(st.as_str(), "AUTH_FAILED") || str_eq(st.as_str(), "FATAL");
                let msg = join2("openvpn reported state ", st.as_str());
                self.status.state = st;
                if connected {
                    LineAction::ReadIfname
                } else if failed {
                    if self.waiting {
                        self.waiting = false;
                        LineAction::Report(MgmtEvent::Failed(msg))
                    } else {
                        LineAction::Nothing
                    }
                } else {
                    LineAction::Nothing
                }
            },
        }
    }

    /// After `CONNECTED`: records the device name if the up script
    /// produced one, and reports the tunnel up if the daemon is waiting.
    pub fn connected(&mut self, ifname: Option<String>) -> (r: Option<MgmtEvent>)
        ensures
            match ifname {
                Some(n) => (final(self).status.ifname matches Some(x) && x@ == n@),
                None => final(self).status.ifname == old(self).status.ifname,
            },
            old(self).waiting ==> (r matches Some(MgmtEvent::Connected(x)) && x == ifname) && !final(self).waiting,
            !old(self).waiting ==> r is None && !final(self).waiting,
            final(self).status.state == old(self).status.state,
    {
        if let Some(n) = &ifname {
            self.status.ifname = Some(n.clone());
        }
        if self.waiting {
            self.waiting = false;
            Some(MgmtEvent::Connected(ifname))
        } else {
            None
        }
    }

    /// The feed ended; if the daemon is still waiting, it is told so.
    pub fn closed(&mut self) -> (r: Option<MgmtEvent>)
        ensures
            old(self).waiting ==> (r matches Some(MgmtEvent::Failed(m))
                && m@ == "management connection closed before reaching CONNECTED"@),
            !old(self).waiting ==> r is None,
            !final(self).waiting,
    {
        if self.waiting {
            self.waiting = false;
            Some(MgmtEvent::Failed(String::from_str("management connection closed before reaching CONNECTED")))
        } else {
            None
        }
    }
}

/// The error when a session reports a failure before coming up.
pub fn connect_failed(msg: &str) -> (e: NetworkError)
    ensures
        e.view() == (crate::errors::ErrKind::Vpn, "openvpn failed to connect: "@ + msg@),
{
    NetworkError::Vpn(join2("openvpn failed to connect: ", msg))
}

/// The error for disconnecting an interface with no tracked session.
pub fn no_session(ifname: &str) -> (e: NetworkError)
    ensures
        e.view() == (crate::errors::ErrKind::NotFound, "no tracked openvpn session for '"@ + ifname@ + "'"@),
{
    NetworkError::NotFound(join3("no tracked openvpn session for '", ifname, "'"))
}

} // verus!
