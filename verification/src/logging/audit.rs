//! The security audit log: connection activations, credential changes,
//! firewall and VPN changes, one line each, kept apart from the daemon log.

use crate::text::{decimal, u64_to_string};
use vstd::prelude::*;

verus! {

/// `<unix-seconds> actor=<actor> action=<action> detail=<detail>` and a
/// newline.
pub open spec fn audit_line_spec(ts: u64, actor: Seq<char>, action: Seq<char>, detail: Seq<char>) -> Seq<char> {
    decimal(ts as nat) + " actor="@ + actor + " action="@ + action + " detail="@ + detail + "\n"@
}

pub fn audit_line(ts: u64, actor: &str, action: &str, detail: &str) -> (line: String)
    ensures
        line@ == audit_line_spec(ts, actor@, action@, detail@),
{
    let mut line = u64_to_string(ts);
    line.append(" actor=");
    line.append(actor);
    line.append(" action=");
    line.append(action);
    line.append(" detail=");
    line.append(detail);
    line.append("\n");
    line
}

/// The actor of a request made by user `uid`: `uid:<uid>`.
pub fn actor_of(uid: u32) -> (s: String)
    ensures
        s@ == "uid:"@ + decimal(uid as nat),
{
    let mut s = String::from_str("uid:");
    let n = u64_to_string(uid as u64);
    s.append(n.as_str());
    s
}

} // verus!
