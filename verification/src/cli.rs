//! The daemon's command line: `[--config-dir <path>] [--version] [--help]`.

use crate::text::str_eq;
use vstd::prelude::*;

verus! {

/// The configuration directory when none is given.
pub const DEFAULT_CONFIG_DIR: &'static str = "/etc/mitos-network";

#[derive(Debug, Clone)]
pub enum CliAction {
    /// Run the daemon with the configuration in this directory.
    Run(String),
    /// Print the version and exit.
    Version,
    /// Print the usage and exit.
    Help,
    /// `--config-dir` without its path: this message, exit status 2.
    MissingPath(String),
    /// An argument that means nothing: print it and the usage, exit
    /// status 2.
    Unrecognized(String),
}

/// What a command line asks for, as contracts speak of it.
pub enum ActionView {
    Run(Seq<char>),
    Version,
    Help,
    MissingPath(Seq<char>),
    Unrecognized(Seq<char>),
}

/// What the arguments (program name excluded) from `i` on ask for, with
/// `dir` the configuration directory chosen so far, read left to right:
/// `--version` and `--help` end the reading at once, a later
/// `--config-dir` overrides an earlier one.
pub open spec fn cli_spec(args: Seq<Seq<char>>, i: int, dir: Seq<char>) -> ActionView
    decreases args.len() - i,
{
    if i < 0 || i >= args.len() {
        ActionView::Run(dir)
    } else if args[i] == "--config-dir"@ {
        if i + 1 < args.len() {
            cli_spec(args, i + 2, args[i + 1])
        } else {
            ActionView::MissingPath("--config-dir requires a path argument"@)
        }
    } else if args[i] == "--version"@ {
        ActionView::Version
    } else if args[i] == "--help"@ {
        ActionView::Help
    } else {
        ActionView::Unrecognized(args[i])
    }
}

pub open spec fn action_view(a: CliAction) -> ActionView {
    match a {
        CliAction::Run(d) => ActionView::Run(d@),
        CliAction::Version => ActionView::Version,
        CliAction::Help => ActionView::Help,
        CliAction::MissingPath(m) => ActionView::MissingPath(m@),
        CliAction::Unrecognized(a) => ActionView::Unrecognized(a@),
    }
}

pub fn parse_args(args: &Vec<String>) -> (a: CliAction)
    ensures
        action_view(a) == cli_spec(args@.map_values(|s: String| s@), 0, DEFAULT_CONFIG_DIR@),
{
    let ghost sv = args@.map_values(|s: String| s@);
    let mut dir = String::from_str(DEFAULT_CONFIG_DIR);
    let mut i: usize = 0;
    while i < args.len()
        invariant
            i <= args.len() + 1,
            sv == args@.map_values(|s: String| s@),
            cli_spec(sv, 0, DEFAULT_CONFIG_DIR@) == cli_spec(sv, i as int, dir@),
        decreases args.len() + 1 - i,
    {
        let a = args[i].as_str();
        if str_eq(a, "--config-dir") {
            if i + 1 < args.len() {
                dir = args[i + 1].clone();
                i += 2;
            } else {
                return CliAction::MissingPath(String::from_str("--config-dir requires a path argument"));
            }
        } else if str_eq(a, "--version") {
            return CliAction::Version;
        } else if str_eq(a, "--help") {
            return CliAction::Help;
        } else {
            return CliAction::Unrecognized(args[i].clone());
        }
    }
    CliAction::Run(dir)
}

/// The connectivity-check interval in force: at least 5 seconds.
pub fn connectivity_interval(configured_secs: u64) -> (s: u64)
    ensures
        s == if configured_secs >= 5 { configured_secs } else { 5 },
{
    if configured_secs >= 5 {
        configured_secs
    } else {
        5
    }
}

/// The Wi-Fi scan interval in force: at least 10 seconds.
pub fn wifi_scan_interval(configured_secs: u64) -> (s: u64)
    ensures
        s == if configured_secs >= 10 { configured_secs } else { 10 },
{
    if configured_secs >= 10 {
        configured_secs
    } else {
        10
    }
}

} // verus!
