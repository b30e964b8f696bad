//! Log levels and line rendering.

use vstd::prelude::*;

verus! {

#[derive(Debug, Clone, Copy, PartialEq, Eq, Structural)]
pub enum Level {
    Error,
    Warn,
    Info,
    Debug,
}

pub open spec fn rank(l: Level) -> int {
    match l {
        Level::Error => 0,
        Level::Warn => 1,
        Level::Info => 2,
        Level::Debug => 3,
    }
}

pub open spec fn level_for_name(name: Seq<char>) -> Level {
    if name == "error"@ {
        Level::Error
    } else if name == "warn"@ {
        Level::Warn
    } else if name == "debug"@ || name == "trace"@ {
        Level::Debug
    } else {
        Level::Info
    }
}

pub open spec fn tag(l: Level) -> Seq<char> {
    match l {
        Level::Error => "ERROR"@,
        Level::Warn => "WARN"@,
        Level::Info => "INFO"@,
        Level::Debug => "DEBUG"@,
    }
}

/// The line a message at `level` becomes, if it passes `min_level`:
/// `[LEVEL] message`.
pub open spec fn log_line(min_level: Level, level: Level, msg: Seq<char>) -> Option<Seq<char>> {
    if rank(level) <= rank(min_level) {
        Some("["@ + tag(level) + "] "@ + msg)
    } else {
        None
    }
}

/// The logging configuration: the least severe level still emitted.
pub struct Logger {
    pub min_level: Level,
}

impl Logger {
    /// `Info` until configured otherwise.
    pub fn new() -> (l: Logger)
        ensures
            l.min_level == Level::Info,
    {
        Logger { min_level: Level::Info }
    }
}

/// Sets the level from `general.log-level`: `error`, `warn`, `debug` (or
/// `trace`); anything else means `info`.
pub fn set_level(logger: &mut Logger, name: &str)
    ensures
        final(logger).min_level == level_for_name(name@),
{
    let lvl = if crate::text::str_eq(name, "error") {
        Level::Error
    } else if crate::text::str_eq(name, "warn") {
        Level::Warn
    } else if crate::text::str_eq(name, "debug") || crate::text::str_eq(name, "trace") {
        Level::Debug
    } else {
        Level::Info
    };
    logger.min_level = lvl;
}

fn level_rank(l: Level) -> (r: u8)
    ensures
        r == rank(l),
{
    match l {
        Level::Error => 0,
        Level::Warn => 1,
        Level::Info => 2,
        Level::Debug => 3,
    }
}

/// Whether messages at `level` are emitted.
pub fn enabled(logger: &Logger, level: Level) -> (r: bool)
    ensures
        r == (rank(level) <= rank(logger.min_level)),
{
    level_rank(level) <= level_rank(logger.min_level)
}

fn tag_of(level: Level) -> (r: &'static str)
    ensures
        r@ == tag(level),
{
    match level {
        Level::Error => "ERROR",
        Level::Warn => "WARN",
        Level::Info => "INFO",
        Level::Debug => "DEBUG",
    }
}

/// The line to write for `msg` at `level`, or `None` if filtered out.
pub fn log(logger: &Logger, level: Level, msg: &str) -> (r: Option<String>)
    ensures
        match log_line(logger.min_level, level, msg@) {
            Some(l) => r matches Some(s) && s@ == l,
            None => r is None,
        },
{
    if !enabled(logger, level) {
        return None;
    }
    let mut line = String::from_str("[");
    line.append(tag_of(level));
    line.append("] ");
    line.append(msg);
    Some(line)
}

pub fn error(logger: &Logger, msg: &str) -> (r: Option<String>)
    ensures
        match log_line(logger.min_level, Level::Error, msg@) {
            Some(l) => r matches Some(s) && s@ == l,
            None => r is None,
        },
{
    log(logger, Level::Error, msg)
}

pub fn warn(logger: &Logger, msg: &str) -> (r: Option<String>)
    ensures
        match log_line(logger.min_level, Level::Warn, msg@) {
            Some(l) => r matches Some(s) && s@ == l,
            None => r is None,
        },
{
    log(logger, Level::Warn, msg)
}

pub fn info(logger: &Logger, msg: &str) -> (r: Option<String>)
    ensures
        match log_line(logger.min_level, Level::Info, msg@) {
            Some(l) => r matches Some(s) && s@ == l,
            None => r is None,
        },
{
    log(logger, Level::Info, msg)
}

pub fn debug(logger: &Logger, msg: &str) -> (r: Option<String>)
    ensures
        match log_line(logger.min_level, Level::Debug, msg@) {
            Some(l) => r matches Some(s) && s@ == l,
            None => r is None,
        },
{
    log(logger, Level::Debug, msg)
}

/// Errors are emitted at every level, and every message emitted at some
/// level is also emitted at any more verbose one.
pub proof fn lemma_levels_nest(min: Level, more_verbose: Level, level: Level, msg: Seq<char>)
    requires
        rank(min) <= rank(more_verbose),
    ensures
        log_line(min, Level::Error, msg) is Some,
        log_line(min, level, msg) is Some ==> log_line(more_verbose, level, msg) is Some,
{
}

} // verus!
