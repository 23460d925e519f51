//! The process's logging configuration: which targets are logged at which
//! level, and the output format.  Opening the log sink itself is outside
//! the library; the handle it returns is owned by the process entry point
//! for the process's lifetime.

use vstd::prelude::*;
use vstd::string::*;

verus! {

/// Verbosity of one logging target.
#[derive(Clone, Copy, Debug, PartialEq, Eq, Structural)]
pub enum LogLevel {
    Trace,
    Debug,
    Info,
    Warn,
    Error,
}

/// Shape of the log output.
#[derive(Clone, Copy, Debug, PartialEq, Eq, Structural)]
pub enum LogFormat {
    Default,
    Json,
}

/// The format to log with: the one asked for, or the default.
pub fn log_format_or_default(format: Option<LogFormat>) -> (r: LogFormat)
    ensures
        format matches Some(f) ==> r == f,
        format is None ==> r == LogFormat::Default,
{
    match format {
        Some(f) => f,
        None => LogFormat::Default,
    }
}

/// The logging targets the gateway configures, with the level of each.
pub fn logging_targets() -> (r: Vec<(String, LogLevel)>)
    ensures
        r@.len() == 8,
        r@[0].0@ == "autonomi-cli"@ && r@[0].1 == LogLevel::Trace,
        r@[1].0@ == "autonomi"@ && r@[1].1 == LogLevel::Trace,
        r@[2].0@ == "evmlib"@ && r@[2].1 == LogLevel::Trace,
        r@[3].0@ == "ant_evm"@ && r@[3].1 == LogLevel::Trace,
        r@[4].0@ == "ant_networking"@ && r@[4].1 == LogLevel::Info,
        r@[5].0@ == "ant_build_info"@ && r@[5].1 == LogLevel::Trace,
        r@[6].0@ == "ant_logging"@ && r@[6].1 == LogLevel::Trace,
        r@[7].0@ == "ant_protocol"@ && r@[7].1 == LogLevel::Trace,
{
    let mut r: Vec<(String, LogLevel)> = Vec::new();
    r.push((String::from_str("autonomi-cli"), LogLevel::Trace));
    r.push((String::from_str("autonomi"), LogLevel::Trace));
    r.push((String::from_str("evmlib"), LogLevel::Trace));
    r.push((String::from_str("ant_evm"), LogLevel::Trace));
    r.push((String::from_str("ant_networking"), LogLevel::Info));
    r.push((String::from_str("ant_build_info"), LogLevel::Trace));
    r.push((String::from_str("ant_logging"), LogLevel::Trace));
    r.push((String::from_str("ant_protocol"), LogLevel::Trace));
    r
}

} // verus!
