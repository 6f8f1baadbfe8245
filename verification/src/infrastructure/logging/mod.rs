//! Rules of the logging setup: the levels, the default filter and what
//! the request logger notes.

use vstd::prelude::*;
use vstd::string::StringExecFns;

pub mod middleware;

pub use middleware::RequestLogger;

verus! {

/// Verbosity of the log, most verbose first.
#[derive(Debug, Clone, Copy, PartialEq, Eq, Structural)]
pub enum Level {
    Trace,
    Debug,
    Info,
    Warn,
    Error,
}

impl Level {
    /// Name of the level as a filter directive writes it.
    pub open spec fn name(self) -> Seq<char> {
        match self {
            Level::Trace => "TRACE"@,
            Level::Debug => "DEBUG"@,
            Level::Info => "INFO"@,
            Level::Warn => "WARN"@,
            Level::Error => "ERROR"@,
        }
    }

    /// Name of the level as a string slice.
    pub fn as_str(&self) -> (name: &'static str)
        ensures
            name@ == self.name(),
    {
        match self {
            Level::Trace => "TRACE",
            Level::Debug => "DEBUG",
            Level::Info => "INFO",
            Level::Warn => "WARN",
            Level::Error => "ERROR",
        }
    }
}

/// Configuration for the logging system.
#[derive(Debug, Clone, Copy, PartialEq, Eq, Structural)]
pub struct LoggingConfig {
    /// The log level for the application.
    pub level: Level,
    /// Whether to log in JSON format.
    pub json_format: bool,
    /// Whether to log request and response bodies.
    pub log_bodies: bool,
}

impl Default for LoggingConfig {
    fn default() -> (config: LoggingConfig)
        ensures
            config == (LoggingConfig { level: Level::Info, json_format: false, log_bodies: false }),
    {
        LoggingConfig { level: Level::Info, json_format: false, log_bodies: false }
    }
}

/// The filter used when the environment names none: the application at
/// the configured level, the web server at `info`.
pub open spec fn default_filter(level: Level) -> Seq<char> {
    "jump="@ + level.name() + ",actix_web=info,actix_server=info"@
}

impl LoggingConfig {
    /// Writes the filter used when the environment names none.
    pub fn filter_directive(&self) -> (directive: String)
        ensures
            directive@ == default_filter(self.level),
    {
        String::from_str("jump=").concat(self.level.as_str()).concat(
            ",actix_web=info,actix_server=info",
        )
    }
}

} // verus!
