//! Logging verbosity named in the configuration.

use vstd::prelude::*;
use vstd::string::*;

verus! {

/// How much the process logs, from nothing to everything.
#[derive(Copy, Clone, Debug, PartialEq, Eq, Structural, PartialOrd, Ord)]
pub enum LogLevel {
    Off,
    Error,
    Warn,
    Info,
    Debug,
    Trace,
}

impl Default for LogLevel {
    fn default() -> (r: LogLevel)
        ensures
            r == LogLevel::Info,
    {
        LogLevel::Info
    }
}

impl LogLevel {
    /// The variant's name, as a logger filter accepts it (`Info`).
    pub fn to_string(&self) -> (r: String)
        ensures
            r@ == match *self {
                LogLevel::Off => "Off"@,
                LogLevel::Error => "Error"@,
                LogLevel::Warn => "Warn"@,
                LogLevel::Info => "Info"@,
                LogLevel::Debug => "Debug"@,
                LogLevel::Trace => "Trace"@,
            },
    {
        match self {
            LogLevel::Off => String::from_str("Off"),
            LogLevel::Error => String::from_str("Error"),
            LogLevel::Warn => String::from_str("Warn"),
            LogLevel::Info => String::from_str("Info"),
            LogLevel::Debug => String::from_str("Debug"),
            LogLevel::Trace => String::from_str("Trace"),
        }
    }
}

} // verus!
