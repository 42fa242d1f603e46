use vstd::prelude::*;
use crate::config::LogConfig;

verus! {

/// Severity threshold of the log output.
#[derive(Clone, Copy, Debug, PartialEq, Eq, Structural)]
pub enum LogLevel {
    Trace,
    Debug,
    Info,
    Warn,
    Error,
}

/// What `str::to_lowercase` gives for a string: its Unicode lowercase mapping.
pub uninterp spec fn lowercase_of(s: Seq<char>) -> Seq<char>;

/// Calls `str::to_lowercase`. Claimed: the result is `lowercase_of` of the argument,
/// a function of the argument alone. Which characters the Unicode tables map to which
/// is left unsaid.
#[verifier::external_body]
fn to_lowercase(s: &str) -> (res: String)
    ensures
        res@ == lowercase_of(s@),
{
    s.to_lowercase()
}

/// The level that a lowercase level name selects; unknown names select `Info`.
pub open spec fn level_of_lowercase(name: Seq<char>) -> LogLevel {
    if name == "trace"@ {
        LogLevel::Trace
    } else if name == "debug"@ {
        LogLevel::Debug
    } else if name == "info"@ {
        LogLevel::Info
    } else if name == "warn"@ || name == "warning"@ {
        LogLevel::Warn
    } else if name == "error"@ {
        LogLevel::Error
    } else {
        LogLevel::Info
    }
}

/// The level that a level name selects, compared after lowercasing.
pub open spec fn level_of_name(name: Seq<char>) -> LogLevel {
    level_of_lowercase(lowercase_of(name))
}

/// Selects the level for a name that is already in lowercase.
pub fn level_from_lowercase(name: &str) -> (res: LogLevel)
    ensures
        res == level_of_lowercase(name@),
{
    let name = name.to_owned();
    if name == "trace".to_owned() {
        LogLevel::Trace
    } else if name == "debug".to_owned() {
        LogLevel::Debug
    } else if name == "info".to_owned() {
        LogLevel::Info
    } else if name == "warn".to_owned() || name == "warning".to_owned() {
        LogLevel::Warn
    } else if name == "error".to_owned() {
        LogLevel::Error
    } else {
        LogLevel::Info
    }
}

/// Selects the level for a level name written in any letter case.
pub fn level_from_name(name: &str) -> (res: LogLevel)
    ensures
        res == level_of_name(name@),
{
    let lower = to_lowercase(name);
    level_from_lowercase(lower.as_str())
}

/// Logging switch and level, as last taken from the configuration.
pub struct MyLog {
    pub log_enable: bool,
    pub log_level: String,
}

impl MyLog {
    /// Logging off, level "info".
    pub fn new() -> (res: Self)
        ensures
            !res.log_enable,
            res.log_level@ == "info"@,
    {
        let log_enable = false;
        let log_level = "info".to_owned();
        MyLog { log_enable, log_level }
    }

    /// Takes over the configured switch and level. When logging is on, returns the
    /// level that the subscriber is to be installed with; when it is off, `None`.
    pub fn run(&mut self, log_config: LogConfig) -> (res: Option<LogLevel>)
        ensures
            final(self).log_enable == log_config.enable,
            final(self).log_level == log_config.level,
            res == (if log_config.enable {
                Some(level_of_name(log_config.level@))
            } else {
                None
            }),
    {
        self.log_enable = log_config.enable;
        self.log_level = log_config.level;
        if self.log_enable {
            Some(level_from_name(self.log_level.as_str()))
        } else {
            None
        }
    }
}

} // verus!
