//! The command-line settings, once parsed.
use vstd::prelude::*;

use log::LevelFilter;

verus! {

/// The `log` crate's `LevelFilter`, carried through unread.
#[verifier::external_type_specification]
#[verifier::external_body]
pub struct ExLevelFilter(LevelFilter);

/// Where the settings file is, how much to log, and how long to wait before starting.
pub struct CliArgs {
    monitor_config: String,
    log_level: LevelFilter,
    delay_start: Option<u64>,
}

/// What a [`CliArgs`] holds.
pub struct CliModel {
    pub monitor_config: Seq<char>,
    pub log_level: LevelFilter,
    pub delay_start: Option<u64>,
}

impl View for CliArgs {
    type V = CliModel;

    closed spec fn view(&self) -> CliModel {
        CliModel {
            monitor_config: self.monitor_config@,
            log_level: self.log_level,
            delay_start: self.delay_start,
        }
    }
}

impl CliArgs {
    pub fn new(monitor_config: String, log_level: LevelFilter, delay_start: Option<u64>) -> (r:
        CliArgs)
        ensures
            r@ == (CliModel { monitor_config: monitor_config@, log_level, delay_start }),
    {
        CliArgs { monitor_config, log_level, delay_start }
    }

    /// How much the process logs.
    pub fn log_level(&self) -> (r: LevelFilter)
        ensures
            r == self@.log_level,
    {
        self.log_level
    }

    /// The path of the settings file.
    pub fn monitor_config(&self) -> (r: Option<&str>)
        ensures
            r matches Some(p) && p@ == self@.monitor_config,
    {
        Some(self.monitor_config.as_str())
    }

    /// Seconds to wait before the first poll, if any.
    pub fn delay(&self) -> (r: Option<u64>)
        ensures
            r == self@.delay_start,
    {
        self.delay_start
    }
}

} // verus!
