//! Tails a Minecraft server log, turns its lines into classified records and
//! selects, for each subscriber, the records to forward.
use vstd::prelude::*;

pub mod cli;
pub mod configuration;
pub mod filter;
pub mod log_monitor;
pub mod log_record;
pub mod text;

pub use cli::CliArgs;
pub use log_record::{LogClass, LogLevel, LogRecord};

verus! {

/// The target under which the monitor logs.
pub const LOG_TARGET: &'static str = "minecraft-log-monitor";

} // verus!
