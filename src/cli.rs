//! The command-line surface: subcommands and global flags.
use vstd::prelude::*;

use crate::log::Level;

verus! {

/// Parsed command-line arguments.
#[derive(Debug, Clone, Copy, PartialEq, Eq, Structural)]
pub struct Args {
    pub command: Command,
    /// How many times the verbosity flag was given.
    pub log_level: u8,
    pub no_color: bool,
}

#[derive(Debug, Clone, Copy, PartialEq, Eq, Structural)]
pub enum Command {
    /// Build, then watch and serve the output.
    Dev(DevCommand),
    /// Build once.
    Build(BuildCommand),
}

#[derive(Debug, Clone, Copy, PartialEq, Eq, Structural)]
pub struct DevCommand {}

#[derive(Debug, Clone, Copy, PartialEq, Eq, Structural)]
pub struct BuildCommand {}

/// No flag is Warn, one Info, two Debug, three or more Trace.
pub open spec fn verbosity_level(count: u8) -> Level {
    if count == 0 {
        Level::Warn
    } else if count == 1 {
        Level::Info
    } else if count == 2 {
        Level::Debug
    } else {
        Level::Trace
    }
}

impl Args {
    /// The maximum log level that the verbosity flags select.
    pub fn log_level(&self) -> (r: Level)
        ensures
            r == verbosity_level(self.log_level),
    {
        match self.log_level {
            0 => Level::Warn,
            1 => Level::Info,
            2 => Level::Debug,
            _ => Level::Trace,
        }
    }
}

} // verus!
