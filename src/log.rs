//! Log levels and the logging settings that are passed to whoever logs.
use vstd::prelude::*;

verus! {

#[derive(Debug, Clone, Copy, PartialEq, Eq, Structural)]
pub enum Level {
    Error,
    Warn,
    Info,
    Debug,
    Trace,
}

impl Level {
    /// Severity order: `Error` is 0, `Trace` is 4.
    pub open spec fn rank(self) -> nat {
        match self {
            Level::Error => 0,
            Level::Warn => 1,
            Level::Info => 2,
            Level::Debug => 3,
            Level::Trace => 4,
        }
    }

    pub fn index(&self) -> (r: usize)
        ensures
            r == self.rank(),
    {
        match self {
            Level::Error => 0,
            Level::Warn => 1,
            Level::Info => 2,
            Level::Debug => 3,
            Level::Trace => 4,
        }
    }

    pub open spec fn name(self) -> Seq<char> {
        match self {
            Level::Error => "ERROR"@,
            Level::Warn => "WARN"@,
            Level::Info => "INFO"@,
            Level::Debug => "DEBUG"@,
            Level::Trace => "TRACE"@,
        }
    }

    /// The terminal color sequence of the level.
    pub open spec fn color(self) -> Seq<char> {
        match self {
            Level::Error => "\x1b[31m"@,
            Level::Warn => "\x1b[33m"@,
            Level::Info => "\x1b[34m"@,
            Level::Debug => "\x1b[36m"@,
            Level::Trace => "\x1b[90m"@,
        }
    }

    pub open spec fn label_spec(self, colors: bool) -> Seq<char> {
        if colors {
            self.color() + self.name() + "\x1b[0m"@
        } else {
            self.name()
        }
    }

    /// The level's name, colored where colors are enabled.
    pub fn label(&self, colors: bool) -> (r: String)
        ensures
            r@ == self.label_spec(colors),
    {
        let name = match self {
            Level::Error => "ERROR",
            Level::Warn => "WARN",
            Level::Info => "INFO",
            Level::Debug => "DEBUG",
            Level::Trace => "TRACE",
        };
        if colors {
            let mut r = match self {
                Level::Error => String::from_str("\x1b[31m"),
                Level::Warn => String::from_str("\x1b[33m"),
                Level::Info => String::from_str("\x1b[34m"),
                Level::Debug => String::from_str("\x1b[36m"),
                Level::Trace => String::from_str("\x1b[90m"),
            };
            r.append(name);
            r.append("\x1b[0m");
            r
        } else {
            String::from_str(name)
        }
    }
}

/// The most verbose level that is printed, and whether output is colored.
#[derive(Debug, Clone, Copy)]
pub struct LogSettings {
    pub max_level: Level,
    pub colors: bool,
}

impl LogSettings {
    /// Info and above, colored.
    pub fn new() -> (r: LogSettings)
        ensures
            r.max_level == Level::Info,
            r.colors,
    {
        LogSettings { max_level: Level::Info, colors: true }
    }
}

pub fn set_max_level(settings: &mut LogSettings, level: Level)
    ensures
        final(settings).max_level == level,
        final(settings).colors == old(settings).colors,
{
    settings.max_level = level;
}

pub fn set_colors_enabled(settings: &mut LogSettings, enabled: bool)
    ensures
        final(settings).colors == enabled,
        final(settings).max_level == old(settings).max_level,
{
    settings.colors = enabled;
}

pub fn colors_enabled(settings: &LogSettings) -> (r: bool)
    ensures
        r == settings.colors,
{
    settings.colors
}

pub fn max_level(settings: &LogSettings) -> (r: Level)
    ensures
        r == settings.max_level,
{
    settings.max_level
}

/// A message at `level` is printed when the level is no more verbose than the maximum.
pub fn should_log(settings: &LogSettings, level: Level) -> (r: bool)
    ensures
        r == (level.rank() <= settings.max_level.rank()),
{
    level.index() <= settings.max_level.index()
}

/// The printed form of a message: `[LEVEL] message`.
pub fn format_line(settings: &LogSettings, level: Level, message: &str) -> (r: String)
    ensures
        r@ == "["@ + level.label_spec(settings.colors) + "] "@ + message@,
{
    let mut r = String::from_str("[");
    let label = level.label(settings.colors);
    r.append(label.as_str());
    r.append("] ");
    r.append(message);
    r
}

} // verus!
