//! The logging configuration: which levels are shown, and how a line of a
//! level begins. Writing the line is the caller's part.

use vstd::prelude::*;

verus! {

/// The levels of log lines, most severe first.
#[derive(Clone, Copy, Debug, PartialEq, Eq, Structural)]
pub enum Level {
    Critical,
    Error,
    Warning,
    Info,
    Debug,
    Trace,
}

/// The verbosity that a fresh configuration starts from: critical, error and
/// warning lines are shown.
pub const BASE_VERBOSITY: u8 = 3;

/// Verbosity and colour of the log output.
#[derive(Clone, Copy, Debug)]
pub struct Logger {
    verbosity: u8,
    monochrome: bool,
}

/// The verbosity that a level's lines need to exceed.
pub open spec fn threshold(level: Level) -> int {
    match level {
        Level::Critical => 0,
        Level::Error => 1,
        Level::Warning => 2,
        Level::Info => 3,
        Level::Debug => 4,
        Level::Trace => 5,
    }
}

/// The text in front of a line of the level.
pub open spec fn prefix_spec(level: Level, monochrome: bool) -> Seq<char> {
    match level {
        Level::Critical | Level::Error => if monochrome {
            "Error: "@
        } else {
            "\x1b[31mError:\x1b[0m "@
        },
        Level::Warning => if monochrome {
            "Warning: "@
        } else {
            "\x1b[93mWarning:\x1b[0m "@
        },
        _ => ""@,
    }
}

impl Logger {
    /// The current verbosity.
    pub closed spec fn level(&self) -> u8 {
        self.verbosity
    }

    /// Whether colours are switched off.
    pub closed spec fn plain(&self) -> bool {
        self.monochrome
    }

    /// Whether lines of `level` are shown.
    pub open spec fn shows_spec(&self, level: Level) -> bool {
        self.level() > threshold(level)
    }

    /// The configuration at start: coloured, with warnings and worse shown.
    pub fn new() -> (logger: Logger)
        ensures
            logger.level() == BASE_VERBOSITY,
            !logger.plain(),
    {
        Logger { verbosity: BASE_VERBOSITY, monochrome: false }
    }

    /// Raises the verbosity by `verbosity` levels, as far as it goes.
    pub fn set_verbosity(&mut self, verbosity: u8)
        ensures
            final(self).plain() == old(self).plain(),
            final(self).level() == if old(self).level() + verbosity > 255 {
                255
            } else {
                old(self).level() + verbosity
            },
    {
        self.verbosity = if verbosity > 255 - self.verbosity {
            255
        } else {
            self.verbosity + verbosity
        };
    }

    /// Switches colours off.
    pub fn set_monochrome(&mut self)
        ensures
            final(self).plain(),
            final(self).level() == old(self).level(),
    {
        self.monochrome = true;
    }

    /// Whether colours are switched off.
    pub fn is_monochrome(&self) -> (plain: bool)
        ensures
            plain == self.plain(),
    {
        self.monochrome
    }

    /// The current verbosity.
    pub fn verbosity(&self) -> (level: u8)
        ensures
            level == self.level(),
    {
        self.verbosity
    }

    /// Whether lines of `level` are shown.
    pub fn shows(&self, level: Level) -> (shown: bool)
        ensures
            shown == self.shows_spec(level),
    {
        let needed: u8 = match level {
            Level::Critical => 0,
            Level::Error => 1,
            Level::Warning => 2,
            Level::Info => 3,
            Level::Debug => 4,
            Level::Trace => 5,
        };
        self.verbosity > needed
    }

    /// The text in front of a line of `level`: errors and warnings are
    /// marked, in colour unless colours are switched off.
    pub fn prefix(&self, level: Level) -> (text: &'static str)
        ensures
            text@ == prefix_spec(level, self.plain()),
    {
        match level {
            Level::Critical | Level::Error => if self.monochrome {
                "Error: "
            } else {
                "\x1b[31mError:\x1b[0m "
            },
            Level::Warning => if self.monochrome {
                "Warning: "
            } else {
                "\x1b[93mWarning:\x1b[0m "
            },
            _ => "",
        }
    }
}

} // verus!
