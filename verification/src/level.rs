//! Severities and the per-severity switches of the viewer.

use vstd::prelude::*;

verus! {

/// How severe an event is, from the most verbose to the most serious.
#[derive(Clone, Copy, Debug, PartialEq, Eq, Structural, PartialOrd, Ord, Hash)]
pub enum Level {
    Trace,
    Debug,
    Info,
    Warn,
    Error,
}

impl Level {
    /// The position of a level in the order of severity, `Trace` lowest.
    pub open spec fn rank(self) -> nat {
        match self {
            Level::Trace => 0,
            Level::Debug => 1,
            Level::Info => 2,
            Level::Warn => 3,
            Level::Error => 4,
        }
    }

    /// The upper-case name under which a level is displayed.
    pub open spec fn name(self) -> Seq<char> {
        match self {
            Level::Trace => "TRACE"@,
            Level::Debug => "DEBUG"@,
            Level::Info => "INFO"@,
            Level::Warn => "WARN"@,
            Level::Error => "ERROR"@,
        }
    }

    /// The rank of this level: 0 for `Trace` up to 4 for `Error`.
    pub fn severity(self) -> (rank: u8)
        ensures
            rank == self.rank(),
    {
        match self {
            Level::Trace => 0,
            Level::Debug => 1,
            Level::Info => 2,
            Level::Warn => 3,
            Level::Error => 4,
        }
    }

    /// The display name of this level.
    pub fn as_str(self) -> (name: &'static str)
        ensures
            name@ == self.name(),
    {
        match self {
            Level::Trace => "TRACE",
            Level::Debug => "DEBUG",
            Level::Info => "INFO",
            Level::Warn => "WARN",
            Level::Error => "ERROR",
        }
    }
}

/// One switch per severity: an event is shown only while the switch of its
/// level is on.
#[derive(Clone, Copy, Debug, PartialEq, Eq, Structural, Hash)]
pub struct LevelFilter {
    pub trace: bool,
    pub debug: bool,
    pub info: bool,
    pub warn: bool,
    pub error: bool,
}

impl LevelFilter {
    /// Whether events of `level` are shown.
    pub open spec fn shows(self, level: Level) -> bool {
        match level {
            Level::Trace => self.trace,
            Level::Debug => self.debug,
            Level::Info => self.info,
            Level::Warn => self.warn,
            Level::Error => self.error,
        }
    }

    /// A filter that shows every level.
    pub fn new() -> (filter: LevelFilter)
        ensures
            forall|level: Level| filter.shows(level),
    {
        LevelFilter { trace: true, debug: true, info: true, warn: true, error: true }
    }

    /// Whether events of `level` are shown.
    pub fn get(&self, level: Level) -> (shown: bool)
        ensures
            shown == self.shows(level),
    {
        match level {
            Level::Trace => self.trace,
            Level::Debug => self.debug,
            Level::Info => self.info,
            Level::Warn => self.warn,
            Level::Error => self.error,
        }
    }

    /// Switches `level` on or off and leaves the other four as they were.
    pub fn set(&mut self, level: Level, enabled: bool)
        ensures
            final(self).shows(level) == enabled,
            forall|other: Level| other != level ==> final(self).shows(other) == old(self).shows(other),
    {
        match level {
            Level::Trace => self.trace = enabled,
            Level::Debug => self.debug = enabled,
            Level::Info => self.info = enabled,
            Level::Warn => self.warn = enabled,
            Level::Error => self.error = enabled,
        }
    }

    /// Flips the switch of `level` and returns its new position.
    pub fn toggle(&mut self, level: Level) -> (enabled: bool)
        ensures
            enabled == !old(self).shows(level),
            final(self).shows(level) == enabled,
            forall|other: Level| other != level ==> final(self).shows(other) == old(self).shows(other),
    {
        let enabled = !self.get(level);
        self.set(level, enabled);
        enabled
    }
}

impl Default for LevelFilter {
    /// Every level is shown until one is switched off.
    fn default() -> (filter: LevelFilter)
        ensures
            forall|level: Level| filter.shows(level),
    {
        LevelFilter::new()
    }
}

} // verus!
