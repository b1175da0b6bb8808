use vstd::prelude::*;

verus! {

/// Severity of an event or span, from the most verbose to the most severe.
#[derive(Clone, Copy, Debug, PartialEq, Eq, Structural, Hash)]
pub enum Level {
    Trace,
    Debug,
    Info,
    Warn,
    Error,
}

impl Level {
    /// How verbose the level is: `Error` is 1, `Trace` is 5. A threshold
    /// admits every level that is no more verbose than itself.
    pub open spec fn verbosity(self) -> nat {
        match self {
            Level::Error => 1,
            Level::Warn => 2,
            Level::Info => 3,
            Level::Debug => 4,
            Level::Trace => 5,
        }
    }

    /// The level's verbosity as a machine value.
    pub fn rank(self) -> (r: u8)
        ensures
            r as nat == self.verbosity(),
            1 <= r <= 5,
    {
        match self {
            Level::Error => 1,
            Level::Warn => 2,
            Level::Info => 3,
            Level::Debug => 4,
            Level::Trace => 5,
        }
    }

    /// The level's conventional upper-case name.
    pub fn as_str(self) -> (s: &'static str)
        ensures
            s@ == self.name(),
    {
        match self {
            Level::Error => "ERROR",
            Level::Warn => "WARN",
            Level::Info => "INFO",
            Level::Debug => "DEBUG",
            Level::Trace => "TRACE",
        }
    }

    /// The characters of the level's name.
    pub open spec fn name(self) -> Seq<char> {
        match self {
            Level::Error => "ERROR"@,
            Level::Warn => "WARN"@,
            Level::Info => "INFO"@,
            Level::Debug => "DEBUG"@,
            Level::Trace => "TRACE"@,
        }
    }
}

/// The verbosity that a threshold admits: 0 when nothing is enabled.
pub open spec fn threshold_verbosity(threshold: Option<Level>) -> nat {
    match threshold {
        None => 0,
        Some(l) => l.verbosity(),
    }
}

/// Whether a threshold lets an event of the given level through: the level
/// is at most as verbose as the threshold, and no level passes when the
/// threshold is off.
pub open spec fn admits(threshold: Option<Level>, level: Level) -> bool {
    level.verbosity() <= threshold_verbosity(threshold)
}

} // verus!
