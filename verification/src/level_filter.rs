use vstd::prelude::*;
use crate::level::{admits, threshold_verbosity, Level};

verus! {

/// The threshold that a stored code stands for: 0 is off, 1 to 5 are
/// `Error` to `Trace`.
pub open spec fn decode_threshold(code: u8) -> Option<Level> {
    if code == 1 {
        Some(Level::Error)
    } else if code == 2 {
        Some(Level::Warn)
    } else if code == 3 {
        Some(Level::Info)
    } else if code == 4 {
        Some(Level::Debug)
    } else if code == 5 {
        Some(Level::Trace)
    } else {
        None
    }
}

/// The code under which a threshold is stored.
pub open spec fn encode_threshold(threshold: Option<Level>) -> u8 {
    threshold_verbosity(threshold) as u8
}

/// What an exchange leaves in the cell, and whether it reports a change.
pub open spec fn exchanged(before: Option<Level>, value: Option<Level>) -> (Option<Level>, bool) {
    (value, before != value)
}

/// Setting a threshold reports a change exactly when the value differs
/// from the one in place, and setting the same value again reports none.
pub proof fn lemma_change_reported_once(before: Option<Level>, value: Option<Level>)
    ensures
        exchanged(before, value).1 <==> before != value,
        exchanged(before, value).0 == value,
        !exchanged(exchanged(before, value).0, value).1,
{
}

/// A threshold lets through its own level and every more severe one, and
/// nothing more verbose: off lets nothing through, `Trace` everything, and
/// what passes a threshold passes every more verbose threshold.
pub proof fn lemma_threshold_order(threshold: Option<Level>, level: Level)
    ensures
        !admits(None, level),
        admits(Some(Level::Trace), level),
        admits(Some(level), level),
        admits(Some(Level::Error), level) <==> level == Level::Error,
        admits(Some(Level::Warn), level) <==> level == Level::Error || level == Level::Warn,
        admits(Some(Level::Info), level) <==> level == Level::Error || level == Level::Warn
            || level == Level::Info,
        admits(Some(Level::Debug), level) <==> level != Level::Trace,
        forall|other: Option<Level>|
            admits(threshold, level) && threshold_verbosity(threshold) <= threshold_verbosity(other)
                ==> admits(other, level),
        forall|other: Level|
            admits(threshold, level) && other.verbosity() <= level.verbosity() ==> admits(
                threshold,
                other,
            ),
{
}

/// The value of the one-word cell that holds the minimum-severity
/// threshold. Reads compare against the stored code; a write is a single
/// exchange that reports whether the code changed.
#[derive(Clone, Copy, Debug)]
pub struct AtomicLevelFilter {
    code: u8,
}

impl View for AtomicLevelFilter {
    type V = Option<Level>;

    closed spec fn view(&self) -> Option<Level> {
        decode_threshold(self.code)
    }
}

impl AtomicLevelFilter {
    #[verifier::type_invariant]
    spec fn code_in_range(self) -> bool {
        self.code <= 5
    }

    /// The filter whose threshold is `value`.
    pub closed spec fn holding(value: Option<Level>) -> Self {
        AtomicLevelFilter { code: encode_threshold(value) }
    }

    /// The stored code: 0 for off, else the threshold's verbosity.
    pub fn code(&self) -> (c: u8)
        ensures
            c == encode_threshold(self@),
            c <= 5,
    {
        proof {
            use_type_invariant(self);
        }
        self.code
    }

    /// The filter that a stored code stands for; `None` for a code that no
    /// threshold has.
    pub fn from_code(code: u8) -> (r: Option<Self>)
        ensures
            r is Some <==> code <= 5,
            r is Some ==> r->0@ == decode_threshold(code),
    {
        if code <= 5 {
            Some(AtomicLevelFilter { code })
        } else {
            None
        }
    }

    /// The current threshold; `None` when every level is disabled.
    pub fn as_level_filter(&self) -> (r: Option<Level>)
        ensures
            r == self@,
    {
        proof {
            use_type_invariant(self);
        }
        let v: u8 = self.code;
        if v == 0 {
            None
        } else if v == 1 {
            Some(Level::Error)
        } else if v == 2 {
            Some(Level::Warn)
        } else if v == 3 {
            Some(Level::Info)
        } else if v == 4 {
            Some(Level::Debug)
        } else {
            Some(Level::Trace)
        }
    }

    /// Whether an event of `level` passes the current threshold.
    pub fn is_level_enabled(&self, level: &Level) -> (r: bool)
        ensures
            r == admits(self@, *level),
    {
        proof {
            use_type_invariant(self);
        }
        level.rank() <= self.code
    }

    /// Replaces the threshold and reports whether the stored value changed.
    pub fn set_from_level(&mut self, value: Option<Level>) -> (changed: bool)
        ensures
            (final(self)@, changed) == exchanged(old(self)@, value),
    {
        proof {
            use_type_invariant(&*self);
        }
        let v: u8 = threshold_code(value);
        let prev: u8 = self.code;
        self.code = v;
        prev != v
    }
}

/// Whether a callsite is of interest to a filter.
#[derive(Clone, Copy, Debug, PartialEq, Eq, Structural)]
pub enum Interest {
    /// The callsite is never enabled.
    Never,
    /// The callsite is always enabled.
    Always,
}

/// A filter on severity whose threshold can change while it is in use.
#[derive(Clone, Copy, Debug)]
pub struct DynamicLevelFilter(AtomicLevelFilter);

impl View for DynamicLevelFilter {
    type V = Option<Level>;

    closed spec fn view(&self) -> Option<Level> {
        self.0@
    }
}

impl DynamicLevelFilter {
    /// A filter that goes by the given threshold.
    pub fn new(filter: AtomicLevelFilter) -> (r: Self)
        ensures
            r@ == filter@,
    {
        DynamicLevelFilter(filter)
    }

    /// Whether a span or event of `level` is enabled.
    pub fn enabled(&self, level: &Level) -> (r: bool)
        ensures
            r == admits(self@, *level),
    {
        self.0.is_level_enabled(level)
    }

    /// The interest in a callsite of `level`: always where the level is
    /// enabled, never where it is not.
    pub fn callsite_enabled(&self, level: &Level) -> (r: Interest)
        ensures
            r == if admits(self@, *level) {
                Interest::Always
            } else {
                Interest::Never
            },
    {
        if self.0.is_level_enabled(level) {
            Interest::Always
        } else {
            Interest::Never
        }
    }

    /// The most verbose level the filter lets through; the inner `None`
    /// says that it lets nothing through.
    pub fn max_level_hint(&self) -> (r: Option<Option<Level>>)
        ensures
            r == Some(self@),
    {
        Some(self.0.as_level_filter())
    }
}

/// The code of a threshold, as stored in the cell.
pub fn threshold_code(value: Option<Level>) -> (v: u8)
    ensures
        v == encode_threshold(value),
        v <= 5,
        decode_threshold(v) == value,
{
    match value {
        None => 0,
        Some(l) => l.rank(),
    }
}

impl From<Option<Level>> for AtomicLevelFilter {
    fn from(value: Option<Level>) -> (r: Self)
        ensures
            r@ == value,
    {
        AtomicLevelFilter { code: threshold_code(value) }
    }
}

impl vstd::std_specs::convert::FromSpecImpl<Option<Level>> for AtomicLevelFilter {
    open spec fn obeys_from_spec() -> bool {
        true
    }

    open spec fn from_spec(value: Option<Level>) -> Self {
        AtomicLevelFilter::holding(value)
    }
}

} // verus!
