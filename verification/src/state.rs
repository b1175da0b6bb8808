use vstd::prelude::*;
use crate::glob::{
    all_portable, any_pattern_matches, builder_add, builder_build, builder_new, builder_patterns,
    check_glob, error_message, glob_syntax_ok, globset_patterns, portable, set_compiles,
    set_is_match, set_matches,
};
use crate::level::{admits, Level};

verus! {

/// Which severities a viewer wants to see, one flag for each level.
#[derive(Clone, Copy, Debug)]
pub struct LevelFilter {
    pub trace: bool,
    pub debug: bool,
    pub info: bool,
    pub warn: bool,
    pub error: bool,
}

/// The most verbose level that the build keeps, as `tracing` fixes it at
/// compile time (`tracing::level_filters::STATIC_MAX_LEVEL`); `None` when
/// every level is compiled out. It depends on the features the build
/// selected, so nothing is claimed of it.
#[verifier::external_body]
pub(crate) fn static_max_level() -> (max: Option<Level>)
{
    match tracing::level_filters::STATIC_MAX_LEVEL.into_level() {
        None => None,
        Some(tracing::Level::ERROR) => Some(Level::Error),
        Some(tracing::Level::WARN) => Some(Level::Warn),
        Some(tracing::Level::INFO) => Some(Level::Info),
        Some(tracing::Level::DEBUG) => Some(Level::Debug),
        Some(tracing::Level::TRACE) => Some(Level::Trace),
    }
}

impl LevelFilter {
    /// Whether the flag of `level` is set.
    pub open spec fn shows(&self, level: Level) -> bool {
        match level {
            Level::Trace => self.trace,
            Level::Debug => self.debug,
            Level::Info => self.info,
            Level::Warn => self.warn,
            Level::Error => self.error,
        }
    }

    /// The initial selection for a build that keeps levels up to `max`:
    /// `Info`, `Warn` and `Error` as far as the build keeps them, and
    /// neither `Debug` nor `Trace`.
    pub open spec fn initial(max: Option<Level>) -> Self {
        LevelFilter {
            trace: false,
            debug: false,
            info: admits(max, Level::Info),
            warn: admits(max, Level::Warn),
            error: admits(max, Level::Error),
        }
    }

    /// Builds the initial selection for a build that keeps levels up to
    /// `max`.
    pub fn with_static_max(max: Option<Level>) -> (r: Self)
        ensures
            r == Self::initial(max),
    {
        let top: u8 = match max {
            None => 0,
            Some(l) => l.rank(),
        };
        LevelFilter { trace: false, debug: false, info: top >= 3, warn: top >= 2, error: top >= 1 }
    }

    /// Whether events of `level` are to be shown.
    pub fn get(&self, level: Level) -> (r: bool)
        ensures
            r == self.shows(level),
    {
        match level {
            Level::Trace => self.trace,
            Level::Debug => self.debug,
            Level::Info => self.info,
            Level::Warn => self.warn,
            Level::Error => self.error,
        }
    }

    /// The selection with the flag of `level` set to `shown`.
    pub open spec fn with_flag(self, level: Level, shown: bool) -> Self {
        match level {
            Level::Trace => LevelFilter { trace: shown, ..self },
            Level::Debug => LevelFilter { debug: shown, ..self },
            Level::Info => LevelFilter { info: shown, ..self },
            Level::Warn => LevelFilter { warn: shown, ..self },
            Level::Error => LevelFilter { error: shown, ..self },
        }
    }

    /// Sets the flag of `level` and reports whether it changed.
    pub fn set(&mut self, level: Level, shown: bool) -> (changed: bool)
        ensures
            *final(self) == old(self).with_flag(level, shown),
            changed == (old(self).shows(level) != shown),
    {
        let before = self.get(level);
        match level {
            Level::Trace => {
                self.trace = shown;
            },
            Level::Debug => {
                self.debug = shown;
            },
            Level::Info => {
                self.info = shown;
            },
            Level::Warn => {
                self.warn = shown;
            },
            Level::Error => {
                self.error = shown;
            },
        }
        before != shown
    }

    /// The most verbose level whose flag is set; `None` when none is.
    pub open spec fn threshold(&self) -> Option<Level> {
        if self.trace {
            Some(Level::Trace)
        } else if self.debug {
            Some(Level::Debug)
        } else if self.info {
            Some(Level::Info)
        } else if self.warn {
            Some(Level::Warn)
        } else if self.error {
            Some(Level::Error)
        } else {
            None
        }
    }

    /// The most verbose level that is to be shown, or `None` when no flag
    /// is set. This is the threshold the collector needs so that nothing
    /// the viewer wants is suppressed upstream.
    pub fn max_level(&self) -> (r: Option<Level>)
        ensures
            r == self.threshold(),
            r is None <==> (forall|l: Level| !self.shows(l)),
            r is Some ==> self.shows(r->0),
            forall|l: Level| #[trigger] self.shows(l) ==> admits(r, l),
    {
        if self.trace {
            assert(self.shows(Level::Trace));
            Some(Level::Trace)
        } else if self.debug {
            assert(self.shows(Level::Debug));
            Some(Level::Debug)
        } else if self.info {
            assert(self.shows(Level::Info));
            Some(Level::Info)
        } else if self.warn {
            assert(self.shows(Level::Warn));
            Some(Level::Warn)
        } else if self.error {
            assert(self.shows(Level::Error));
            Some(Level::Error)
        } else {
            None
        }
    }
}

impl Default for LevelFilter {
    /// The initial selection for this build, whatever levels it keeps.
    fn default() -> (r: Self)
        ensures
            exists|max: Option<Level>| r == LevelFilter::initial(max),
            !r.trace && !r.debug,
    {
        let max = static_max_level();
        LevelFilter::with_static_max(max)
    }
}

/// A pattern that the glob syntax does not accept.
#[derive(Debug)]
pub struct PatternSyntaxError {
    /// What the glob parser said of the pattern.
    pub message: String,
}

/// The pattern list could not be compiled into one matcher.
#[derive(Debug)]
pub struct FilterRebuildFailure {
    /// What the glob compiler said.
    pub message: String,
}

/// The glob patterns a viewer entered, in the order of entry, with the
/// matcher compiled from them. The matcher is dropped by every change of
/// the list and rebuilt before the next use.
#[derive(Debug)]
pub struct TargetFilter {
    input: String,
    targets: Vec<String>,
    glob: Option<globset::GlobSet>,
}

impl TargetFilter {
    /// The text being typed, not yet a pattern.
    pub closed spec fn input_text(&self) -> Seq<char> {
        self.input@
    }

    /// The pattern texts, in the order of entry; duplicates stay.
    pub closed spec fn pattern_texts(&self) -> Seq<Seq<char>> {
        self.targets@.map_values(|s: String| s@)
    }

    /// Whether a compiled matcher is present.
    pub closed spec fn is_fresh(&self) -> bool {
        self.glob is Some
    }

    /// The matcher is either absent or compiled from the current list, and
    /// every pattern was accepted by the glob syntax when it was added.
    pub closed spec fn wf(&self) -> bool {
        &&& self.glob is Some ==> globset_patterns(self.glob->0) == self.pattern_texts()
        &&& forall|i: int|
            0 <= i < self.pattern_texts().len() && portable(#[trigger] self.pattern_texts()[i])
                ==> glob_syntax_ok(self.pattern_texts()[i])
    }

    /// Whether the compiled matcher matches `target`; false while no matcher
    /// is present.
    pub closed spec fn excludes(&self, target: Seq<char>) -> bool {
        self.glob is Some && set_matches(self.glob->0, target)
    }

    /// An empty filter: no input, no pattern, no matcher.
    pub fn new() -> (r: Self)
        ensures
            r.wf(),
            r.input_text() == Seq::<char>::empty(),
            r.pattern_texts() == Seq::<Seq<char>>::empty(),
            !r.is_fresh(),
    {
        let r = TargetFilter { input: String::new(), targets: Vec::new(), glob: None };
        assert(r.pattern_texts() =~= Seq::<Seq<char>>::empty());
        r
    }

    /// The text being typed.
    pub fn input(&self) -> (r: &str)
        ensures
            r@ == self.input_text(),
    {
        self.input.as_str()
    }

    /// Replaces the text being typed; the patterns and the matcher stay.
    pub fn set_input(&mut self, text: &str)
        requires
            old(self).wf(),
        ensures
            final(self).wf(),
            final(self).input_text() == text@,
            final(self).pattern_texts() == old(self).pattern_texts(),
            final(self).is_fresh() == old(self).is_fresh(),
            forall|t: Seq<char>| final(self).excludes(t) == old(self).excludes(t),
    {
        self.input = text.to_owned();
        assert(self.pattern_texts() == old(self).pattern_texts());
    }

    /// The patterns, in the order of entry.
    pub fn patterns(&self) -> (r: &Vec<String>)
        ensures
            r@.map_values(|s: String| s@) == self.pattern_texts(),
    {
        &self.targets
    }

    /// Whether a compiled matcher is present.
    pub fn has_matcher(&self) -> (r: bool)
        ensures
            r == self.is_fresh(),
    {
        self.glob.is_some()
    }

    /// Appends `text` as a new pattern and drops the matcher. Text that the
    /// glob syntax refuses is reported and changes nothing.
    pub fn add_pattern(&mut self, text: &str) -> (r: Result<(), PatternSyntaxError>)
        requires
            old(self).wf(),
        ensures
            final(self).wf(),
            final(self).input_text() == old(self).input_text(),
            portable(text@) ==> (r is Ok <==> glob_syntax_ok(text@)),
            r is Ok ==> final(self).pattern_texts() == old(self).pattern_texts().push(text@)
                && !final(self).is_fresh(),
            r is Err ==> *final(self) == *old(self),
    {
        match check_glob(text) {
            Ok(()) => {
                let ghost before = self.pattern_texts();
                self.targets.push(text.to_owned());
                self.glob = None;
                assert(self.pattern_texts() =~= before.push(text@));
                Ok(())
            },
            Err(error) => Err(PatternSyntaxError { message: error_message(&error) }),
        }
    }

    /// Turns the typed input into a pattern and empties the input. Input
    /// that the glob syntax refuses stays as it is, for correction.
    pub fn submit_input(&mut self) -> (r: Result<(), PatternSyntaxError>)
        requires
            old(self).wf(),
        ensures
            final(self).wf(),
            portable(old(self).input_text()) ==> (r is Ok <==> glob_syntax_ok(old(self).input_text())),
            r is Ok ==> final(self).pattern_texts() == old(self).pattern_texts().push(
                old(self).input_text(),
            ) && !final(self).is_fresh() && final(self).input_text() == Seq::<char>::empty(),
            r is Err ==> *final(self) == *old(self),
    {
        let text = self.input.clone();
        match self.add_pattern(text.as_str()) {
            Ok(()) => {
                self.input = String::new();
                Ok(())
            },
            Err(error) => Err(error),
        }
    }

    /// Removes the pattern at `index` and drops the matcher; hands the
    /// removed text back. An index past the end changes nothing.
    pub fn remove_pattern(&mut self, index: usize) -> (r: Option<String>)
        requires
            old(self).wf(),
        ensures
            final(self).wf(),
            final(self).input_text() == old(self).input_text(),
            r is Some <==> index < old(self).pattern_texts().len(),
            r is Some ==> r->0@ == old(self).pattern_texts()[index as int]
                && final(self).pattern_texts() == old(self).pattern_texts().remove(index as int)
                && !final(self).is_fresh(),
            r is None ==> *final(self) == *old(self),
    {
        if index < self.targets.len() {
            let ghost before = self.pattern_texts();
            let removed = self.targets.remove(index);
            self.glob = None;
            assert(self.pattern_texts() =~= before.remove(index as int));
            Some(removed)
        } else {
            None
        }
    }

    /// Compiles the matcher from the current list. On failure the filter is
    /// left without a matcher. An empty list always compiles, and a list of
    /// patterns without a backslash compiles exactly when the glob library
    /// can hold them in one set.
    pub fn refresh(&mut self) -> (r: Result<(), FilterRebuildFailure>)
        requires
            old(self).wf(),
        ensures
            final(self).wf(),
            final(self).input_text() == old(self).input_text(),
            final(self).pattern_texts() == old(self).pattern_texts(),
            r is Ok <==> final(self).is_fresh(),
            old(self).pattern_texts().len() == 0 ==> r is Ok,
            all_portable(old(self).pattern_texts()) ==> (r is Ok <==> set_compiles(
                old(self).pattern_texts(),
            )),
    {
        let mut builder = builder_new();
        let mut i: usize = 0;
        while i < self.targets.len()
            invariant
                i <= self.targets.len(),
                *self == *old(self),
                self.wf(),
                builder_patterns(builder) == self.pattern_texts().take(i as int),
            decreases self.targets.len() - i,
        {
            let ghost before = builder_patterns(builder);
            match builder_add(&mut builder, self.targets[i].as_str()) {
                Ok(()) => {},
                Err(error) => {
                    assert(self.pattern_texts()[i as int] == self.targets[i as int]@);
                    assert(!portable(self.pattern_texts()[i as int]));
                    self.glob = None;
                    assert(self.pattern_texts() == old(self).pattern_texts());
                    return Err(FilterRebuildFailure { message: error_message(&error) });
                },
            }
            assert(self.pattern_texts().take(i + 1) =~= before.push(self.targets[i as int]@));
            i += 1;
        }
        assert(self.pattern_texts().take(i as int) =~= self.pattern_texts());
        match builder_build(&builder) {
            Ok(set) => {
                self.glob = Some(set);
                Ok(())
            },
            Err(error) => {
                self.glob = None;
                Err(FilterRebuildFailure { message: error_message(&error) })
            },
        }
    }

    /// Whether the compiled matcher matches `target`. Without a matcher
    /// nothing matches.
    pub fn is_match(&self, target: &str) -> (r: bool)
        ensures
            r == self.excludes(target@),
            !self.is_fresh() ==> !r,
            self.wf() && self.pattern_texts().len() == 0 ==> !r,
            self.wf() && self.is_fresh() && portable(target@) && all_portable(
                self.pattern_texts(),
            ) ==> r == any_pattern_matches(self.pattern_texts(), target@),
    {
        match &self.glob {
            Some(set) => set_is_match(set, target),
            None => false,
        }
    }

    /// Whether `target` matches at least one pattern. The matcher is
    /// rebuilt first where the list changed since it was last compiled.
    pub fn matches(&mut self, target: &str) -> (r: Result<bool, FilterRebuildFailure>)
        requires
            old(self).wf(),
        ensures
            final(self).wf(),
            final(self).input_text() == old(self).input_text(),
            final(self).pattern_texts() == old(self).pattern_texts(),
            old(self).is_fresh() ==> r is Ok && *final(self) == *old(self),
            old(self).pattern_texts().len() == 0 ==> r == Ok::<bool, FilterRebuildFailure>(false),
            r is Ok <==> final(self).is_fresh(),
            all_portable(old(self).pattern_texts()) ==> (r is Ok <==> old(self).is_fresh()
                || set_compiles(old(self).pattern_texts())),
            r is Ok ==> r->Ok_0 == final(self).excludes(target@),
            r is Ok && portable(target@) && all_portable(old(self).pattern_texts()) ==> r->Ok_0
                == any_pattern_matches(old(self).pattern_texts(), target@),
    {
        if self.glob.is_none() {
            match self.refresh() {
                Ok(()) => {},
                Err(error) => {
                    return Err(error);
                },
            }
        }
        let r = self.is_match(target);
        Ok(r)
    }
}

impl Default for TargetFilter {
    /// An empty filter.
    fn default() -> (r: Self)
        ensures
            r.wf(),
            r.input_text() == Seq::<char>::empty(),
            r.pattern_texts() == Seq::<Seq<char>>::empty(),
            !r.is_fresh(),
    {
        TargetFilter::new()
    }
}

/// What a viewer has selected: the severities to show and the targets to
/// leave out.
#[derive(Debug)]
pub struct LogsState {
    pub level_filter: LevelFilter,
    pub target_filter: TargetFilter,
}

impl LogsState {
    /// The initial selection: the default levels, no target pattern, and
    /// nothing typed.
    pub fn new() -> (r: Self)
        ensures
            r.target_filter.wf(),
            r.target_filter.pattern_texts() == Seq::<Seq<char>>::empty(),
            r.target_filter.input_text() == Seq::<char>::empty(),
            !r.target_filter.is_fresh(),
            exists|max: Option<Level>| r.level_filter == LevelFilter::initial(max),
            !r.level_filter.trace && !r.level_filter.debug,
    {
        LogsState { level_filter: LevelFilter::default(), target_filter: TargetFilter::new() }
    }
}

impl Default for LogsState {
    /// The initial selection.
    fn default() -> (r: Self)
        ensures
            r.target_filter.wf(),
            r.target_filter.pattern_texts() == Seq::<Seq<char>>::empty(),
            !r.target_filter.is_fresh(),
            !r.level_filter.trace && !r.level_filter.debug,
    {
        LogsState::new()
    }
}

} // verus!
