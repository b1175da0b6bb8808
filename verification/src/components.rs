use vstd::prelude::*;
use crate::glob::{glob_syntax_ok, portable};
use crate::level::{admits, Level};
use crate::level_filter::AtomicLevelFilter;
use crate::state::{LevelFilter, PatternSyntaxError, TargetFilter};

verus! {

/// The menu in which a viewer selects the levels to show. It works on the
/// selection it was given with `state`.
pub struct LevelMenuButton<'a> {
    pub state: Option<&'a mut LevelFilter>,
}

impl<'a> LevelMenuButton<'a> {
    /// The menu working on `v`.
    pub fn state(self, v: &'a mut LevelFilter) -> (r: Self)
        ensures
            r.state is Some,
            *r.state->0 == *old(v),
            *final(r.state->0) == *final(v),
    {
        LevelMenuButton { state: Some(v) }
    }

    /// The box of `level` was clicked. The menu offers a box only for a
    /// level that the build keeps, which are those up to `max`; a click on
    /// such a box flips the level's flag, and only that counts as a change.
    pub fn click(self, max: Option<Level>, level: Level) -> (changed: bool)
        requires
            self.state is Some,
        ensures
            changed == admits(max, level),
            *final(self.state->0) == if admits(max, level) {
                (*self.state->0).with_flag(level, !(*self.state->0).shows(level))
            } else {
                *self.state->0
            },
    {
        match self.state {
            Some(filter) => {
                if AtomicLevelFilter::from(max).is_level_enabled(&level) {
                    let shown = filter.get(level);
                    filter.set(level, !shown)
                } else {
                    false
                }
            },
            None => false,
        }
    }
}

impl<'a> Default for LevelMenuButton<'a> {
    /// A menu that works on no selection yet.
    fn default() -> (r: Self)
        ensures
            r.state is None,
    {
        LevelMenuButton { state: None }
    }
}

/// The menu in which a viewer edits the target patterns. It works on the
/// filter it was given with `state`.
pub struct TargetMenuButton<'a> {
    pub state: Option<&'a mut TargetFilter>,
}

impl<'a> TargetMenuButton<'a> {
    /// The menu working on `v`.
    pub fn state(self, v: &'a mut TargetFilter) -> (r: Self)
        ensures
            r.state is Some,
            *r.state->0 == *old(v),
            *final(r.state->0) == *final(v),
    {
        TargetMenuButton { state: Some(v) }
    }

    /// The typed text was submitted: it becomes a pattern and the input is
    /// emptied. Text that the glob syntax refuses is reported and stays in
    /// the input; nothing has changed then.
    pub fn add(self) -> (r: Result<(), PatternSyntaxError>)
        requires
            self.state is Some,
            (*self.state->0).wf(),
        ensures
            ({
                let before = *self.state->0;
                let after = *final(self.state->0);
                &&& after.wf()
                &&& portable(before.input_text()) ==> (r is Ok <==> glob_syntax_ok(
                    before.input_text(),
                ))
                &&& r is Ok ==> after.pattern_texts() == before.pattern_texts().push(
                    before.input_text(),
                ) && !after.is_fresh() && after.input_text() == Seq::<char>::empty()
                &&& r is Err ==> after == before
            }),
    {
        match self.state {
            Some(filter) => filter.submit_input(),
            None => Ok(()),
        }
    }

    /// The pattern at `index` was deleted. Reports whether there was one.
    pub fn delete(self, index: usize) -> (changed: bool)
        requires
            self.state is Some,
            (*self.state->0).wf(),
        ensures
            ({
                let before = *self.state->0;
                let after = *final(self.state->0);
                &&& after.wf()
                &&& changed == (index < before.pattern_texts().len())
                &&& changed ==> after.pattern_texts() == before.pattern_texts().remove(
                    index as int,
                ) && !after.is_fresh() && after.input_text() == before.input_text()
                &&& !changed ==> after == before
            }),
    {
        match self.state {
            Some(filter) => filter.remove_pattern(index).is_some(),
            None => false,
        }
    }
}

impl<'a> Default for TargetMenuButton<'a> {
    /// A menu that works on no filter yet.
    fn default() -> (r: Self)
        ensures
            r.state is None,
    {
        TargetMenuButton { state: None }
    }
}

} // verus!
