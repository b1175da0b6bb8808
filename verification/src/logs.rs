use vstd::prelude::*;
use crate::buffer::EventBuffer;
use crate::collector::EventCollector;
use crate::event::EventView;
use crate::glob::{all_portable, set_compiles};
use crate::level::Level;
use crate::state::{FilterRebuildFailure, LevelFilter, LogsState, TargetFilter};

verus! {

/// Whether a viewer with the given selection sees the event: its level is
/// selected and no pattern of the target filter matches its origin.
pub open spec fn shown(levels: LevelFilter, targets: TargetFilter, event: EventView) -> bool {
    levels.shows(event.level) && !targets.excludes(event.target)
}

/// The places of the events that a viewer sees, in ascending order.
pub open spec fn visible(events: Seq<EventView>, levels: LevelFilter, targets: TargetFilter) -> Seq<
    usize,
>
    decreases events.len(),
{
    if events.len() == 0 {
        Seq::empty()
    } else {
        let front = visible(events.drop_last(), levels, targets);
        if shown(levels, targets, events.last()) {
            front.push((events.len() - 1) as usize)
        } else {
            front
        }
    }
}

/// The visible places are exactly the places of the events that are
/// shown, each once and in ascending order.
pub proof fn lemma_visible(events: Seq<EventView>, levels: LevelFilter, targets: TargetFilter)
    requires
        events.len() <= usize::MAX,
    ensures
        visible(events, levels, targets).len() <= events.len(),
        forall|k: int|
            0 <= k < visible(events, levels, targets).len() ==> (#[trigger] visible(
                events,
                levels,
                targets,
            )[k]) < events.len() && shown(
                levels,
                targets,
                events[visible(events, levels, targets)[k] as int],
            ),
        forall|j: int, k: int|
            0 <= j < k < visible(events, levels, targets).len() ==> (#[trigger] visible(
                events,
                levels,
                targets,
            )[j]) < (#[trigger] visible(events, levels, targets)[k]),
        forall|i: int|
            0 <= i < events.len() && shown(levels, targets, #[trigger] events[i]) ==> visible(
                events,
                levels,
                targets,
            ).contains(i as usize),
    decreases events.len(),
{
    if events.len() > 0 {
        let front_events = events.drop_last();
        lemma_visible(front_events, levels, targets);
        let front = visible(front_events, levels, targets);
        let all = visible(events, levels, targets);
        let last = (events.len() - 1) as usize;
        assert forall|i: int|
            0 <= i < events.len() && shown(levels, targets, #[trigger] events[i]) implies all.contains(
            i as usize,
        ) by {
            if i < events.len() - 1 {
                assert(front_events[i] == events[i]);
                let k = choose|k: int| 0 <= k < front.len() && front[k] == i as usize;
                assert(all[k] == i as usize);
            } else {
                assert(all[all.len() - 1] == last);
            }
        }
        assert forall|k: int| 0 <= k < all.len() implies (#[trigger] all[k]) < events.len() && shown(
            levels,
            targets,
            events[all[k] as int],
        ) by {
            if k < front.len() {
                assert(all[k] == front[k]);
                assert(front_events[front[k] as int] == events[front[k] as int]);
            }
        }
    }
}

/// A viewer of collected events: what is selected, and the places of the
/// events that the selection shows.
pub struct Logs {
    pub state: LogsState,
    pub indices: Vec<usize>,
}

impl Logs {
    /// A viewer for the events of `collector`, with the initial selection
    /// and room for the places of as many events as the collector keeps.
    pub fn new(collector: &EventCollector) -> (r: Self)
        ensures
            r.indices@ == Seq::<usize>::empty(),
            r.state.target_filter.wf(),
            r.state.target_filter.pattern_texts() == Seq::<Seq<char>>::empty(),
            r.state.target_filter.input_text() == Seq::<char>::empty(),
            !r.state.target_filter.is_fresh(),
            exists|max: Option<Level>| r.state.level_filter == LevelFilter::initial(max),
            !r.state.level_filter.trace && !r.state.level_filter.debug,
    {
        Logs { state: LogsState::new(), indices: Vec::with_capacity(collector.max_events()) }
    }

    /// Compiles the matcher of the target filter from its patterns.
    pub fn refresh_globset(&mut self) -> (r: Result<(), FilterRebuildFailure>)
        requires
            old(self).state.target_filter.wf(),
        ensures
            final(self).state.target_filter.wf(),
            final(self).state.target_filter.pattern_texts() == old(
                self,
            ).state.target_filter.pattern_texts(),
            final(self).state.target_filter.input_text() == old(
                self,
            ).state.target_filter.input_text(),
            final(self).state.level_filter == old(self).state.level_filter,
            final(self).indices == old(self).indices,
            r is Ok <==> final(self).state.target_filter.is_fresh(),
            old(self).state.target_filter.pattern_texts().len() == 0 ==> r is Ok,
            all_portable(old(self).state.target_filter.pattern_texts()) ==> (r is Ok
                <==> set_compiles(old(self).state.target_filter.pattern_texts())),
    {
        self.state.target_filter.refresh()
    }

    /// Works out which events the selection shows. The matcher of the
    /// target filter is compiled first where it is missing; where that
    /// fails the places are left as they were.
    pub fn select(&mut self, events: &EventBuffer) -> (r: Result<(), FilterRebuildFailure>)
        requires
            old(self).state.target_filter.wf(),
        ensures
            final(self).state.target_filter.wf(),
            final(self).state.target_filter.pattern_texts() == old(
                self,
            ).state.target_filter.pattern_texts(),
            final(self).state.target_filter.input_text() == old(
                self,
            ).state.target_filter.input_text(),
            final(self).state.level_filter == old(self).state.level_filter,
            old(self).state.target_filter.is_fresh() ==> r is Ok && final(self).state.target_filter
                == old(self).state.target_filter,
            old(self).state.target_filter.pattern_texts().len() == 0 ==> r is Ok,
            r is Ok <==> final(self).state.target_filter.is_fresh(),
            all_portable(old(self).state.target_filter.pattern_texts()) ==> (r is Ok <==> old(
                self,
            ).state.target_filter.is_fresh() || set_compiles(
                old(self).state.target_filter.pattern_texts(),
            )),
            events@.len() <= usize::MAX,
            r is Ok ==> final(self).indices@ == visible(
                events@,
                final(self).state.level_filter,
                final(self).state.target_filter,
            ),
            r is Err ==> final(self).indices == old(self).indices,
    {
        let n = events.len();
        if !self.state.target_filter.has_matcher() {
            match self.refresh_globset() {
                Ok(()) => {},
                Err(error) => {
                    return Err(error);
                },
            }
        }
        self.indices.clear();
        let mut i: usize = 0;
        assert(events@.take(0) =~= Seq::<EventView>::empty());
        while i < n
            invariant
                i <= n,
                n == events@.len(),
                old(self).state.target_filter.is_fresh() ==> self.state.target_filter == old(
                    self,
                ).state.target_filter,
                self.state.target_filter.wf(),
                self.state.target_filter.is_fresh(),
                self.state.target_filter.pattern_texts() == old(
                    self,
                ).state.target_filter.pattern_texts(),
                self.state.target_filter.input_text() == old(self).state.target_filter.input_text(),
                self.state.level_filter == old(self).state.level_filter,
                self.indices@ == visible(
                    events@.take(i as int),
                    self.state.level_filter,
                    self.state.target_filter,
                ),
            decreases n - i,
        {
            match events.get(i) {
                Some(event) => {
                    proof {
                        assert(events@.take(i + 1).drop_last() =~= events@.take(i as int));
                        assert(events@.take(i + 1).last() == events@[i as int]);
                    }
                    if self.state.level_filter.get(event.level)
                        && !self.state.target_filter.is_match(event.target.as_str()) {
                        self.indices.push(i);
                    }
                },
                None => {},
            }
            i += 1;
        }
        assert(events@.take(n as int) =~= events@);
        Ok(())
    }

    /// Hands the collector the threshold that the selected levels need,
    /// and reports whether the collector's threshold changed.
    pub fn apply_level_filter(&self, collector: &mut EventCollector) -> (changed: bool)
        ensures
            final(collector).threshold() == self.state.level_filter.threshold(),
            changed == (old(collector).threshold() != self.state.level_filter.threshold()),
            final(collector).allowed() == old(collector).allowed(),
            final(collector).span_fields() == old(collector).span_fields(),
            final(collector).buffered() == old(collector).buffered(),
            final(collector).capacity() == old(collector).capacity(),
    {
        collector.set_max_filter_level(self.state.level_filter.max_level())
    }
}

} // verus!
