use vstd::prelude::*;
use std::collections::HashMap;
use crate::buffer::{cleared, pushed, EventBuffer, DEFAULT_MAX_EVENTS};
use crate::event::{local_now, CollectedEvent, EventView, Timestamp};
use crate::fields::{aggregate, aggregate_fields, first_wins, views_of, FieldMap, FieldView};
use crate::level::{admits, Level};
use crate::level_filter::AtomicLevelFilter;
use crate::prefix::starts_with;

verus! {

broadcast use vstd::std_specs::hash::group_hash_axioms;

/// Which origins the collector takes events from.
#[derive(Clone, Debug)]
pub enum AllowedTargets {
    /// Every origin.
    All,
    /// The origins that begin with one of the given texts.
    Selected(Vec<String>),
}

impl AllowedTargets {
    /// Whether events of the origin `target` are taken.
    pub open spec fn allows(&self, target: Seq<char>) -> bool {
        match self {
            AllowedTargets::All => true,
            AllowedTargets::Selected(selection) => exists|i: int|
                0 <= i < selection@.len() && (#[trigger] selection@[i])@.is_prefix_of(target),
        }
    }

    /// Whether events of the origin `target` are taken.
    pub fn is_allowed(&self, target: &str) -> (r: bool)
        ensures
            r == self.allows(target@),
    {
        match self {
            AllowedTargets::All => true,
            AllowedTargets::Selected(selection) => {
                let mut i: usize = 0;
                while i < selection.len()
                    invariant
                        i <= selection.len(),
                        *self == AllowedTargets::Selected(*selection),
                        forall|j: int| 0 <= j < i ==> !(#[trigger] selection@[j])@.is_prefix_of(target@),
                    decreases selection.len() - i,
                {
                    if starts_with(target, selection[i].as_str()) {
                        assert(selection@[i as int]@.is_prefix_of(target@));
                        assert(self matches AllowedTargets::Selected(s) && s@ == selection@);
                        return true;
                    }
                    i += 1;
                }
                false
            },
        }
    }
}

/// `tracing_core::callsite::rebuild_interest_cache`: asks the tracing
/// framework to decide anew which callsites are enabled. It returns nothing,
/// and nothing is claimed of it.
#[verifier::external_body]
pub(crate) fn rebuild_interest_cache()
{
    tracing_core::callsite::rebuild_interest_cache();
}

/// The fields handed in with a notification, each as its name and its
/// rendered value, in the order in which they were given.
pub open spec fn records_of(records: Seq<(String, String)>) -> Seq<FieldView> {
    records.map_values(|e: (String, String)| (e.0@, e.1@))
}

/// The stores of the spans of a scope that the table knows, in the order
/// of the scope.
pub open spec fn scope_stores(
    spans: Map<u64, Map<Seq<char>, Seq<char>>>,
    scope: Seq<u64>,
) -> Seq<Map<Seq<char>, Seq<char>>>
    decreases scope.len(),
{
    if scope.len() == 0 {
        Seq::empty()
    } else {
        let front = scope_stores(spans, scope.drop_last());
        if spans.contains_key(scope.last()) {
            front.push(spans[scope.last()])
        } else {
            front
        }
    }
}

/// The fields that an event sees: those of the spans around it, from the
/// outermost to the innermost, with its own fields laid over them. Of the
/// event's own fields the first value given for a name counts.
pub open spec fn event_fields(
    spans: Map<u64, Map<Seq<char>, Seq<char>>>,
    scope: Seq<u64>,
    own: Seq<FieldView>,
) -> Map<Seq<char>, Seq<char>> {
    aggregate(scope_stores(spans, scope), first_wins(own))
}

/// The event that is kept for an emission in the given scope at `time`.
pub open spec fn event_seen(
    spans: Map<u64, Map<Seq<char>, Seq<char>>>,
    level: Level,
    target: Seq<char>,
    scope: Seq<u64>,
    own: Seq<FieldView>,
    time: Timestamp,
) -> EventView {
    EventView { target, level, fields: event_fields(spans, scope, own), time }
}

/// Collects events: keeps the fields of the open spans, a threshold on
/// severity, and the bounded buffer of what was collected.
#[derive(Debug)]
pub struct EventCollector {
    allowed_targets: AllowedTargets,
    threshold: AtomicLevelFilter,
    spans: HashMap<u64, FieldMap>,
    events: EventBuffer,
}

impl EventCollector {
    /// The origins the collector takes events from.
    pub closed spec fn allowed(&self) -> AllowedTargets {
        self.allowed_targets
    }

    /// The current threshold; `None` when nothing is collected.
    pub closed spec fn threshold(&self) -> Option<Level> {
        self.threshold@
    }

    /// The fields of the spans that are open, by span id.
    pub closed spec fn span_fields(&self) -> Map<u64, Map<Seq<char>, Seq<char>>> {
        self.spans@.map_values(|store: FieldMap| store@)
    }

    /// The events collected and still kept, oldest first.
    pub closed spec fn buffered(&self) -> Seq<EventView> {
        self.events@
    }

    /// How many events the collector keeps.
    pub closed spec fn capacity(&self) -> nat {
        self.events.capacity()
    }

    /// A collector that takes every event, with no span open, nothing
    /// collected, and room for the default number of events.
    pub fn new() -> (r: Self)
        ensures
            r.allowed() is All,
            r.threshold() == Some(Level::Trace),
            r.span_fields() == Map::<u64, Map<Seq<char>, Seq<char>>>::empty(),
            r.buffered() == Seq::<EventView>::empty(),
            r.capacity() == DEFAULT_MAX_EVENTS,
    {
        let r = EventCollector {
            allowed_targets: AllowedTargets::All,
            threshold: AtomicLevelFilter::from(Some(Level::Trace)),
            spans: HashMap::new(),
            events: EventBuffer::new(DEFAULT_MAX_EVENTS),
        };
        assert(r.span_fields() =~= Map::<u64, Map<Seq<char>, Seq<char>>>::empty());
        r
    }

    /// The same collector with `level` as its threshold.
    pub fn with_level(self, level: Level) -> (r: Self)
        ensures
            r.threshold() == Some(level),
            r.allowed() == self.allowed(),
            r.span_fields() == self.span_fields(),
            r.buffered() == self.buffered(),
            r.capacity() == self.capacity(),
    {
        EventCollector {
            allowed_targets: self.allowed_targets,
            threshold: AtomicLevelFilter::from(Some(level)),
            spans: self.spans,
            events: self.events,
        }
    }

    /// The same collector taking events from the given origins only.
    pub fn allowed_targets(self, allowed_targets: AllowedTargets) -> (r: Self)
        ensures
            r.allowed() == allowed_targets,
            r.threshold() == self.threshold(),
            r.span_fields() == self.span_fields(),
            r.buffered() == self.buffered(),
            r.capacity() == self.capacity(),
    {
        EventCollector {
            allowed_targets,
            threshold: self.threshold,
            spans: self.spans,
            events: self.events,
        }
    }

    /// The same collector with a new, empty buffer that keeps `max_events`
    /// events.
    pub fn max_log_entries(self, max_events: usize) -> (r: Self)
        ensures
            r.capacity() == max_events,
            r.buffered() == Seq::<EventView>::empty(),
            r.allowed() == self.allowed(),
            r.threshold() == self.threshold(),
            r.span_fields() == self.span_fields(),
    {
        EventCollector {
            allowed_targets: self.allowed_targets,
            threshold: self.threshold,
            spans: self.spans,
            events: EventBuffer::new(max_events),
        }
    }

    /// How many events the collector keeps.
    pub fn max_events(&self) -> (n: usize)
        ensures
            n == self.capacity(),
    {
        self.events.max_events()
    }

    /// The buffer of the events collected and still kept.
    pub fn events(&self) -> (r: &EventBuffer)
        ensures
            r@ == self.buffered(),
            r.capacity() == self.capacity(),
    {
        &self.events
    }

    /// The store of the span `id`, where the span is open.
    pub fn span_store(&self, id: u64) -> (r: Option<&FieldMap>)
        ensures
            r is Some <==> self.span_fields().contains_key(id),
            r is Some ==> r->0@ == self.span_fields()[id],
    {
        self.spans.get(&id)
    }

    /// The origins the collector takes events from.
    pub fn targets(&self) -> (r: &AllowedTargets)
        ensures
            *r == self.allowed(),
    {
        &self.allowed_targets
    }

    /// The current threshold.
    pub fn level(&self) -> (r: Option<Level>)
        ensures
            r == self.threshold(),
    {
        self.threshold.as_level_filter()
    }

    /// Whether an event of `level` would be collected now.
    pub fn is_enabled(&self, level: Level) -> (r: bool)
        ensures
            r == admits(self.threshold(), level),
    {
        self.threshold.is_level_enabled(&level)
    }

    /// Sets the threshold and reports whether it changed. After a change
    /// the tracing framework is asked to decide anew which callsites are
    /// enabled, so that what was suppressed before can come through.
    pub fn set_max_filter_level(&mut self, level: Option<Level>) -> (changed: bool)
        ensures
            changed == (old(self).threshold() != level),
            final(self).threshold() == level,
            final(self).allowed() == old(self).allowed(),
            final(self).span_fields() == old(self).span_fields(),
            final(self).buffered() == old(self).buffered(),
            final(self).capacity() == old(self).capacity(),
    {
        let changed = self.threshold.set_from_level(level);
        if changed {
            rebuild_interest_cache();
        }
        changed
    }

    /// Drops every collected event.
    pub fn clear(&mut self)
        ensures
            final(self).buffered() == cleared(old(self).buffered()),
            final(self).capacity() == old(self).capacity(),
            final(self).threshold() == old(self).threshold(),
            final(self).allowed() == old(self).allowed(),
            final(self).span_fields() == old(self).span_fields(),
    {
        self.events.clear();
    }

    /// Takes an event that is already put together: it is kept where its
    /// level passes the threshold and its origin is allowed.
    pub fn collect(&mut self, event: CollectedEvent)
        ensures
            final(self).buffered() == if admits(old(self).threshold(), event@.level) && old(
                self,
            ).allowed().allows(event@.target) {
                pushed(old(self).buffered(), old(self).capacity(), event@)
            } else {
                old(self).buffered()
            },
            final(self).capacity() == old(self).capacity(),
            final(self).threshold() == old(self).threshold(),
            final(self).allowed() == old(self).allowed(),
            final(self).span_fields() == old(self).span_fields(),
    {
        if self.threshold.is_level_enabled(&event.level) {
            if self.allowed_targets.is_allowed(event.target.as_str()) {
                self.events.push(event);
            }
        }
    }

    /// A span was created: its store holds the fields it was created with.
    /// Of several values given for one name the first counts.
    pub fn on_new_span(&mut self, id: u64, fields: &Vec<(String, String)>)
        ensures
            final(self).span_fields() == old(self).span_fields().insert(
                id,
                first_wins(records_of(fields@)),
            ),
            final(self).buffered() == old(self).buffered(),
            final(self).capacity() == old(self).capacity(),
            final(self).threshold() == old(self).threshold(),
            final(self).allowed() == old(self).allowed(),
    {
        let store = FieldMap::from_records(fields);
        let ghost before = self.span_fields();
        self.spans.insert(id, store);
        assert(self.span_fields() =~= before.insert(id, store@));
    }

    /// Values were recorded on a span: they are laid over the span's store,
    /// replacing what a name had. A span that the collector does not know
    /// is passed over.
    pub fn on_record(&mut self, id: u64, values: &Vec<(String, String)>)
        ensures
            final(self).span_fields() == if old(self).span_fields().contains_key(id) {
                old(self).span_fields().insert(
                    id,
                    old(self).span_fields()[id].union_prefer_right(
                        first_wins(records_of(values@)),
                    ),
                )
            } else {
                old(self).span_fields()
            },
            final(self).buffered() == old(self).buffered(),
            final(self).capacity() == old(self).capacity(),
            final(self).threshold() == old(self).threshold(),
            final(self).allowed() == old(self).allowed(),
    {
        let ghost before = self.span_fields();
        match self.spans.remove(&id) {
            Some(store) => {
                let mut store = store;
                let ghost had = store@;
                assert(before[id] == had);
                let recorded = FieldMap::from_records(values);
                store.extend(&recorded);
                self.spans.insert(id, store);
                assert(self.span_fields() =~= before.insert(
                    id,
                    had.union_prefer_right(first_wins(records_of(values@))),
                ));
            },
            None => {
                assert(self.span_fields() =~= before);
            },
        }
    }

    /// A span was closed: its store is dropped.
    pub fn on_close(&mut self, id: u64)
        ensures
            final(self).span_fields() == old(self).span_fields().remove(id),
            final(self).buffered() == old(self).buffered(),
            final(self).capacity() == old(self).capacity(),
            final(self).threshold() == old(self).threshold(),
            final(self).allowed() == old(self).allowed(),
    {
        let ghost before = self.span_fields();
        let _ = self.spans.remove(&id);
        assert(self.span_fields() =~= before.remove(id));
    }

    /// The fields that an event in the given scope sees, with its own
    /// fields laid over those of the spans around it.
    pub fn aggregate_scope(&self, scope: &Vec<u64>, own: &Vec<(String, String)>) -> (r: FieldMap)
        ensures
            r@ == event_fields(self.span_fields(), scope@, records_of(own@)),
    {
        let mut chain: Vec<&FieldMap> = Vec::new();
        let mut i: usize = 0;
        assert(scope@.take(0) =~= Seq::<u64>::empty());
        while i < scope.len()
            invariant
                i <= scope.len(),
                views_of(chain@) == scope_stores(self.span_fields(), scope@.take(i as int)),
            decreases scope.len() - i,
        {
            let ghost had = views_of(chain@);
            let found = self.spans.get(&scope[i]);
            match found {
                Some(store) => {
                    chain.push(store);
                    assert(views_of(chain@) =~= had.push(store@));
                },
                None => {},
            }
            proof {
                assert(scope@.take(i + 1).drop_last() =~= scope@.take(i as int));
                assert(scope@.take(i + 1).last() == scope@[i as int]);
            }
            i += 1;
        }
        assert(scope@.take(i as int) =~= scope@);
        let own_fields = FieldMap::from_records(own);
        aggregate_fields(&chain, &own_fields)
    }

    /// An event was emitted at `time`. Where its level passes the
    /// threshold, the fields it sees are put together and the event is
    /// kept; else nothing is done.
    pub fn on_event_at(
        &mut self,
        level: Level,
        target: &str,
        scope: &Vec<u64>,
        own: &Vec<(String, String)>,
        time: Timestamp,
    )
        ensures
            final(self).buffered() == if admits(old(self).threshold(), level) {
                pushed(
                    old(self).buffered(),
                    old(self).capacity(),
                    event_seen(
                        old(self).span_fields(),
                        level,
                        target@,
                        scope@,
                        records_of(own@),
                        time,
                    ),
                )
            } else {
                old(self).buffered()
            },
            final(self).capacity() == old(self).capacity(),
            final(self).threshold() == old(self).threshold(),
            final(self).allowed() == old(self).allowed(),
            final(self).span_fields() == old(self).span_fields(),
    {
        if self.threshold.is_level_enabled(&level) {
            let fields = self.aggregate_scope(scope, own);
            let event = CollectedEvent::at(fields, target, level, time);
            self.events.push(event);
        }
    }

    /// An event was emitted now. Where its level passes the threshold it
    /// is kept, stamped with the time of the call; else nothing is done.
    pub fn on_event(
        &mut self,
        level: Level,
        target: &str,
        scope: &Vec<u64>,
        own: &Vec<(String, String)>,
    )
        ensures
            !admits(old(self).threshold(), level) ==> final(self).buffered() == old(
                self,
            ).buffered(),
            admits(old(self).threshold(), level) ==> exists|time: Timestamp|
                final(self).buffered() == pushed(
                    old(self).buffered(),
                    old(self).capacity(),
                    #[trigger] event_seen(
                        old(self).span_fields(),
                        level,
                        target@,
                        scope@,
                        records_of(own@),
                        time,
                    ),
                ),
            final(self).capacity() == old(self).capacity(),
            final(self).threshold() == old(self).threshold(),
            final(self).allowed() == old(self).allowed(),
            final(self).span_fields() == old(self).span_fields(),
    {
        if self.threshold.is_level_enabled(&level) {
            let time = local_now();
            self.on_event_at(level, target, scope, own, time);
        }
    }
}

impl Default for EventCollector {
    /// A collector that takes every event, with room for the default
    /// number of events.
    fn default() -> (r: Self)
        ensures
            r.allowed() is All,
            r.threshold() == Some(Level::Trace),
            r.span_fields() == Map::<u64, Map<Seq<char>, Seq<char>>>::empty(),
            r.buffered() == Seq::<EventView>::empty(),
            r.capacity() == DEFAULT_MAX_EVENTS,
    {
        EventCollector::new()
    }
}

} // verus!
