use vstd::prelude::*;
use std::collections::VecDeque;
use crate::event::{CollectedEvent, EventView};

verus! {

/// The number of events a buffer keeps unless another is asked for.
pub const DEFAULT_MAX_EVENTS: usize = 10000;

/// What a buffer that may keep `max` events holds after one more event
/// arrives: where it is full, the oldest event leaves first.
pub open spec fn pushed(events: Seq<EventView>, max: nat, event: EventView) -> Seq<EventView> {
    if events.len() >= max && events.len() > 0 {
        events.drop_first().push(event)
    } else {
        events.push(event)
    }
}

/// What the buffer holds after the events of `more` arrive one by one.
pub open spec fn pushed_all(events: Seq<EventView>, max: nat, more: Seq<EventView>) -> Seq<
    EventView,
>
    decreases more.len(),
{
    if more.len() == 0 {
        events
    } else {
        pushed(pushed_all(events, max, more.drop_last()), max, more.last())
    }
}

/// The last `n` elements of a sequence, or all of it where it is shorter.
pub open spec fn newest(events: Seq<EventView>, n: nat) -> Seq<EventView> {
    if events.len() <= n {
        events
    } else {
        events.subrange(events.len() - n, events.len() as int)
    }
}

/// A buffer that may keep at least one event never holds more than it may
/// keep, however many arrive, and what it holds is the newest of all that
/// it held or received, in the order of arrival. So nothing is lost or
/// doubled while there is room, and once more than `max` events have
/// arrived exactly the `max` newest are left.
pub proof fn lemma_bounded_retention(events: Seq<EventView>, max: nat, more: Seq<EventView>)
    requires
        max >= 1,
        events.len() <= max,
    ensures
        pushed_all(events, max, more).len() <= max,
        pushed_all(events, max, more) == newest(events + more, max),
        events.len() + more.len() <= max ==> pushed_all(events, max, more) == events + more,
        more.len() >= max ==> pushed_all(events, max, more) == more.subrange(
            more.len() - max,
            more.len() as int,
        ),
    decreases more.len(),
{
    if more.len() == 0 {
        assert(events + more =~= events);
    } else {
        let front = more.drop_last();
        lemma_bounded_retention(events, max, front);
        let before = pushed_all(events, max, front);
        assert(events + more =~= (events + front).push(more.last()));
        assert(pushed(before, max, more.last()) =~= newest(events + more, max));
    }
    if more.len() >= max {
        assert(newest(events + more, max) =~= more.subrange(more.len() - max, more.len() as int));
    }
}

/// Emptying a buffer leaves it empty, and emptying it again changes
/// nothing.
pub proof fn lemma_clear_idempotent(events: Seq<EventView>)
    ensures
        cleared(events).len() == 0,
        cleared(cleared(events)) == cleared(events),
{
}

/// What a buffer holds after it was emptied.
pub open spec fn cleared(events: Seq<EventView>) -> Seq<EventView> {
    Seq::empty()
}

/// The events collected so far, oldest first, up to a fixed number of
/// them.
#[derive(Debug)]
pub struct EventBuffer {
    events: VecDeque<CollectedEvent>,
    max_events: usize,
}

impl View for EventBuffer {
    type V = Seq<EventView>;

    closed spec fn view(&self) -> Seq<EventView> {
        self.events@.map_values(|e: CollectedEvent| e@)
    }
}

impl EventBuffer {
    #[verifier::type_invariant]
    spec fn bounded(self) -> bool {
        self.events@.len() <= self.max_events || self.events@.len() <= 1
    }

    /// How many events the buffer may keep.
    pub closed spec fn capacity(&self) -> nat {
        self.max_events as nat
    }

    /// An empty buffer that may keep `max_events` events.
    pub fn new(max_events: usize) -> (r: Self)
        ensures
            r@ == Seq::<EventView>::empty(),
            r.capacity() == max_events,
    {
        let r = EventBuffer { events: VecDeque::new(), max_events };
        assert(r@ =~= Seq::<EventView>::empty());
        r
    }

    /// How many events the buffer may keep.
    pub fn max_events(&self) -> (n: usize)
        ensures
            n == self.capacity(),
    {
        self.max_events
    }

    /// How many events the buffer holds: never more than it may keep,
    /// except that a buffer made to keep none still holds the newest one.
    pub fn len(&self) -> (n: usize)
        ensures
            n == self@.len(),
            n <= self.capacity() || n <= 1,
    {
        proof {
            use_type_invariant(self);
        }
        self.events.len()
    }

    /// Whether the buffer holds no event.
    pub fn is_empty(&self) -> (r: bool)
        ensures
            r == (self@.len() == 0),
    {
        self.events.len() == 0
    }

    /// The event at place `i`, counted from the oldest.
    pub fn get(&self, i: usize) -> (r: Option<&CollectedEvent>)
        ensures
            r is Some <==> i < self@.len(),
            r is Some ==> r->0@ == self@[i as int],
    {
        if i < self.events.len() {
            Some(&self.events[i])
        } else {
            None
        }
    }

    /// Appends an event; a full buffer drops its oldest event first.
    pub fn push(&mut self, event: CollectedEvent)
        ensures
            final(self)@ == pushed(old(self)@, old(self).capacity(), event@),
            final(self).capacity() == old(self).capacity(),
    {
        proof {
            use_type_invariant(&*self);
        }
        let ghost before = self@;
        let mut events: VecDeque<CollectedEvent> = VecDeque::new();
        core::mem::swap(&mut self.events, &mut events);
        if events.len() >= self.max_events {
            let _ = events.pop_front();
        }
        events.push_back(event);
        proof {
            assert(events@.map_values(|e: CollectedEvent| e@) =~= pushed(
                before,
                self.max_events as nat,
                event@,
            ));
        }
        core::mem::swap(&mut self.events, &mut events);
    }

    /// Removes every event and releases the storage they took.
    pub fn clear(&mut self)
        ensures
            final(self)@ == cleared(old(self)@),
            final(self).capacity() == old(self).capacity(),
    {
        self.events = VecDeque::new();
        assert(self@ =~= Seq::<EventView>::empty());
    }

    /// A copy of the events held, oldest first.
    pub fn snapshot(&self) -> (r: Vec<CollectedEvent>)
        ensures
            r@.map_values(|e: CollectedEvent| e@) == self@,
    {
        let mut r: Vec<CollectedEvent> = Vec::new();
        let mut i: usize = 0;
        while i < self.events.len()
            invariant
                i <= self.events.len(),
                r@.len() == i,
                forall|j: int| 0 <= j < i ==> (#[trigger] r@[j])@ == self.events@[j]@,
            decreases self.events.len() - i,
        {
            r.push(self.events[i].clone());
            i += 1;
        }
        assert(r@.map_values(|e: CollectedEvent| e@) =~= self@);
        r
    }
}

impl Default for EventBuffer {
    fn default() -> (r: Self)
        ensures
            r@ == Seq::<EventView>::empty(),
            r.capacity() == DEFAULT_MAX_EVENTS,
    {
        EventBuffer::new(DEFAULT_MAX_EVENTS)
    }
}

} // verus!
