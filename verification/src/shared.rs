use vstd::prelude::*;
use vstd::rwlock::{RwLock, RwLockPredicate};
use crate::collector::EventCollector;
use crate::event::CollectedEvent;

verus! {

/// What holds of a shared collector whenever the lock is free: it keeps
/// the number of events it was made to keep.
pub struct KeepsCapacity {
    pub capacity: nat,
}

impl RwLockPredicate<EventCollector> for KeepsCapacity {
    open spec fn inv(self, v: EventCollector) -> bool {
        v.capacity() == self.capacity
    }
}

/// A collector that any number of producers and a viewer use at once.
/// Every operation takes the lock, works on the collector alone, and gives
/// the lock back, so an event is either fully collected or not yet visible.
pub struct SharedCollector {
    lock: RwLock<EventCollector, KeepsCapacity>,
}

impl SharedCollector {
    /// How many events the collector keeps.
    pub closed spec fn capacity(&self) -> nat {
        self.lock.pred().capacity
    }

    /// Whether `collector` can be the one behind the lock.
    pub open spec fn holds(&self, collector: EventCollector) -> bool {
        collector.capacity() == self.capacity()
    }

    /// Puts a collector behind a lock.
    pub fn new(collector: EventCollector) -> (r: Self)
        ensures
            r.capacity() == collector.capacity(),
    {
        let ghost pred = KeepsCapacity { capacity: collector.capacity() };
        SharedCollector { lock: RwLock::new(collector, Ghost(pred)) }
    }

    /// Takes the collector back from behind the lock.
    pub fn into_inner(self) -> (collector: EventCollector)
        ensures
            self.holds(collector),
    {
        self.lock.into_inner()
    }

    /// Runs `f` on the collector while no one else can reach it, puts back
    /// the collector that `f` returns, and hands on what else `f` returns.
    /// `f` must keep the number of events that the collector keeps.
    pub fn update<R, F: FnOnce(EventCollector) -> (EventCollector, R)>(&self, f: F) -> (r: R)
        requires
            forall|c: EventCollector| self.holds(c) ==> call_requires(f, (c,)),
            forall|c: EventCollector, out: (EventCollector, R)|
                self.holds(c) && call_ensures(f, (c,), out) ==> self.holds(out.0),
        ensures
            exists|before: EventCollector, after: EventCollector|
                self.holds(before) && self.holds(after) && call_ensures(f, (before,), (after, r)),
    {
        let (collector, handle) = self.lock.acquire_write();
        let ghost before = collector;
        assert(self.holds(before));
        let (collector, r) = f(collector);
        assert(self.holds(collector));
        handle.release_write(collector);
        r
    }

    /// Runs `f` on the collector while no one can change it, and hands on
    /// what `f` returns.
    pub fn read<R, F: FnOnce(&EventCollector) -> R>(&self, f: F) -> (r: R)
        requires
            forall|c: EventCollector| self.holds(c) ==> call_requires(f, (&c,)),
        ensures
            exists|c: EventCollector| self.holds(c) && call_ensures(f, (&c,), r),
    {
        let handle = self.lock.acquire_read();
        let collector = handle.borrow();
        assert(self.holds(*collector));
        let r = f(collector);
        handle.release_read();
        r
    }

    /// How many events the collector keeps.
    pub fn max_events(&self) -> (n: usize)
        ensures
            n == self.capacity(),
    {
        let handle = self.lock.acquire_read();
        let n = handle.borrow().max_events();
        handle.release_read();
        n
    }

    /// A copy of the events collected and still kept, oldest first: what
    /// the collector held at the moment the lock was taken. Whatever the
    /// producers do meanwhile, they are never more than the collector
    /// keeps, except that a collector made to keep none still holds the
    /// newest one.
    pub fn events(&self) -> (r: Vec<CollectedEvent>)
        ensures
            exists|c: EventCollector| #[trigger]
                self.holds(c) && r@.map_values(|e: CollectedEvent| e@) == c.buffered(),
            r@.len() <= self.capacity() || r@.len() <= 1,
    {
        let handle = self.lock.acquire_read();
        let collector = handle.borrow();
        assert(self.holds(*collector));
        let buffer = collector.events();
        let kept = buffer.len();
        let r = buffer.snapshot();
        assert(r@.len() == kept) by {
            assert(r@.map_values(|e: CollectedEvent| e@).len() == r@.len());
        }
        assert(r@.map_values(|e: CollectedEvent| e@) == collector.buffered());
        handle.release_read();
        r
    }
}

} // verus!
