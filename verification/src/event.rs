use vstd::prelude::*;
use crate::fields::FieldMap;
use crate::level::Level;

verus! {

/// A wall-clock reading in the local time zone: whole seconds and
/// nanoseconds since the Unix epoch, and the zone's offset from UTC in
/// seconds at that moment.
#[derive(Clone, Copy, Debug, PartialEq, Eq, Structural)]
pub struct Timestamp {
    pub seconds: i64,
    pub nanos: u32,
    pub offset_seconds: i32,
}

/// `chrono::Local::now`, taken apart by `timestamp`,
/// `timestamp_subsec_nanos` and the offset's `local_minus_utc`. It is the
/// clock's reading, so nothing is claimed of it.
#[verifier::external_body]
pub(crate) fn local_now() -> (now: Timestamp)
{
    let now = chrono::Local::now();
    Timestamp {
        seconds: now.timestamp(),
        nanos: now.timestamp_subsec_nanos(),
        offset_seconds: now.offset().local_minus_utc(),
    }
}

/// What the contracts see of a collected event.
pub struct EventView {
    pub target: Seq<char>,
    pub level: Level,
    pub fields: Map<Seq<char>, Seq<char>>,
    pub time: Timestamp,
}

/// An event as it was collected: where it came from, how severe it is, the
/// fields visible to it, and when it was collected.
#[derive(Debug)]
pub struct CollectedEvent {
    pub target: String,
    pub level: Level,
    pub fields: FieldMap,
    pub time: Timestamp,
}

impl View for CollectedEvent {
    type V = EventView;

    open spec fn view(&self) -> EventView {
        EventView {
            target: self.target@,
            level: self.level,
            fields: self.fields@,
            time: self.time,
        }
    }
}

impl CollectedEvent {
    /// An event of the given origin and severity with the given fields,
    /// stamped with the time of the call.
    pub fn new(fields: FieldMap, target: &str, level: Level) -> (r: Self)
        ensures
            r@.target == target@,
            r@.level == level,
            r@.fields == fields@,
    {
        CollectedEvent::at(fields, target, level, local_now())
    }

    /// An event of the given origin and severity with the given fields,
    /// collected at `time`.
    pub fn at(fields: FieldMap, target: &str, level: Level, time: Timestamp) -> (r: Self)
        ensures
            r@ == (EventView { target: target@, level, fields: fields@, time }),
    {
        CollectedEvent { target: target.to_owned(), level, fields, time }
    }
}

impl Clone for CollectedEvent {
    fn clone(&self) -> (r: Self)
        ensures
            r@ == self@,
    {
        CollectedEvent {
            target: self.target.clone(),
            level: self.level,
            fields: self.fields.clone(),
            time: self.time,
        }
    }
}

} // verus!
