use vstd::prelude::*;
use crate::ids::UUID4;

verus! {

/// A UNIX timestamp in nanoseconds.
pub type Timestamp = u64;

/// A signed duration in nanoseconds.
pub type Timedelta = i64;

/// The dispatch class of a message.
#[allow(non_camel_case_types)]
#[derive(Clone, Copy, Debug, PartialEq, Eq, Structural)]
pub enum MessageCategory {
    COMMAND,
    DOCUMENT,
    EVENT,
    REQUEST,
    RESPONSE,
}

/// Represents a time event occurring at the event timestamp.
#[derive(Clone, Debug)]
pub struct TimeEvent {
    /// The event name.
    pub name: String,
    /// The message category.
    pub category: MessageCategory,
    /// The event ID.
    pub event_id: UUID4,
    /// The UNIX timestamp (nanoseconds) when the time event occurred.
    pub ts_event: Timestamp,
    /// The UNIX timestamp (nanoseconds) when the object was initialized.
    pub ts_init: Timestamp,
}

/// Two events are equal when they carry the same name and represent the same
/// instant; the identifier and the initialization time do not take part.
impl PartialEq for TimeEvent {
    fn eq(&self, other: &Self) -> (r: bool)
        ensures
            r == (self.name@ == other.name@ && self.ts_event == other.ts_event),
    {
        self.name == other.name && self.ts_event == other.ts_event
    }
}

impl vstd::std_specs::cmp::PartialEqSpecImpl for TimeEvent {
    open spec fn obeys_eq_spec() -> bool {
        true
    }

    open spec fn eq_spec(&self, other: &TimeEvent) -> bool {
        self.name@ == other.name@ && self.ts_event == other.ts_event
    }
}

impl TimeEvent {
    /// A generic event with the given name, identifier and timestamps.
    pub fn new(name: String, event_id: UUID4, ts_event: Timestamp, ts_init: Timestamp) -> (r: TimeEvent)
        ensures
            r.name@ == name@,
            r.category == MessageCategory::EVENT,
            r.event_id == event_id,
            r.ts_event == ts_event,
            r.ts_init == ts_init,
    {
        TimeEvent { name, category: MessageCategory::EVENT, event_id, ts_event, ts_init }
    }
}

} // verus!
