//! Event buses: they number the runtime events and hand them on.

use vstd::prelude::*;

use crate::protocol::framing;
use crate::protocol::{RuntimeEvent, RuntimeEventKind, RuntimeEventKindModel, RuntimeEventModel};

verus! {

/// The event of the given kind that follows `sequence`.
pub open spec fn next_event(sequence: u64, kind: RuntimeEventKindModel) -> RuntimeEventModel {
    RuntimeEventModel { sequence: (sequence + 1) as u64, kind }
}

/// What a subscriber of a broadcast bus got.
#[derive(Debug)]
pub enum Received {
    /// The notification of an event, as JSON text or as the reason why it has none.
    Event(Result<String, String>),
    /// That many events were dropped because the subscriber was too slow.
    Lagged(u64),
    /// There will be no more events.
    Closed,
}

/// What a subscriber hands on.
#[derive(Debug, PartialEq, Eq)]
pub enum Delivery {
    /// One line.
    Line(String),
    /// Nothing; it goes on waiting.
    Wait,
    /// The end.
    End,
}

/// Number of events that a broadcast bus holds for slow subscribers.
pub const DEFAULT_CAPACITY: usize = 64;

/// A bus that hands each event to all subscribers at the time.
#[derive(Debug)]
pub struct BroadcastEventBus {
    /// Number of events that are held for slow subscribers.
    pub capacity: usize,
    /// Sequence number of the last event.
    pub sequence: u64,
}

impl BroadcastEventBus {
    /// Create a bus with the default capacity.
    pub fn new() -> (r: Self)
        ensures
            r.sequence == 0,
            r.capacity == DEFAULT_CAPACITY,
    {
        BroadcastEventBus { capacity: DEFAULT_CAPACITY, sequence: 0 }
    }

    /// Create a bus with the given capacity, which must hold something.
    pub fn with_capacity(capacity: usize) -> (r: Self)
        requires
            capacity > 0,
        ensures
            r.sequence == 0,
            r.capacity == capacity,
    {
        BroadcastEventBus { capacity, sequence: 0 }
    }

    /// Numbers an event, to be sent to all subscribers.
    pub fn emit(&mut self, kind: RuntimeEventKind) -> (r: RuntimeEvent)
        requires
            old(self).sequence < u64::MAX,
        ensures
            final(self).capacity == old(self).capacity,
            final(self).sequence == old(self).sequence + 1,
            r.deep_view() == next_event(old(self).sequence, kind.deep_view()),
    {
        self.sequence = self.sequence + 1;
        RuntimeEvent { sequence: self.sequence, kind }
    }

    /// Tells what a subscriber hands on: the line of an event. An event that cannot be
    /// encoded and a lag are passed over.
    pub fn deliver(received: Received) -> (r: Delivery)
        ensures
            match received {
                Received::Event(Ok(message)) => r is Line && r->Line_0@ == framing::json_line(
                    message@,
                ),
                Received::Event(Err(_)) => r is Wait,
                Received::Lagged(_) => r is Wait,
                Received::Closed => r is End,
            },
    {
        match received {
            Received::Event(message) => match framing::encode_json_line(message) {
                Ok(line) => Delivery::Line(line),
                Err(_) => Delivery::Wait,
            },
            Received::Lagged(_) => Delivery::Wait,
            Received::Closed => Delivery::End,
        }
    }
}

impl Default for BroadcastEventBus {
    fn default() -> (r: Self)
        ensures
            r.sequence == 0,
            r.capacity == DEFAULT_CAPACITY,
    {
        BroadcastEventBus::new()
    }
}

/// A bus that records every event.
#[derive(Debug)]
pub struct RecordingEventBus {
    events: Vec<RuntimeEvent>,
    sequence: u64,
}

/// What a [`RecordingEventBus`] holds.
pub struct RecordingEventBusModel {
    pub events: Seq<RuntimeEventModel>,
    pub sequence: u64,
}

impl DeepView for RecordingEventBus {
    type V = RecordingEventBusModel;

    closed spec fn deep_view(&self) -> RecordingEventBusModel {
        RecordingEventBusModel { events: self.events.deep_view(), sequence: self.sequence }
    }
}

/// The bus after one more event.
pub open spec fn recorded(
    bus: RecordingEventBusModel,
    kind: RuntimeEventKindModel,
) -> RecordingEventBusModel {
    RecordingEventBusModel {
        events: bus.events.push(next_event(bus.sequence, kind)),
        sequence: (bus.sequence + 1) as u64,
    }
}

impl RecordingEventBus {
    /// Create a new empty recording bus.
    pub fn new() -> (r: Self)
        ensures
            r.deep_view() == (RecordingEventBusModel { events: Seq::empty(), sequence: 0 }),
    {
        let events: Vec<RuntimeEvent> = Vec::new();
        assert(events.deep_view() =~= Seq::empty());
        RecordingEventBus { events, sequence: 0 }
    }

    /// Records an event under the next sequence number.
    pub fn emit(&mut self, kind: RuntimeEventKind)
        requires
            old(self).deep_view().sequence < u64::MAX,
        ensures
            final(self).deep_view() == recorded(old(self).deep_view(), kind.deep_view()),
    {
        let ghost before = self.events.deep_view();
        self.sequence = self.sequence + 1;
        let event = RuntimeEvent { sequence: self.sequence, kind };
        self.events.push(event);
        assert(self.events.deep_view() =~= before.push(event.deep_view()));
    }

    /// Drain and return all recorded events.
    pub fn take_events(&mut self) -> (r: Vec<RuntimeEvent>)
        ensures
            r.deep_view() == old(self).deep_view().events,
            final(self).deep_view() == (RecordingEventBusModel {
                events: Seq::empty(),
                sequence: old(self).deep_view().sequence,
            }),
    {
        let mut events: Vec<RuntimeEvent> = Vec::new();
        std::mem::swap(&mut events, &mut self.events);
        assert(self.events.deep_view() =~= Seq::empty());
        events
    }
}

impl Default for RecordingEventBus {
    fn default() -> (r: Self)
        ensures
            r.deep_view() == (RecordingEventBusModel { events: Seq::empty(), sequence: 0 }),
    {
        RecordingEventBus::new()
    }
}

/// The bus after several events.
pub open spec fn recorded_all(
    bus: RecordingEventBusModel,
    kinds: Seq<RuntimeEventKindModel>,
) -> RecordingEventBusModel
    decreases kinds.len(),
{
    if kinds.len() == 0 {
        bus
    } else {
        recorded(recorded_all(bus, kinds.drop_last()), kinds.last())
    }
}

/// Events keep the order in which they were emitted, and their sequence numbers count up
/// without gaps.
pub proof fn law_events_are_numbered_in_order(
    bus: RecordingEventBusModel,
    kinds: Seq<RuntimeEventKindModel>,
)
    requires
        bus.sequence + kinds.len() <= u64::MAX,
    ensures
        ({
            let after = recorded_all(bus, kinds);
            &&& after.sequence == bus.sequence + kinds.len()
            &&& after.events.len() == bus.events.len() + kinds.len()
            &&& forall|i: int|
                0 <= i < bus.events.len() ==> #[trigger] after.events[i] == bus.events[i]
            &&& forall|i: int|
                0 <= i < kinds.len() ==> (#[trigger] after.events[bus.events.len() + i]).kind
                    == kinds[i] && after.events[bus.events.len() + i].sequence == bus.sequence + 1
                    + i
        }),
    decreases kinds.len(),
{
    if kinds.len() > 0 {
        let rest = kinds.drop_last();
        law_events_are_numbered_in_order(bus, rest);
        let before = recorded_all(bus, rest);
        let after = recorded_all(bus, kinds);
        let start = bus.events.len() as int;
        assert forall|i: int| 0 <= i < kinds.len() implies (#[trigger] after.events[start
            + i]).kind == kinds[i] && after.events[start + i].sequence == bus.sequence + 1
            + i by {
            if i < rest.len() {
                assert(after.events[start + i] == before.events[start + i]);
                assert(rest[i] == kinds[i]);
            }
        }
    }
}

} // verus!
