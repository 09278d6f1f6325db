use byte::protocol::{DaemonState, RuntimeEventKind};
use byte::runtime::event_bus::{BroadcastEventBus, Delivery, Received, RecordingEventBus};

fn started(version: &str) -> RuntimeEventKind {
    RuntimeEventKind::daemon_started(DaemonState::ready(version))
}

#[test]
fn recording_bus_records_emitted_events() {
    let mut bus = RecordingEventBus::new();
    let kind = started("test");

    bus.emit(kind.clone());

    let events = bus.take_events();
    assert_eq!(events.len(), 1);
    assert_eq!(events[0].kind, kind);
    assert!(events[0].sequence > 0);
}

#[test]
fn sequence_numbers_count_up() {
    let mut bus = RecordingEventBus::default();
    bus.emit(started("1"));
    bus.emit(started("2"));
    let first = bus.take_events();
    bus.emit(started("3"));
    let second = bus.take_events();
    let numbers: Vec<u64> = first
        .iter()
        .chain(second.iter())
        .map(|event| event.sequence)
        .collect();
    assert_eq!(numbers, vec![1, 2, 3]);
    assert!(bus.take_events().is_empty());
}

#[test]
fn broadcast_bus_delivers_events_to_subscribers() {
    let mut bus = BroadcastEventBus::new();
    let event = bus.emit(started("test"));
    assert_eq!(event.kind, started("test"));
    assert_eq!(event.sequence, 1);
    assert_eq!(bus.emit(started("test")).sequence, 2);
    assert_eq!(bus.capacity, 64);
}

#[test]
fn broadcast_bus_subscribe_json_lines_delivers_encoded_events() {
    let message = "{\"type\":\"daemon_started\"}".to_string();
    assert_eq!(
        BroadcastEventBus::deliver(Received::Event(Ok(message))),
        Delivery::Line("{\"type\":\"daemon_started\"}\n".into())
    );
}

#[test]
fn broadcast_bus_lagged_subscriber_receives_later_events() {
    assert_eq!(
        BroadcastEventBus::deliver(Received::Lagged(3)),
        Delivery::Wait
    );
    assert_eq!(
        BroadcastEventBus::deliver(Received::Event(Err("bad".into()))),
        Delivery::Wait
    );
    assert_eq!(BroadcastEventBus::deliver(Received::Closed), Delivery::End);
    assert_eq!(BroadcastEventBus::with_capacity(2).capacity, 2);
}
