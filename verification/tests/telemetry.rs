use pgress_session::isa::Uid;
use pgress_session::SessionId;
use pgress_session::telemetry::{TelemetryEvent, TelemetryNodeName, TelemetryPartition};

#[test]
fn emit_and_drain_in_order() {
    let mut tp = TelemetryPartition::new(8);
    let uid_a  = Uid(1);
    let uid_b  = Uid(2);

    tp.emit(TelemetryEvent::ValueChanged { node: uid_a, version: 1 });
    tp.emit(TelemetryEvent::ValueChanged { node: uid_b, version: 2 });

    let events = tp.drain();
    assert_eq!(events.len(), 2);
    assert!(matches!(events[0], TelemetryEvent::ValueChanged { node, .. } if node == uid_a));
    assert!(matches!(events[1], TelemetryEvent::ValueChanged { node, .. } if node == uid_b));
    assert!(tp.is_empty());
}

#[test]
fn overflow_drops_oldest_event() {
    let mut tp = TelemetryPartition::new(2);
    let uid_a = Uid(3);
    let uid_b = Uid(4);
    let uid_c = Uid(5);

    tp.emit(TelemetryEvent::ValueChanged { node: uid_a, version: 1 });
    tp.emit(TelemetryEvent::ValueChanged { node: uid_b, version: 2 });
    tp.emit(TelemetryEvent::ValueChanged { node: uid_c, version: 3 }); // drops uid_a

    assert_eq!(tp.dropped, 1);
    let events = tp.drain();
    assert_eq!(events.len(), 2);
    // uid_a was dropped; uid_b and uid_c remain
    assert!(matches!(events[0], TelemetryEvent::ValueChanged { node, .. } if node == uid_b));
    assert!(matches!(events[1], TelemetryEvent::ValueChanged { node, .. } if node == uid_c));
}

#[test]
fn drain_resets_dropped_counter() {
    let mut tp = TelemetryPartition::new(1);
    tp.emit(TelemetryEvent::ValueChanged { node: Uid(6), version: 1 });
    tp.emit(TelemetryEvent::ValueChanged { node: Uid(7), version: 2 });
    assert_eq!(tp.dropped, 1);
    tp.drain();
    assert_eq!(tp.dropped, 0);
}

#[test]
fn node_name_format() {
    let uid  = Uid(8);
    let name = TelemetryNodeName::node_value(uid);
    assert!(name.starts_with("node::"));
    assert!(name.ends_with("::value"));

    let name = TelemetryNodeName::auth_violations();
    assert_eq!(name, "auth::violations");
}

#[test]
fn session_health_name_contains_session_id() {
    let name = TelemetryNodeName::session_health(SessionId(42));
    assert!(name.contains("42"));
    assert!(name.contains("stream_health"));
}
