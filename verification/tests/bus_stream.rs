use chat_relay::bus::{Bus, RecvOutcome};
use chat_relay::ingest::ingest;
use chat_relay::message::{Message, ValidationError};
use chat_relay::stream::{stream_poll, stream_step, StreamAction};

fn msg(room: &str, username: &str, text: &str) -> Message {
    Message {
        room: room.to_string(),
        username: username.to_string(),
        text: text.to_string(),
    }
}

fn recv_text(bus: &Bus, sub: &mut chat_relay::bus::Subscriber) -> Option<String> {
    match bus.recv(sub) {
        RecvOutcome::Received(m) => Some(m.text),
        _ => None,
    }
}

#[test]
fn subscriber_receives_in_publish_order_exactly_once() {
    let mut bus = Bus::new(8);
    let mut sub = bus.subscribe();
    bus.publish(msg("lobby", "alice", "one")).unwrap();
    bus.publish(msg("lobby", "bob", "two")).unwrap();
    bus.publish(msg("lobby", "alice", "three")).unwrap();
    assert_eq!(recv_text(&bus, &mut sub).as_deref(), Some("one"));
    assert_eq!(recv_text(&bus, &mut sub).as_deref(), Some("two"));
    assert_eq!(recv_text(&bus, &mut sub).as_deref(), Some("three"));
    assert!(matches!(bus.recv(&mut sub), RecvOutcome::Pending));
}

#[test]
fn every_prior_subscriber_gets_every_message() {
    let mut bus = Bus::new(8);
    let mut s1 = bus.subscribe();
    let mut s2 = bus.subscribe();
    bus.publish(msg("a", "u", "hello")).unwrap();
    assert_eq!(recv_text(&bus, &mut s1).as_deref(), Some("hello"));
    assert_eq!(recv_text(&bus, &mut s2).as_deref(), Some("hello"));
}

#[test]
fn late_subscriber_sees_no_backlog() {
    let mut bus = Bus::new(8);
    bus.publish(msg("lobby", "alice", "early")).unwrap();
    let mut sub = bus.subscribe();
    assert!(matches!(bus.recv(&mut sub), RecvOutcome::Pending));
    bus.publish(msg("lobby", "bob", "late")).unwrap();
    assert_eq!(recv_text(&bus, &mut sub).as_deref(), Some("late"));
    assert!(matches!(bus.recv(&mut sub), RecvOutcome::Pending));
}

#[test]
fn lagged_subscriber_skips_overflow_and_resumes() {
    let mut bus = Bus::new(2);
    let mut sub = bus.subscribe();
    for i in 0..5 {
        bus.publish(msg("lobby", "alice", &format!("m{}", i))).unwrap();
    }
    // Backlog of 5 exceeds capacity 2: one lag report, then the retained
    // tail arrives in order; the subscriber is never torn down.
    assert!(matches!(bus.recv(&mut sub), RecvOutcome::Lagged));
    assert_eq!(recv_text(&bus, &mut sub).as_deref(), Some("m3"));
    assert_eq!(recv_text(&bus, &mut sub).as_deref(), Some("m4"));
    assert!(matches!(bus.recv(&mut sub), RecvOutcome::Pending));
}

#[test]
fn backlog_at_capacity_does_not_lag() {
    let mut bus = Bus::new(3);
    let mut sub = bus.subscribe();
    for i in 0..3 {
        bus.publish(msg("lobby", "alice", &format!("m{}", i))).unwrap();
    }
    assert_eq!(recv_text(&bus, &mut sub).as_deref(), Some("m0"));
    assert_eq!(recv_text(&bus, &mut sub).as_deref(), Some("m1"));
    assert_eq!(recv_text(&bus, &mut sub).as_deref(), Some("m2"));
}

#[test]
fn publish_with_zero_subscribers_succeeds() {
    let mut bus = Bus::new(4);
    assert!(bus.publish(msg("lobby", "alice", "into the void")).is_ok());
}

#[test]
fn closed_bus_refuses_publish_but_drains() {
    let mut bus = Bus::new(4);
    let mut sub = bus.subscribe();
    bus.publish(msg("lobby", "alice", "last words")).unwrap();
    bus.close();
    assert!(bus.publish(msg("lobby", "bob", "too late")).is_err());
    assert_eq!(recv_text(&bus, &mut sub).as_deref(), Some("last words"));
    assert!(matches!(bus.recv(&mut sub), RecvOutcome::Closed));
}

#[test]
fn ingest_publishes_valid_message() {
    let mut bus = Bus::new(4);
    let mut sub = bus.subscribe();
    let room30 = "r".repeat(30);
    let name30 = "u".repeat(30);
    assert!(ingest(&mut bus, msg(&room30, &name30, "boundary ok")).is_ok());
    assert_eq!(recv_text(&bus, &mut sub).as_deref(), Some("boundary ok"));
}

#[test]
fn ingest_rejects_oversized_room_before_publish() {
    let mut bus = Bus::new(4);
    let mut sub = bus.subscribe();
    let room31 = "r".repeat(31);
    let r = ingest(&mut bus, msg(&room31, "alice", "nope"));
    assert!(matches!(r, Err(ValidationError::RoomTooLong)));
    // Nothing reached the bus.
    assert_eq!(bus.history_len(), 0);
    assert!(matches!(bus.recv(&mut sub), RecvOutcome::Pending));
}

#[test]
fn ingest_rejects_oversized_username_before_publish() {
    let mut bus = Bus::new(4);
    let mut sub = bus.subscribe();
    let name31 = "u".repeat(31);
    let r = ingest(&mut bus, msg("lobby", &name31, "nope"));
    assert!(matches!(r, Err(ValidationError::UsernameTooLong)));
    assert_eq!(bus.history_len(), 0);
    assert!(matches!(bus.recv(&mut sub), RecvOutcome::Pending));
}

#[test]
fn ingest_swallows_closed_bus() {
    let mut bus = Bus::new(4);
    bus.close();
    assert!(ingest(&mut bus, msg("lobby", "alice", "dropped")).is_ok());
    assert_eq!(bus.history_len(), 0);
}

#[test]
fn validate_reports_room_before_username() {
    let long = "x".repeat(31);
    let m = msg(&long, &long, "t");
    assert!(matches!(m.validate(), Err(ValidationError::RoomTooLong)));
}

#[test]
fn stream_step_cancellation_wins() {
    let a = stream_step(true, RecvOutcome::Received(msg("r", "u", "t")));
    assert!(matches!(a, StreamAction::Terminate));
}

#[test]
fn stream_step_maps_outcomes() {
    match stream_step(false, RecvOutcome::Received(msg("r", "u", "payload"))) {
        StreamAction::Emit(m) => {
            assert_eq!(m.room, "r");
            assert_eq!(m.username, "u");
            assert_eq!(m.text, "payload");
        }
        _ => panic!("expected an emitted event"),
    }
    assert!(matches!(stream_step(false, RecvOutcome::Lagged), StreamAction::Skip));
    assert!(matches!(stream_step(false, RecvOutcome::Pending), StreamAction::Wait));
    assert!(matches!(stream_step(false, RecvOutcome::Closed), StreamAction::Terminate));
}

#[test]
fn stream_poll_drains_then_waits_then_terminates() {
    let mut bus = Bus::new(4);
    let mut sub = bus.subscribe();
    bus.publish(msg("lobby", "alice", "ev1")).unwrap();
    match stream_poll(&bus, &mut sub, false) {
        StreamAction::Emit(m) => assert_eq!(m.text, "ev1"),
        _ => panic!("expected an emitted event"),
    }
    assert!(matches!(stream_poll(&bus, &mut sub, false), StreamAction::Wait));
    bus.close();
    assert!(matches!(stream_poll(&bus, &mut sub, false), StreamAction::Terminate));
}

#[test]
fn stream_poll_cancelled_emits_nothing() {
    let mut bus = Bus::new(4);
    let mut sub = bus.subscribe();
    bus.publish(msg("lobby", "alice", "abandoned")).unwrap();
    assert!(matches!(stream_poll(&bus, &mut sub, true), StreamAction::Terminate));
}
