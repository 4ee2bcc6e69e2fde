use chat_relay::framing::encode;
use chat_relay::reader::Inbound;
use chat_relay::relay::{EchoPolicy, Relay, RelayEvent, RelayStep};

fn relay_with(count: u64, echo: EchoPolicy) -> Relay {
    let mut relay = Relay::new(echo);
    for expected in 0..count {
        assert_eq!(
            relay.step(RelayEvent::Accepted { arrived: true }),
            RelayStep::StartReader(expected)
        );
        assert_eq!(relay.step(RelayEvent::Started), RelayStep::Poll);
    }
    relay
}

fn message(from: u64, text: &str) -> RelayEvent {
    RelayEvent::Polled(Some(Inbound::Message { from, text: text.to_string() }))
}

#[test]
fn new_relay_has_no_connections() {
    let relay = Relay::new(EchoPolicy::IncludeSender);
    assert_eq!(relay.connections(), Vec::<u64>::new());
}

#[test]
fn relay_polls_when_no_connection_is_pending() {
    let mut relay = Relay::new(EchoPolicy::IncludeSender);
    assert_eq!(relay.step(RelayEvent::Accepted { arrived: false }), RelayStep::Poll);
    assert_eq!(relay.connections(), Vec::<u64>::new());
}

#[test]
fn relay_registers_accepted_connection_and_starts_its_reader() {
    let mut relay = Relay::new(EchoPolicy::IncludeSender);
    assert_eq!(relay.step(RelayEvent::Accepted { arrived: true }), RelayStep::StartReader(0));
    assert_eq!(relay.connections(), vec![0]);
    assert_eq!(relay.step(RelayEvent::Started), RelayStep::Poll);
    assert_eq!(relay.step(RelayEvent::Accepted { arrived: true }), RelayStep::StartReader(1));
    assert_eq!(relay.connections(), vec![0, 1]);
}

#[test]
fn relay_sleeps_when_queue_is_empty() {
    let mut relay = relay_with(2, EchoPolicy::IncludeSender);
    assert_eq!(relay.step(RelayEvent::Polled(None)), RelayStep::Sleep);
    assert_eq!(relay.connections(), vec![0, 1]);
}

#[test]
fn relay_accepts_after_sleep() {
    let mut relay = Relay::new(EchoPolicy::IncludeSender);
    assert_eq!(relay.step(RelayEvent::Slept), RelayStep::Accept);
}

#[test]
fn fan_out_reaches_every_connection_sender_included() {
    let mut relay = relay_with(4, EchoPolicy::IncludeSender);
    assert_eq!(
        relay.step(message(2, "hello")),
        RelayStep::Deliver { frame: encode("hello"), targets: vec![0, 1, 2, 3] }
    );
    assert_eq!(relay.connections(), vec![0, 1, 2, 3]);
}

#[test]
fn fan_out_skips_sender_when_echo_is_excluded() {
    let mut relay = relay_with(4, EchoPolicy::ExcludeSender);
    assert_eq!(
        relay.step(message(2, "hello")),
        RelayStep::Deliver { frame: encode("hello"), targets: vec![0, 1, 3] }
    );
    assert_eq!(relay.connections(), vec![0, 1, 2, 3]);
}

#[test]
fn fan_out_from_unregistered_sender_reaches_all() {
    let mut relay = relay_with(3, EchoPolicy::ExcludeSender);
    assert_eq!(
        relay.step(message(7, "late")),
        RelayStep::Deliver { frame: encode("late"), targets: vec![0, 1, 2] }
    );
}

#[test]
fn fan_out_with_no_connections_has_no_targets() {
    let mut relay = Relay::new(EchoPolicy::IncludeSender);
    assert_eq!(
        relay.step(message(0, "anyone?")),
        RelayStep::Deliver { frame: encode("anyone?"), targets: vec![] }
    );
    assert_eq!(relay.step(RelayEvent::Delivered { failed: vec![] }), RelayStep::Sleep);
}

#[test]
fn fan_out_frames_long_message_truncated() {
    let mut relay = relay_with(1, EchoPolicy::IncludeSender);
    let long = "x".repeat(50);
    match relay.step(message(0, &long)) {
        RelayStep::Deliver { frame, targets } => {
            assert_eq!(frame.bytes, [b'x'; 32]);
            assert_eq!(targets, vec![0]);
        }
        other => panic!("expected a delivery, got {:?}", other),
    }
}

#[test]
fn delivery_without_failure_goes_to_sleep() {
    let mut relay = relay_with(3, EchoPolicy::IncludeSender);
    assert_eq!(relay.step(RelayEvent::Delivered { failed: vec![] }), RelayStep::Sleep);
    assert_eq!(relay.connections(), vec![0, 1, 2]);
}

#[test]
fn failed_writes_drop_their_connections_only() {
    let mut relay = relay_with(5, EchoPolicy::IncludeSender);
    assert_eq!(
        relay.step(RelayEvent::Delivered { failed: vec![3, 0] }),
        RelayStep::Drop { conns: vec![3, 0] }
    );
    assert_eq!(relay.connections(), vec![1, 2, 4]);
    assert_eq!(relay.step(RelayEvent::Dropped), RelayStep::Sleep);
    assert_eq!(relay.connections(), vec![1, 2, 4]);
}

#[test]
fn isolation_next_message_reaches_the_remaining_connections() {
    let mut relay = relay_with(3, EchoPolicy::IncludeSender);
    assert_eq!(
        relay.step(message(0, "first")),
        RelayStep::Deliver { frame: encode("first"), targets: vec![0, 1, 2] }
    );
    assert_eq!(
        relay.step(RelayEvent::Delivered { failed: vec![1] }),
        RelayStep::Drop { conns: vec![1] }
    );
    assert_eq!(relay.step(RelayEvent::Dropped), RelayStep::Sleep);
    assert_eq!(relay.step(RelayEvent::Slept), RelayStep::Accept);
    assert_eq!(relay.step(RelayEvent::Accepted { arrived: false }), RelayStep::Poll);
    assert_eq!(
        relay.step(message(0, "second")),
        RelayStep::Deliver { frame: encode("second"), targets: vec![0, 2] }
    );
}

#[test]
fn closing_notice_drops_the_connection() {
    let mut relay = relay_with(3, EchoPolicy::IncludeSender);
    assert_eq!(
        relay.step(RelayEvent::Polled(Some(Inbound::Closed { conn: 1 }))),
        RelayStep::Drop { conns: vec![1] }
    );
    assert_eq!(relay.connections(), vec![0, 2]);
}

#[test]
fn closing_notice_for_unknown_connection_changes_nothing() {
    let mut relay = relay_with(2, EchoPolicy::IncludeSender);
    assert_eq!(
        relay.step(RelayEvent::Polled(Some(Inbound::Closed { conn: 8 }))),
        RelayStep::Drop { conns: vec![8] }
    );
    assert_eq!(relay.connections(), vec![0, 1]);
}

#[test]
fn dropped_handle_is_not_issued_again() {
    let mut relay = relay_with(2, EchoPolicy::IncludeSender);
    relay.step(RelayEvent::Delivered { failed: vec![1] });
    assert_eq!(relay.step(RelayEvent::Accepted { arrived: true }), RelayStep::StartReader(2));
    assert_eq!(relay.connections(), vec![0, 2]);
}

#[test]
fn idle_relay_cycle_is_accept_poll_sleep() {
    let mut relay = relay_with(2, EchoPolicy::IncludeSender);
    let mut step = RelayStep::Accept;
    let mut trace = Vec::new();
    for _ in 0..9 {
        let event = match step {
            RelayStep::Accept => {
                trace.push("accept");
                RelayEvent::Accepted { arrived: false }
            }
            RelayStep::Poll => {
                trace.push("poll");
                RelayEvent::Polled(None)
            }
            RelayStep::Sleep => {
                trace.push("sleep");
                RelayEvent::Slept
            }
            other => panic!("an idle relay was told to {:?}", other),
        };
        step = relay.step(event);
    }
    assert_eq!(
        trace,
        vec!["accept", "poll", "sleep", "accept", "poll", "sleep", "accept", "poll", "sleep"]
    );
    assert_eq!(relay.connections(), vec![0, 1]);
}

#[test]
fn messages_are_delivered_in_the_order_polled() {
    let mut relay = relay_with(2, EchoPolicy::IncludeSender);
    let mut delivered = Vec::new();
    for text in ["one", "two", "three"] {
        match relay.step(message(0, text)) {
            RelayStep::Deliver { frame, targets } => {
                assert_eq!(targets, vec![0, 1]);
                delivered.push(frame);
            }
            other => panic!("expected a delivery, got {:?}", other),
        }
        assert_eq!(relay.step(RelayEvent::Delivered { failed: vec![] }), RelayStep::Sleep);
    }
    assert_eq!(delivered, vec![encode("one"), encode("two"), encode("three")]);
}
