//! Tests of the relay core: line framing, broadcast hub, session decisions.

use chat_relay::hub::{Hub, RecvOutcome};
use chat_relay::line::{encode_line, find_newline, format_message, split_line};
use chat_relay::session::{
    client_input_step, client_read_step, inbound_step, outbound_step, ClientAction, InboundAction,
    InputAction, OutboundAction, OutboundQueue, ReadEvent,
};

#[test]
fn find_newline_first_index() {
    assert_eq!(find_newline(&b"hello\nworld\n".to_vec()), Some(5));
    assert_eq!(find_newline(&b"\n".to_vec()), Some(0));
    assert_eq!(find_newline(&b"no delimiter".to_vec()), None);
    assert_eq!(find_newline(&Vec::new()), None);
}

#[test]
fn split_line_takes_first_line() {
    let r = split_line(&b"first\nsecond\n".to_vec()).unwrap();
    assert_eq!(r.0, b"first".to_vec());
    assert_eq!(r.1, b"second\n".to_vec());
    assert!(split_line(&b"incomplete".to_vec()).is_none());
}

#[test]
fn split_line_empty_line() {
    let r = split_line(&b"\nrest".to_vec()).unwrap();
    assert_eq!(r.0, b"".to_vec());
    assert_eq!(r.1, b"rest".to_vec());
}

#[test]
fn encode_then_split_round_trip() {
    let encoded = encode_line(&b"a message".to_vec());
    assert_eq!(encoded, b"a message\n".to_vec());
    let r = split_line(&encoded).unwrap();
    assert_eq!(r.0, b"a message".to_vec());
    assert_eq!(r.1, b"".to_vec());
}

#[test]
fn format_message_tags_address() {
    let m = format_message(&b"127.0.0.1:9000".to_vec(), &b"hi".to_vec());
    assert_eq!(m, b"[127.0.0.1:9000]: hi".to_vec());
}

// Scenario: one client sends "hello"; another client, subscribed beforehand,
// receives the line tagged with the sender's peer address.
#[test]
fn broadcast_reaches_other_client() {
    let mut hub = Hub::new(10);
    let b = hub.subscribe();
    let addr = b"127.0.0.1:50000".to_vec();
    let action = inbound_step(&addr, ReadEvent::Line(b"hello".to_vec()));
    let InboundAction::Publish(m) = action else {
        panic!("a received line must be published");
    };
    hub.publish(&m);
    match hub.recv(b) {
        RecvOutcome::Message(got) => assert_eq!(got, b"[127.0.0.1:50000]: hello".to_vec()),
        _ => panic!("the subscriber must receive the broadcast"),
    }
}

// The publisher's own subscription receives its own message too: a publish
// reaches every current subscriber indiscriminately.
#[test]
fn publisher_receives_own_message() {
    let mut hub = Hub::new(10);
    let a = hub.subscribe();
    let m = b"[addr]: self".to_vec();
    hub.publish(&m);
    match hub.recv(a) {
        RecvOutcome::Message(got) => assert_eq!(got, m),
        _ => panic!("self-echo is the documented policy"),
    }
}

// Scenario: an empty input line is forwarded verbatim, not filtered.
#[test]
fn empty_line_is_forwarded() {
    match client_input_step(ReadEvent::Line(b"".to_vec())) {
        InputAction::Enqueue(m) => assert_eq!(m, b"".to_vec()),
        InputAction::Stop => panic!("an empty line must be forwarded, not filtered"),
    }
    let action = inbound_step(&b"127.0.0.1:50001".to_vec(), ReadEvent::Line(b"".to_vec()));
    let InboundAction::Publish(m) = action else {
        panic!("the server treats the empty line as any other message");
    };
    assert_eq!(m, b"[127.0.0.1:50001]: ".to_vec());
}

// Scenario: the server closing the connection is a clean end of stream for
// the client, distinguished from an I/O failure.
#[test]
fn server_close_is_clean_disconnect() {
    assert!(matches!(client_read_step(ReadEvent::Eof), ClientAction::Disconnect));
    assert!(matches!(client_read_step(ReadEvent::Failed), ClientAction::Fail));
    let printed = client_read_step(ReadEvent::Line(b"[a]: x".to_vec()));
    match printed {
        ClientAction::Print(m) => assert_eq!(m, b"[a]: x".to_vec()),
        _ => panic!("a received line is printed verbatim"),
    }
}

// Scenario: two messages sent back to back arrive in that exact order,
// undivided.
#[test]
fn two_messages_keep_order() {
    let mut hub = Hub::new(10);
    let b = hub.subscribe();
    hub.publish(&b"[a]: first".to_vec());
    hub.publish(&b"[a]: second".to_vec());
    match hub.recv(b) {
        RecvOutcome::Message(got) => assert_eq!(got, b"[a]: first".to_vec()),
        _ => panic!("first message lost"),
    }
    match hub.recv(b) {
        RecvOutcome::Message(got) => assert_eq!(got, b"[a]: second".to_vec()),
        _ => panic!("second message lost"),
    }
    assert!(matches!(hub.recv(b), RecvOutcome::Empty));
}

// Two back-to-back writes parse back into the two original lines.
#[test]
fn back_to_back_lines_arrive_undivided() {
    let mut wire = encode_line(&b"first".to_vec());
    wire.extend_from_slice(&encode_line(&b"second".to_vec()));
    let (l1, rest) = split_line(&wire).unwrap();
    let (l2, rest2) = split_line(&rest).unwrap();
    assert_eq!(l1, b"first".to_vec());
    assert_eq!(l2, b"second".to_vec());
    assert!(rest2.is_empty());
}

// A subscriber that falls behind gets one Lagged report for the overflow
// episode, then resumes with the oldest retained message: no duplicate, no
// stall.
#[test]
fn lagging_subscriber_resumes() {
    let mut hub = Hub::new(2);
    let b = hub.subscribe();
    hub.publish(&b"m1".to_vec());
    hub.publish(&b"m2".to_vec());
    hub.publish(&b"m3".to_vec()); // m1 is dropped
    match hub.recv(b) {
        RecvOutcome::Lagged(n) => assert_eq!(n, 1),
        _ => panic!("the loss must be reported first, exactly once"),
    }
    match hub.recv(b) {
        RecvOutcome::Message(got) => assert_eq!(got, b"m2".to_vec()),
        _ => panic!("delivery must resume with the oldest retained message"),
    }
    match hub.recv(b) {
        RecvOutcome::Message(got) => assert_eq!(got, b"m3".to_vec()),
        _ => panic!("no second Lagged for the same episode"),
    }
    assert!(matches!(hub.recv(b), RecvOutcome::Empty));
}

// One subscriber that never reads does not affect another's deliveries, and
// never blocks the publisher.
#[test]
fn slow_subscriber_is_isolated() {
    let mut hub = Hub::new(2);
    let never_reads = hub.subscribe();
    let c = hub.subscribe();
    for i in 0..100u8 {
        hub.publish(&vec![i]); // far past the sleeper's capacity; never blocks
        match hub.recv(c) {
            RecvOutcome::Message(got) => assert_eq!(got, vec![i]),
            _ => panic!("a prompt subscriber receives every message"),
        }
    }
    // The sleeper lost old messages, not new ones, and the hub is intact.
    match hub.recv(never_reads) {
        RecvOutcome::Lagged(n) => assert_eq!(n, 98),
        _ => panic!("the sleeper's loss is reported on its next read"),
    }
    match hub.recv(never_reads) {
        RecvOutcome::Message(got) => assert_eq!(got, vec![98]),
        _ => panic!("the sleeper resumes with the oldest retained message"),
    }
}

// Messages published before a subscription are never delivered to it.
#[test]
fn subscription_starts_from_now() {
    let mut hub = Hub::new(10);
    hub.publish(&b"before anyone".to_vec()); // zero subscribers: dropped
    let early = hub.subscribe();
    hub.publish(&b"before late".to_vec());
    let late = hub.subscribe();
    match hub.recv(early) {
        RecvOutcome::Message(got) => assert_eq!(got, b"before late".to_vec()),
        _ => panic!("the early subscriber receives what came after it"),
    }
    assert!(matches!(hub.recv(late), RecvOutcome::Empty));
}

// Tearing the hub down yields Closed once a subscriber has drained its
// queue; pending messages are still delivered first.
#[test]
fn closed_hub_ends_session() {
    let mut hub = Hub::new(10);
    let b = hub.subscribe();
    hub.publish(&b"last words".to_vec());
    hub.close();
    match hub.recv(b) {
        RecvOutcome::Message(got) => assert_eq!(got, b"last words".to_vec()),
        _ => panic!("pending messages drain before Closed"),
    }
    assert!(matches!(hub.recv(b), RecvOutcome::Closed));
}

// An unsubscribed slot no longer takes deliveries; the others still do.
#[test]
fn unsubscribe_drops_only_that_slot() {
    let mut hub = Hub::new(10);
    let gone = hub.subscribe();
    let stays = hub.subscribe();
    hub.unsubscribe(gone);
    hub.publish(&b"still here".to_vec());
    match hub.recv(stays) {
        RecvOutcome::Message(got) => assert_eq!(got, b"still here".to_vec()),
        _ => panic!("remaining subscribers are unaffected"),
    }
}

#[test]
fn inbound_step_ends_session_on_eof_or_error() {
    let addr = b"127.0.0.1:50002".to_vec();
    assert!(matches!(inbound_step(&addr, ReadEvent::Eof), InboundAction::Stop));
    assert!(matches!(inbound_step(&addr, ReadEvent::Failed), InboundAction::Stop));
}

#[test]
fn outbound_step_maps_each_outcome() {
    match outbound_step(RecvOutcome::Message(b"[a]: hi".to_vec())) {
        OutboundAction::Write(m) => assert_eq!(m, b"[a]: hi".to_vec()),
        _ => panic!("a delivered message is written unchanged"),
    }
    assert!(matches!(outbound_step(RecvOutcome::Lagged(3)), OutboundAction::Continue));
    assert!(matches!(outbound_step(RecvOutcome::Empty), OutboundAction::Continue));
    assert!(matches!(outbound_step(RecvOutcome::Closed), OutboundAction::Stop));
}

#[test]
fn client_input_stops_on_end_of_input() {
    assert!(matches!(client_input_step(ReadEvent::Eof), InputAction::Stop));
    assert!(matches!(client_input_step(ReadEvent::Failed), InputAction::Stop));
    match client_input_step(ReadEvent::Line(b"typed text".to_vec())) {
        InputAction::Enqueue(m) => assert_eq!(m, b"typed text".to_vec()),
        InputAction::Stop => panic!("a complete line is forwarded"),
    }
}

// The client's outbound queue is bounded and first-in first-out: a full
// queue refuses input rather than dropping it.
#[test]
fn outbound_queue_is_bounded_fifo() {
    let mut q = OutboundQueue::new(2);
    assert_eq!(q.len(), 0);
    assert!(q.dequeue().is_none());
    assert!(q.try_enqueue(b"one".to_vec()));
    assert!(q.try_enqueue(b"two".to_vec()));
    assert!(!q.try_enqueue(b"three".to_vec())); // full: producer must wait
    assert_eq!(q.len(), 2);
    assert_eq!(q.dequeue(), Some(b"one".to_vec()));
    assert_eq!(q.dequeue(), Some(b"two".to_vec()));
    assert!(q.dequeue().is_none());
    assert!(q.try_enqueue(b"three".to_vec())); // room again after a dequeue
    assert_eq!(q.dequeue(), Some(b"three".to_vec()));
}
