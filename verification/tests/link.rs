use quickvm::controller::{RETRY_SECS, TICK_MILLIS};
use quickvm::coord::Coord;
use quickvm::event::{Control, Direction, Event};
use quickvm::link::{
    message_stream, received_message, stream_kind, MotionFilter, MotionSender, StreamKind,
    KEEP_ALIVE_SECS, MAX_IDLE_SECS,
};
use quickvm::proto::{encode_motion, Motion, Reliable, CLIPBOARD_MAX, MAX_FRAME};

fn value(v: f64) -> Coord {
    Coord { bits: v.to_bits() }
}

#[test]
fn streams_by_their_tag() {
    assert_eq!(stream_kind(0), Some(StreamKind::Message));
    assert_eq!(stream_kind(1), Some(StreamKind::Files));
    assert_eq!(stream_kind(2), None);
    assert_eq!(stream_kind(0xFF), None);
}

#[test]
fn message_arrives_as_it_was_sent() {
    let messages = [
        Reliable::Control(Control::Leave),
        Reliable::Input(Event::Key { usage: 4, dir: Direction::Press }),
        Reliable::Clipboard("x".repeat(CLIPBOARD_MAX)),
    ];
    for msg in messages {
        let sent = message_stream(&msg);
        assert_eq!(stream_kind(sent[0]), Some(StreamKind::Message));
        assert_eq!(received_message(&sent[1..]), Some(msg));
    }
    assert_eq!(message_stream(&Reliable::Control(Control::Leave)), vec![0, 1, 1]);
}

#[test]
fn message_that_is_too_long_or_none_is_ignored() {
    let long = Reliable::Clipboard("x".repeat(MAX_FRAME));
    assert_eq!(received_message(&message_stream(&long)[1..]), None);
    assert_eq!(received_message(&[9]), None);
    assert_eq!(received_message(&[]), None);
}

#[test]
fn positions_are_numbered_from_one() {
    let mut sender = MotionSender::new();
    let first = sender.send_motion(value(0.25), value(0.5));
    assert_eq!(first, encode_motion(&Motion { seq: 1, x: value(0.25), y: value(0.5) }));
    let second = sender.send_motion(value(0.75), value(1.0));
    assert_eq!(second, encode_motion(&Motion { seq: 2, x: value(0.75), y: value(1.0) }));
    assert_eq!(sender.seq, 2);
}

#[test]
fn old_positions_are_dropped() {
    let mut filter = MotionFilter::new();
    let datagram = |seq: u64| encode_motion(&Motion { seq, x: value(0.5), y: value(0.5) });
    assert_eq!(filter.accept(&datagram(0)), None);
    assert_eq!(filter.accept(&datagram(1)).map(|m| m.seq), Some(1));
    assert_eq!(filter.accept(&datagram(5)).map(|m| m.seq), Some(5));
    assert_eq!(filter.accept(&datagram(3)), None);
    assert_eq!(filter.accept(&datagram(5)), None);
    assert_eq!(filter.accept(&[1, 2]), None);
    assert_eq!(filter.last_seq, 5);
    assert_eq!(filter.accept(&datagram(6)).map(|m| m.seq), Some(6));
}

#[test]
fn intervals() {
    assert_eq!(KEEP_ALIVE_SECS, 5);
    assert_eq!(MAX_IDLE_SECS, 30);
    assert!(KEEP_ALIVE_SECS < MAX_IDLE_SECS);
    assert_eq!(TICK_MILLIS, 8);
    assert_eq!(RETRY_SECS, 2);
}

#[test]
fn positions_in_order_all_arrive() {
    let mut sender = MotionSender::new();
    let mut filter = MotionFilter::new();
    for i in 0..300u64 {
        let x = value(i as f64 / 300.0);
        let datagram = sender.send_motion(x, value(0.5));
        assert_eq!(filter.accept(&datagram), Some(Motion { seq: i + 1, x, y: value(0.5) }));
    }
}
