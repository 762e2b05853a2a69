use remouse::packet::handshake_packet;
use remouse::packet::InputSnapshot;
use remouse::packet::ProtocolError;
use remouse::reconcile::MouseButton;
use remouse::sender::should_send;
use remouse::sender::Sender;
use remouse::sender::SourceEvent;
use remouse::sender::TickAccumulator;
use remouse::session::ConnectionState;

#[test]
fn sender_handshake_then_accept() {
    let mut s = Sender::new();
    assert_eq!(s.conn, ConnectionState::Disconnected);
    let pkt = s.start_handshake();
    assert_eq!(pkt, handshake_packet());
    assert_eq!(s.conn, ConnectionState::AwaitingAck);
    assert_eq!(s.on_ack(0xff), Ok(()));
    assert_eq!(s.conn, ConnectionState::Connected);
}

#[test]
fn sender_handshake_rejected() {
    let mut s = Sender::new();
    s.start_handshake();
    assert_eq!(s.on_ack(0), Err(ProtocolError::HandshakeRejected));
    assert_eq!(s.conn, ConnectionState::Disconnected);
}

#[test]
fn sender_close_sets_disconnect_bit() {
    let mut s = Sender::new();
    s.start_handshake();
    s.on_ack(1).unwrap();
    let pkt = s.close();
    assert_eq!(s.conn, ConnectionState::Disconnected);
    assert_eq!(pkt, vec![0, 0, 0, 0, 0b0010_0000, 0, 0, 0, 0, 0, 0, 0, 0]);
}

#[test]
fn motion_sums_across_events() {
    let mut acc = TickAccumulator::new();
    let t = acc.drain_events(&vec![
        SourceEvent::Moved(3, -2),
        SourceEvent::Moved(4, 10),
        SourceEvent::Moved(-1, -1),
    ]);
    assert_eq!((t.dx, t.dy), (6, 7));
    assert!(t.moved);
    assert_eq!(t.scroll, 0);
}

#[test]
fn no_events_means_no_motion() {
    let mut acc = TickAccumulator::new();
    let t = acc.drain_events(&vec![]);
    assert!(!t.moved);
    assert_eq!((t.dx, t.dy), (0, 0));
}

#[test]
fn duplicate_presses_do_not_flip_state() {
    // Two press notifications then one release: the button must still read
    // as held, thanks to the signed counter.
    let mut acc = TickAccumulator::new();
    acc.drain_events(&vec![
        SourceEvent::ButtonChange(MouseButton::Left, true),
        SourceEvent::ButtonChange(MouseButton::Left, true),
    ]);
    let t = acc.drain_events(&vec![SourceEvent::ButtonChange(MouseButton::Left, false)]);
    let snap = acc.build_snapshot(&t, 0).unwrap();
    assert_eq!(snap.buttons & 0b001, 0b001);
    // A second release finally releases it.
    let t = acc.drain_events(&vec![SourceEvent::ButtonChange(MouseButton::Left, false)]);
    let snap = acc.build_snapshot(&t, 0).unwrap();
    assert_eq!(snap.buttons & 0b001, 0);
}

#[test]
fn wheel_normalises_to_one_pulse() {
    let mut acc = TickAccumulator::new();
    let t = acc.drain_events(&vec![SourceEvent::Wheel(120)]);
    assert_eq!(t.scroll, 1);
    let t = acc.drain_events(&vec![SourceEvent::Wheel(-3)]);
    assert_eq!(t.scroll, -1);
    let t = acc.drain_events(&vec![SourceEvent::Wheel(-3), SourceEvent::Wheel(5)]);
    assert_eq!(t.scroll, 1);
}

#[test]
fn snapshot_carries_buttons_scroll_and_keys() {
    let mut acc = TickAccumulator::new();
    let t = acc.drain_events(&vec![
        SourceEvent::ButtonChange(MouseButton::Left, true),
        SourceEvent::ButtonChange(MouseButton::Middle, true),
        SourceEvent::Wheel(-1),
        SourceEvent::Moved(9, -9),
    ]);
    let snap = acc.build_snapshot(&t, 1 << 17).unwrap();
    assert_eq!(
        snap,
        InputSnapshot {
            dx: 9,
            dy: -9,
            buttons: 0b10101,
            keys: 1 << 17,
            connect: false,
            disconnect: false,
        }
    );
}

#[test]
fn oversized_motion_is_a_hard_error() {
    let mut acc = TickAccumulator::new();
    let t = acc.drain_events(&vec![
        SourceEvent::Moved(30000, 0),
        SourceEvent::Moved(30000, 0),
    ]);
    assert_eq!(acc.build_snapshot(&t, 0), Err(ProtocolError::MotionOverflow));
    let t = acc.drain_events(&vec![SourceEvent::Moved(0, -40000)]);
    assert_eq!(acc.build_snapshot(&t, 0), Err(ProtocolError::MotionOverflow));
}

#[test]
fn send_policy() {
    // Motion always sends at once.
    assert!(should_send(true, 0, false));
    // Inside the quiescence window nothing else goes out.
    assert!(!should_send(false, 50, true));
    // Past the window, a state change sends a keep-alive.
    assert!(should_send(false, 51, true));
    // Past the window with nothing changed, wait for the keep-alive interval.
    assert!(!should_send(false, 51, false));
    assert!(should_send(false, 1000, false));
}
