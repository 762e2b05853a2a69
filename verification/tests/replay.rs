use remouse::keys::KeyId;
use remouse::packet::encode;
use remouse::packet::handshake_packet;
use remouse::packet::InputSnapshot;
use remouse::reconcile::reconcile;
use remouse::reconcile::Action;
use remouse::reconcile::MouseButton;
use remouse::reconcile::ReplayState;
use remouse::session::ConnectionState;
use remouse::session::Receiver;
use remouse::session::ACK_ACCEPT;
use remouse::session::ACK_REJECT;

fn packet(buttons: u8, keys: u64) -> Vec<u8> {
    encode(&InputSnapshot {
        dx: 0,
        dy: 0,
        buttons,
        keys,
        connect: false,
        disconnect: false,
    })
}

fn disconnect_packet() -> Vec<u8> {
    encode(&InputSnapshot {
        dx: 0,
        dy: 0,
        buttons: 0,
        keys: 0,
        connect: false,
        disconnect: true,
    })
}

#[test]
fn reconcile_emits_downs_for_new_state() {
    let prev = ReplayState::new();
    let (actions, next) = reconcile(&prev, 0b001, (1 << 0) | (1 << 38));
    assert_eq!(
        actions,
        vec![
            Action::ButtonDown(MouseButton::Left),
            Action::KeyDown(KeyId::A),
            Action::KeyDown(KeyId::Shift),
        ]
    );
    assert_eq!(next, ReplayState { buttons: 0b001, keys: (1 << 0) | (1 << 38) });
}

#[test]
fn reconcile_emits_ups_before_downs() {
    let prev = ReplayState { buttons: 0b011, keys: 1 << 2 };
    let (actions, next) = reconcile(&prev, 0b110, 1 << 3);
    assert_eq!(
        actions,
        vec![
            Action::ButtonUp(MouseButton::Left),
            Action::ButtonDown(MouseButton::Middle),
            Action::KeyUp(KeyId::C),
            Action::KeyDown(KeyId::D),
        ]
    );
    assert_eq!(next, ReplayState { buttons: 0b110, keys: 1 << 3 });
}

#[test]
fn reconcile_same_state_twice_is_quiet() {
    // Idempotence: applying a packet, then the very same packet again,
    // yields no down or up action on the second call.
    let (_, once) = reconcile(&ReplayState::new(), 0b101, 77);
    let (again, twice) = reconcile(&once, 0b101, 77);
    assert_eq!(again, vec![]);
    assert_eq!(twice, once);
}

#[test]
fn scroll_is_edge_triggered_per_packet() {
    // Two identical packets with the scroll-up bit yield two independent
    // pulses, not one.
    let (first, state) = reconcile(&ReplayState::new(), 0b01000, 0);
    assert_eq!(first, vec![Action::ScrollBy(1)]);
    let (second, _) = reconcile(&state, 0b01000, 0);
    assert_eq!(second, vec![Action::ScrollBy(1)]);
}

#[test]
fn scroll_down_and_both_bits() {
    let (down, _) = reconcile(&ReplayState::new(), 0b10000, 0);
    assert_eq!(down, vec![Action::ScrollBy(-1)]);
    let (both, _) = reconcile(&ReplayState::new(), 0b11000, 0);
    assert_eq!(both, vec![]);
}

#[test]
fn handshake_connects_and_acknowledges() {
    let mut r = Receiver::new();
    let out = r.handle_datagram(&handshake_packet());
    assert_eq!(out.reply, Some(ACK_ACCEPT));
    assert_eq!(out.actions, vec![]);
    assert!(out.motion.is_none());
    assert_eq!(r.conn, ConnectionState::Connected);
}

#[test]
fn non_handshake_is_rejected_without_state_change() {
    let mut r = Receiver::new();
    let out = r.handle_datagram(&packet(0b001, 1));
    assert_eq!(out.reply, Some(ACK_REJECT));
    assert_eq!(out.actions, vec![]);
    assert_eq!(r.conn, ConnectionState::Disconnected);
    // The handshake still works afterwards.
    let out = r.handle_datagram(&handshake_packet());
    assert_eq!(out.reply, Some(ACK_ACCEPT));
    assert_eq!(r.conn, ConnectionState::Connected);
}

#[test]
fn connected_packets_carry_motion_and_actions() {
    let mut r = Receiver::new();
    r.handle_datagram(&handshake_packet());
    let s = InputSnapshot {
        dx: 11,
        dy: -4,
        buttons: 0b001,
        keys: 1 << 5,
        connect: false,
        disconnect: false,
    };
    let out = r.handle_datagram(&encode(&s));
    assert_eq!(out.reply, None);
    assert_eq!(out.motion, Some((11, -4)));
    assert_eq!(
        out.actions,
        vec![Action::ButtonDown(MouseButton::Left), Action::KeyDown(KeyId::F)]
    );
}

#[test]
fn malformed_packet_is_dropped_while_connected() {
    let mut r = Receiver::new();
    r.handle_datagram(&handshake_packet());
    let out = r.handle_datagram(&vec![1, 2, 3]);
    assert_eq!(out.reply, None);
    assert_eq!(out.actions, vec![]);
    assert!(out.motion.is_none());
    assert_eq!(r.conn, ConnectionState::Connected);
}

#[test]
fn disconnect_releases_everything_held() {
    let mut r = Receiver::new();
    r.handle_datagram(&handshake_packet());
    r.handle_datagram(&packet(0b001, (1 << 0) | (1 << 7)));
    let out = r.handle_datagram(&disconnect_packet());
    assert_eq!(
        out.actions,
        vec![
            Action::ButtonUp(MouseButton::Left),
            Action::KeyUp(KeyId::A),
            Action::KeyUp(KeyId::H),
        ]
    );
    assert_eq!(r.conn, ConnectionState::Disconnected);
    assert_eq!(r.replay, ReplayState { buttons: 0, keys: 0 });
}

#[test]
fn handshake_while_connected_acts_as_empty_packet() {
    // Once connected, the handshake payload decodes as an ordinary packet
    // with nothing held, so everything held so far is released.
    let mut r = Receiver::new();
    r.handle_datagram(&handshake_packet());
    r.handle_datagram(&packet(0b001, 1));
    let out = r.handle_datagram(&handshake_packet());
    assert_eq!(out.reply, None);
    assert_eq!(
        out.actions,
        vec![Action::ButtonUp(MouseButton::Left), Action::KeyUp(KeyId::A)]
    );
    assert_eq!(r.conn, ConnectionState::Connected);
}

#[test]
fn forced_teardown_releases_like_a_disconnect() {
    let mut r = Receiver::new();
    r.handle_datagram(&handshake_packet());
    r.handle_datagram(&packet(0b100, 1 << 61));
    let actions = r.force_disconnect();
    assert_eq!(
        actions,
        vec![Action::ButtonUp(MouseButton::Middle), Action::KeyUp(KeyId::Tab)]
    );
    assert_eq!(r.conn, ConnectionState::Disconnected);
    assert_eq!(r.replay, ReplayState { buttons: 0, keys: 0 });
    // Already disconnected: nothing left to release.
    assert_eq!(r.force_disconnect(), vec![]);
}

#[test]
fn session_downs_equal_ups_at_the_end() {
    // No stuck keys: over a whole session ending in a disconnect, every
    // key and button comes up as often as it went down.
    let mut r = Receiver::new();
    let mut all: Vec<Action> = Vec::new();
    all.extend(r.handle_datagram(&handshake_packet()).actions);
    for (buttons, keys) in [
        (0b001u8, 1u64),
        (0b011, (1 << 1) | (1 << 38)),
        (0b010, 1 << 38),
        (0b101, (1 << 38) | (1 << 63)),
    ] {
        all.extend(r.handle_datagram(&packet(buttons, keys)).actions);
    }
    all.extend(r.handle_datagram(&disconnect_packet()).actions);
    let downs = all
        .iter()
        .filter(|a| matches!(a, Action::ButtonDown(_) | Action::KeyDown(_)))
        .count();
    let ups = all
        .iter()
        .filter(|a| matches!(a, Action::ButtonUp(_) | Action::KeyUp(_)))
        .count();
    assert_eq!(downs, ups);
    for key in [KeyId::A, KeyId::B, KeyId::Shift, KeyId::Alt] {
        let d = all.iter().filter(|a| **a == Action::KeyDown(key)).count();
        let u = all.iter().filter(|a| **a == Action::KeyUp(key)).count();
        assert_eq!(d, u);
    }
}

#[test]
fn lost_packets_do_not_change_the_final_state() {
    // Loss tolerance: a receiver that saw every packet and one that saw
    // only the last packet agree on the final held state.
    let stream = [
        (0b001u8, 1u64),
        (0b011, (1 << 1) | (1 << 9)),
        (0b100, 1 << 9),
        (0b010, (1 << 2) | (1 << 40)),
    ];
    let mut saw_all = Receiver::new();
    saw_all.handle_datagram(&handshake_packet());
    for (buttons, keys) in stream {
        saw_all.handle_datagram(&packet(buttons, keys));
    }
    let mut saw_last = Receiver::new();
    saw_last.handle_datagram(&handshake_packet());
    let (buttons, keys) = stream[stream.len() - 1];
    saw_last.handle_datagram(&packet(buttons, keys));
    assert_eq!(saw_all.replay, saw_last.replay);
    assert_eq!(saw_all.replay, ReplayState { buttons: 0b010, keys: (1 << 2) | (1 << 40) });
}
