//! Connection lifecycle and the receiver's per-datagram state machine.
//!
//! While no peer is connected, every inbound buffer is tested against the
//! exact handshake payload: a match is answered with the accept byte and
//! opens the session, anything else is answered with the reject byte and
//! changes nothing. Once connected, inbound buffers are decoded and fed to
//! the reconciler; a malformed buffer is dropped. A packet with the
//! disconnect bit closes the session and releases everything still held, so
//! the remote host is never left with a stuck key or button.

use vstd::prelude::*;

use crate::bits::lemma_bit64_zero;
use crate::bits::lemma_bit8_zero;
use crate::keys::KeyId;
use crate::packet::decode;
use crate::packet::decode_spec;
use crate::packet::handshake_bytes;
use crate::packet::is_handshake;
use crate::reconcile::Action;
use crate::reconcile::MouseButton;
use crate::reconcile::ReplayState;
use crate::reconcile::button_held;
use crate::reconcile::count_act;
use crate::reconcile::empty_state;
use crate::reconcile::key_held;
use crate::reconcile::lemma_count_concat;
use crate::reconcile::lemma_reconcile_button_balance;
use crate::reconcile::lemma_reconcile_key_balance;
use crate::reconcile::next_state;
use crate::reconcile::reconcile;
use crate::reconcile::reconcile_spec;

verus! {

/// The lifecycle of one peer. The receiver only ever sits in `Disconnected`
/// or `Connected`; the sender passes through `AwaitingAck` between sending
/// the handshake and reading the acknowledgment byte.
#[derive(Clone, Copy, PartialEq, Eq, Structural, Debug)]
pub enum ConnectionState {
    Disconnected,
    AwaitingAck,
    Connected,
}

/// The acknowledgment byte answering a valid handshake.
pub const ACK_ACCEPT: u8 = 0xff;

/// The acknowledgment byte answering anything else.
pub const ACK_REJECT: u8 = 0;

/// What the receiver does with one inbound datagram.
pub struct DatagramOutcome {
    /// The single acknowledgment byte to send back, when one is owed.
    pub reply: Option<u8>,
    /// The relative mouse motion to apply, when the datagram carried one.
    pub motion: Option<(i16, i16)>,
    /// The synthetic input actions to emit, in order.
    pub actions: Vec<Action>,
}

/// The receiver's side of one peer: its lifecycle state and its memory of
/// what is currently held.
pub struct Receiver {
    /// The peer's lifecycle state; never `AwaitingAck` on this side.
    pub conn: ConnectionState,
    /// What the peer currently holds down.
    pub replay: ReplayState,
}

/// The actions that release everything a state still holds: exactly the
/// reconciliation of that state against the all-released state.
pub open spec fn release_actions(s: ReplayState) -> Seq<Action> {
    reconcile_spec(s, 0, 0)
}

impl Receiver {
    /// The replay state only holds button bits, and nothing is held while
    /// disconnected.
    pub open spec fn wf(self) -> bool {
        &&& self.replay.wf()
        &&& !(self.conn is AwaitingAck)
        &&& self.conn is Disconnected ==> self.replay == empty_state()
    }

    /// A fresh receiver: disconnected, nothing held.
    pub fn new() -> (r: Receiver)
        ensures
            r.wf(),
            r.conn is Disconnected,
            r.replay == empty_state(),
    {
        Receiver { conn: ConnectionState::Disconnected, replay: ReplayState::new() }
    }

    /// Handle one inbound datagram.
    ///
    /// Disconnected: the exact handshake payload is answered with the accept
    /// byte and opens the session; anything else is answered with the reject
    /// byte and changes nothing. Connected: a malformed buffer is dropped; a
    /// packet with the disconnect bit closes the session and emits the
    /// releases of everything still held; any other packet is reconciled
    /// against the held state and carries its motion.
    pub fn handle_datagram(&mut self, buf: &Vec<u8>) -> (out: DatagramOutcome)
        requires
            old(self).wf(),
        ensures
            final(self).wf(),
            old(self).conn is Disconnected && buf@ == handshake_bytes() ==> {
                &&& out.reply == Some(ACK_ACCEPT)
                &&& out.motion is None
                &&& out.actions@ == Seq::<Action>::empty()
                &&& final(self).conn is Connected
                &&& final(self).replay == empty_state()
            },
            old(self).conn is Disconnected && buf@ != handshake_bytes() ==> {
                &&& out.reply == Some(ACK_REJECT)
                &&& out.motion is None
                &&& out.actions@ == Seq::<Action>::empty()
                &&& *final(self) == *old(self)
            },
            old(self).conn is Connected ==> match decode_spec(buf@) {
                Option::None => {
                    &&& out.reply is None
                    &&& out.motion is None
                    &&& out.actions@ == Seq::<Action>::empty()
                    &&& *final(self) == *old(self)
                },
                Option::Some(s) => {
                    &&& out.reply is None
                    &&& (if s.disconnect {
                        &&& out.motion is None
                        &&& out.actions@ == release_actions(old(self).replay)
                        &&& final(self).conn is Disconnected
                        &&& final(self).replay == empty_state()
                    } else {
                        &&& out.motion == Some((s.dx, s.dy))
                        &&& out.actions@ == reconcile_spec(old(self).replay, s.buttons, s.keys)
                        &&& final(self).conn is Connected
                        &&& final(self).replay == next_state(s.buttons, s.keys)
                    })
                },
            },
    {
        match self.conn {
            ConnectionState::Connected => {
                match decode(buf) {
                    Result::Err(_) => DatagramOutcome {
                        reply: None,
                        motion: None,
                        actions: Vec::new(),
                    },
                    Result::Ok(s) => {
                        if s.disconnect {
                            let (acts, _) = reconcile(&self.replay, 0, 0);
                            self.conn = ConnectionState::Disconnected;
                            self.replay = ReplayState::new();
                            DatagramOutcome { reply: None, motion: None, actions: acts }
                        } else {
                            let (acts, ns) = reconcile(&self.replay, s.buttons, s.keys);
                            self.replay = ns;
                            DatagramOutcome {
                                reply: None,
                                motion: Some((s.dx, s.dy)),
                                actions: acts,
                            }
                        }
                    },
                }
            },
            _ => {
                if is_handshake(buf) {
                    self.conn = ConnectionState::Connected;
                    DatagramOutcome { reply: Some(ACK_ACCEPT), motion: None, actions: Vec::new() }
                } else {
                    DatagramOutcome { reply: Some(ACK_REJECT), motion: None, actions: Vec::new() }
                }
            },
        }
    }
    /// Tear the connection down from this side — for an idle timeout or a
    /// process exit — and hand back the releases of everything still held,
    /// exactly as an explicit disconnect packet would. Harmless while
    /// already disconnected.
    pub fn force_disconnect(&mut self) -> (actions: Vec<Action>)
        requires
            old(self).wf(),
        ensures
            final(self).wf(),
            final(self).conn is Disconnected,
            final(self).replay == empty_state(),
            actions@ == release_actions(old(self).replay),
    {
        let (acts, _) = reconcile(&self.replay, 0, 0);
        self.conn = ConnectionState::Disconnected;
        self.replay = ReplayState::new();
        acts
    }
}

/// The held state after reconciling a sequence of decoded packets, each a
/// pair of the flags byte and the key word: the last packet alone decides.
pub open spec fn replay_after(init: ReplayState, packets: Seq<(u8, u64)>) -> ReplayState
    decreases packets.len(),
{
    if packets.len() == 0 {
        init
    } else {
        next_state(packets.last().0, packets.last().1)
    }
}

/// Every action emitted while reconciling a sequence of decoded packets,
/// in order.
pub open spec fn stream_actions(init: ReplayState, packets: Seq<(u8, u64)>) -> Seq<Action>
    decreases packets.len(),
{
    if packets.len() == 0 {
        Seq::empty()
    } else {
        stream_actions(init, packets.drop_last()) + reconcile_spec(
            replay_after(init, packets.drop_last()),
            packets.last().0,
            packets.last().1,
        )
    }
}

/// Every action of one whole session: a fresh state reconciles the packet
/// stream, and the disconnect at the end releases whatever is still held.
pub open spec fn session_actions(packets: Seq<(u8, u64)>) -> Seq<Action> {
    stream_actions(empty_state(), packets) + release_actions(replay_after(empty_state(), packets))
}

/// Across a packet stream, the down-minus-up balance of a key moves exactly
/// with whether the key is held at the end versus the start.
proof fn lemma_stream_key_balance(init: ReplayState, packets: Seq<(u8, u64)>, k: KeyId)
    ensures
        count_act(stream_actions(init, packets), Action::KeyDown(k)) - count_act(
            stream_actions(init, packets),
            Action::KeyUp(k),
        ) == key_held(replay_after(init, packets), k) - key_held(init, k),
    decreases packets.len(),
{
    if packets.len() > 0 {
        let rest = packets.drop_last();
        let mid = replay_after(init, rest);
        lemma_stream_key_balance(init, rest, k);
        lemma_count_concat(
            stream_actions(init, rest),
            reconcile_spec(mid, packets.last().0, packets.last().1),
            Action::KeyDown(k),
        );
        lemma_count_concat(
            stream_actions(init, rest),
            reconcile_spec(mid, packets.last().0, packets.last().1),
            Action::KeyUp(k),
        );
        lemma_reconcile_key_balance(mid, packets.last().0, packets.last().1, k);
    }
}

/// Across a packet stream, the down-minus-up balance of a button moves
/// exactly with whether the button is held at the end versus the start.
proof fn lemma_stream_button_balance(init: ReplayState, packets: Seq<(u8, u64)>, b: MouseButton)
    ensures
        count_act(stream_actions(init, packets), Action::ButtonDown(b)) - count_act(
            stream_actions(init, packets),
            Action::ButtonUp(b),
        ) == button_held(replay_after(init, packets), b) - button_held(init, b),
    decreases packets.len(),
{
    if packets.len() > 0 {
        let rest = packets.drop_last();
        let mid = replay_after(init, rest);
        lemma_stream_button_balance(init, rest, b);
        lemma_count_concat(
            stream_actions(init, rest),
            reconcile_spec(mid, packets.last().0, packets.last().1),
            Action::ButtonDown(b),
        );
        lemma_count_concat(
            stream_actions(init, rest),
            reconcile_spec(mid, packets.last().0, packets.last().1),
            Action::ButtonUp(b),
        );
        lemma_reconcile_button_balance(mid, packets.last().0, packets.last().1, b);
    }
}

/// No stuck keys: over any session — any packet stream followed by the
/// disconnect's releases — every key is pressed exactly as often as it is
/// released.
pub proof fn lemma_no_stuck_keys(packets: Seq<(u8, u64)>, k: KeyId)
    ensures
        count_act(session_actions(packets), Action::KeyDown(k)) == count_act(
            session_actions(packets),
            Action::KeyUp(k),
        ),
{
    let last = replay_after(empty_state(), packets);
    lemma_stream_key_balance(empty_state(), packets, k);
    lemma_count_concat(
        stream_actions(empty_state(), packets),
        release_actions(last),
        Action::KeyDown(k),
    );
    lemma_count_concat(
        stream_actions(empty_state(), packets),
        release_actions(last),
        Action::KeyUp(k),
    );
    lemma_reconcile_key_balance(last, 0, 0, k);
    lemma_bit64_zero(crate::keys::key_bit(k) as int);
    assert(key_held(empty_state(), k) == 0);
    assert(key_held(next_state(0, 0), k) == 0);
}

/// No stuck buttons: over any session, every button is pressed exactly as
/// often as it is released.
pub proof fn lemma_no_stuck_buttons(packets: Seq<(u8, u64)>, b: MouseButton)
    ensures
        count_act(session_actions(packets), Action::ButtonDown(b)) == count_act(
            session_actions(packets),
            Action::ButtonUp(b),
        ),
{
    let last = replay_after(empty_state(), packets);
    lemma_stream_button_balance(empty_state(), packets, b);
    lemma_count_concat(
        stream_actions(empty_state(), packets),
        release_actions(last),
        Action::ButtonDown(b),
    );
    lemma_count_concat(
        stream_actions(empty_state(), packets),
        release_actions(last),
        Action::ButtonUp(b),
    );
    lemma_reconcile_button_balance(last, 0, 0, b);
    lemma_bit8_zero(crate::reconcile::button_bit(b));
    assert((0u8 & 7u8) == 0u8) by (bit_vector);
    assert(button_held(empty_state(), b) == 0);
    assert(button_held(next_state(0, 0), b) == 0);
}

/// Loss tolerance: after reconciling any surviving subsequence of packets,
/// the held state equals the state of the last surviving packet alone.
/// Dropping any earlier packets delays convergence but never changes where
/// the state ends up.
pub proof fn lemma_loss_tolerance(init: ReplayState, survivors: Seq<(u8, u64)>)
    requires
        survivors.len() > 0,
    ensures
        replay_after(init, survivors) == next_state(survivors.last().0, survivors.last().1),
{
}

} // verus!
