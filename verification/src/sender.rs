//! The sender side: connection lifecycle, per-tick event accumulation and
//! the send policy.
//!
//! Each tick the capture edge hands the library the raw events since the
//! last tick. Motion deltas are summed; button notifications feed a signed
//! counter per button, clamped to a fixed band and read as "held" while
//! positive, which tolerates duplicated press or release notifications from
//! the input source; a wheel notification is normalised to one signed pulse.
//! The merged tick is then assembled into an `InputSnapshot`, rejecting
//! motion that exceeds the signed 16-bit wire field rather than silently
//! truncating it.

use vstd::prelude::*;

use crate::packet::InputSnapshot;
use crate::packet::ProtocolError;
use crate::packet::encode;
use crate::packet::encode_spec;
use crate::packet::handshake_bytes;
use crate::packet::handshake_packet;
use crate::reconcile::MouseButton;
use crate::session::ConnectionState;

verus! {

/// One raw event from the capture edge, already reduced to plain values.
#[derive(Clone, Copy, PartialEq, Eq, Structural, Debug)]
pub enum SourceEvent {
    /// Relative mouse motion.
    Moved(i32, i32),
    /// A button notification: `true` for pressed, `false` for released.
    ButtonChange(MouseButton, bool),
    /// A wheel notification; positive scrolls up, negative scrolls down,
    /// zero reads as no scroll.
    Wheel(i32),
}

/// The band within which each button's signed press counter is kept.
pub const COUNTER_CAP: i32 = 1000000;

/// A send is considered only after this many milliseconds of quiescence.
pub const QUIESCENCE_MS: u64 = 50;

/// A keep-alive goes out once this many milliseconds have passed since the
/// last send, even with nothing changed.
pub const KEEPALIVE_MS: u64 = 1000;

/// The sender's running button state: one signed press counter per button,
/// persisted across ticks. A button reads as held while its counter is
/// positive.
#[derive(Clone, Copy, PartialEq, Eq, Structural, Debug)]
pub struct TickAccumulator {
    pub left: i32,
    pub right: i32,
    pub middle: i32,
}

/// What one tick's events amount to: summed motion, whether any motion
/// occurred, and the normalised scroll pulse.
#[derive(Clone, Copy, PartialEq, Eq, Structural, Debug)]
pub struct TickSummary {
    /// Summed horizontal motion, saturating at the 64-bit range.
    pub dx: i64,
    /// Summed vertical motion, saturating at the 64-bit range.
    pub dy: i64,
    /// Whether any motion event occurred this tick.
    pub moved: bool,
    /// The last wheel notification's sign: `1` up, `-1` down, `0` none.
    pub scroll: i32,
}

/// A counter moved one step up or down, clamped to the band.
pub open spec fn bump(c: i32, pressed: bool) -> i32 {
    if pressed {
        if c < COUNTER_CAP {
            (c + 1) as i32
        } else {
            c
        }
    } else {
        if c > -COUNTER_CAP {
            (c - 1) as i32
        } else {
            c
        }
    }
}

/// The accumulator after one event.
pub open spec fn acc_step(a: TickAccumulator, e: SourceEvent) -> TickAccumulator {
    match e {
        SourceEvent::ButtonChange(MouseButton::Left, p) => TickAccumulator {
            left: bump(a.left, p),
            right: a.right,
            middle: a.middle,
        },
        SourceEvent::ButtonChange(MouseButton::Right, p) => TickAccumulator {
            left: a.left,
            right: bump(a.right, p),
            middle: a.middle,
        },
        SourceEvent::ButtonChange(MouseButton::Middle, p) => TickAccumulator {
            left: a.left,
            right: a.right,
            middle: bump(a.middle, p),
        },
        _ => a,
    }
}

/// The accumulator after a sequence of events.
pub open spec fn acc_fold(a: TickAccumulator, evs: Seq<SourceEvent>) -> TickAccumulator
    decreases evs.len(),
{
    if evs.len() == 0 {
        a
    } else {
        acc_step(acc_fold(a, evs.drop_last()), evs.last())
    }
}

/// Addition saturating at the 64-bit signed range.
pub open spec fn sat_add_i64(a: i64, d: int) -> i64 {
    if a + d > i64::MAX {
        i64::MAX
    } else if a + d < i64::MIN {
        i64::MIN
    } else {
        (a + d) as i64
    }
}

/// The tick summary after one event.
pub open spec fn tick_step(t: TickSummary, e: SourceEvent) -> TickSummary {
    match e {
        SourceEvent::Moved(x, y) => TickSummary {
            dx: sat_add_i64(t.dx, x as int),
            dy: sat_add_i64(t.dy, y as int),
            moved: true,
            scroll: t.scroll,
        },
        SourceEvent::Wheel(w) => TickSummary {
            dx: t.dx,
            dy: t.dy,
            moved: t.moved,
            scroll: if w > 0 {
                1int as i32
            } else if w < 0 {
                -1int as i32
            } else {
                0int as i32
            },
        },
        SourceEvent::ButtonChange(_, _) => t,
    }
}

/// The tick summary after a sequence of events.
pub open spec fn tick_fold(t: TickSummary, evs: Seq<SourceEvent>) -> TickSummary
    decreases evs.len(),
{
    if evs.len() == 0 {
        t
    } else {
        tick_step(tick_fold(t, evs.drop_last()), evs.last())
    }
}

/// The summary of a tick with no events.
pub open spec fn empty_tick() -> TickSummary {
    TickSummary { dx: 0, dy: 0, moved: false, scroll: 0 }
}

/// Add a motion delta, saturating at the 64-bit range.
fn sat_add(a: i64, d: i32) -> (r: i64)
    ensures
        r == sat_add_i64(a, d as int),
{
    if d >= 0 {
        if a > i64::MAX - (d as i64) {
            i64::MAX
        } else {
            a + (d as i64)
        }
    } else {
        if a < i64::MIN - (d as i64) {
            i64::MIN
        } else {
            a + (d as i64)
        }
    }
}

impl TickAccumulator {
    /// Every counter stays inside the band.
    pub open spec fn wf(self) -> bool {
        &&& -COUNTER_CAP <= self.left <= COUNTER_CAP
        &&& -COUNTER_CAP <= self.right <= COUNTER_CAP
        &&& -COUNTER_CAP <= self.middle <= COUNTER_CAP
    }

    /// A fresh accumulator: nothing held.
    pub fn new() -> (r: TickAccumulator)
        ensures
            r == (TickAccumulator { left: 0, right: 0, middle: 0 }),
            r.wf(),
    {
        TickAccumulator { left: 0, right: 0, middle: 0 }
    }

    /// Drain one tick's events: update the button counters and return the
    /// merged motion and scroll of the tick.
    pub fn drain_events(&mut self, events: &Vec<SourceEvent>) -> (t: TickSummary)
        requires
            old(self).wf(),
        ensures
            final(self).wf(),
            *final(self) == acc_fold(*old(self), events@),
            t == tick_fold(empty_tick(), events@),
    {
        let mut t = TickSummary { dx: 0, dy: 0, moved: false, scroll: 0 };
        let mut i: usize = 0;
        while i < events.len()
            invariant
                i <= events@.len(),
                old(self).wf(),
                *self == acc_fold(*old(self), events@.take(i as int)),
                self.wf(),
                t == tick_fold(empty_tick(), events@.take(i as int)),
            decreases events@.len() - i,
        {
            proof {
                assert(events@.take(i + 1).drop_last() == events@.take(i as int));
                assert(events@.take(i + 1).last() == events@[i as int]);
            }
            match events[i] {
                SourceEvent::Moved(x, y) => {
                    t = TickSummary {
                        dx: sat_add(t.dx, x),
                        dy: sat_add(t.dy, y),
                        moved: true,
                        scroll: t.scroll,
                    };
                },
                SourceEvent::Wheel(w) => {
                    t = TickSummary {
                        dx: t.dx,
                        dy: t.dy,
                        moved: t.moved,
                        scroll: if w > 0 {
                            1
                        } else if w < 0 {
                            -1
                        } else {
                            0
                        },
                    };
                },
                SourceEvent::ButtonChange(b, p) => {
                    match b {
                        MouseButton::Left => {
                            self.left = bump_counter(self.left, p);
                        },
                        MouseButton::Right => {
                            self.right = bump_counter(self.right, p);
                        },
                        MouseButton::Middle => {
                            self.middle = bump_counter(self.middle, p);
                        },
                    }
                },
            }
            i = i + 1;
        }
        proof {
            assert(events@.take(events@.len() as int) == events@);
        }
        t
    }

    /// The buttons-and-scroll byte this accumulator and scroll pulse stand
    /// for on the wire.
    pub open spec fn buttons_byte(self, scroll: i32) -> u8 {
        ((if self.left > 0 {
            1int
        } else {
            0int
        }) + (if self.right > 0 {
            2int
        } else {
            0int
        }) + (if self.middle > 0 {
            4int
        } else {
            0int
        }) + (if scroll > 0 {
            8int
        } else {
            0int
        }) + (if scroll < 0 {
            16int
        } else {
            0int
        })) as u8
    }

    /// Assemble the snapshot to encode for this tick. Motion beyond the
    /// signed 16-bit wire field is a hard error, never a silent truncation.
    pub fn build_snapshot(&self, t: &TickSummary, key_flags: u64) -> (r: Result<
        InputSnapshot,
        ProtocolError,
    >)
        ensures
            match r {
                Ok(s) => {
                    &&& -32768 <= t.dx <= 32767
                    &&& -32768 <= t.dy <= 32767
                    &&& s == (InputSnapshot {
                        dx: t.dx as i16,
                        dy: t.dy as i16,
                        buttons: self.buttons_byte(t.scroll),
                        keys: key_flags,
                        connect: false,
                        disconnect: false,
                    })
                    &&& s.wf()
                },
                Err(e) => {
                    &&& e == ProtocolError::MotionOverflow
                    &&& !(-32768 <= t.dx <= 32767 && -32768 <= t.dy <= 32767)
                },
            },
    {
        if t.dx < -32768 || t.dx > 32767 || t.dy < -32768 || t.dy > 32767 {
            return Err(ProtocolError::MotionOverflow);
        }
        let mut buttons: u8 = 0;
        if self.left > 0 {
            buttons = buttons + 1;
        }
        if self.right > 0 {
            buttons = buttons + 2;
        }
        if self.middle > 0 {
            buttons = buttons + 4;
        }
        if t.scroll > 0 {
            buttons = buttons + 8;
        } else if t.scroll < 0 {
            buttons = buttons + 16;
        }
        Ok(
            InputSnapshot {
                dx: t.dx as i16,
                dy: t.dy as i16,
                buttons,
                keys: key_flags,
                connect: false,
                disconnect: false,
            },
        )
    }
}

/// Move one counter one step, clamped to the band.
fn bump_counter(c: i32, pressed: bool) -> (r: i32)
    requires
        -COUNTER_CAP <= c <= COUNTER_CAP,
    ensures
        r == bump(c, pressed),
        -COUNTER_CAP <= r <= COUNTER_CAP,
{
    if pressed {
        if c < COUNTER_CAP {
            c + 1
        } else {
            c
        }
    } else {
        if c > -COUNTER_CAP {
            c - 1
        } else {
            c
        }
    }
}

/// The send decision for one tick: send at once whenever motion occurred;
/// otherwise send a keep-alive only after the quiescence window, and then
/// only when the button/key state changed or the keep-alive interval lapsed.
pub fn should_send(moved: bool, millis_since_last_send: u64, state_changed: bool) -> (r: bool)
    ensures
        r == (moved || (millis_since_last_send > QUIESCENCE_MS && (state_changed
            || millis_since_last_send >= KEEPALIVE_MS))),
{
    moved || (millis_since_last_send > QUIESCENCE_MS && (state_changed || millis_since_last_send
        >= KEEPALIVE_MS))
}

/// The sender's connection lifecycle. Only the handshake may go out before
/// the peer acknowledges; real packets require the `Connected` state.
pub struct Sender {
    /// The lifecycle state of this sender.
    pub conn: ConnectionState,
}

impl Sender {
    /// A fresh sender: disconnected.
    pub fn new() -> (r: Sender)
        ensures
            r.conn is Disconnected,
    {
        Sender { conn: ConnectionState::Disconnected }
    }

    /// Open the session: move to `AwaitingAck` and hand back the handshake
    /// packet to send. Nothing else may be sent until the acknowledgment.
    pub fn start_handshake(&mut self) -> (pkt: Vec<u8>)
        requires
            old(self).conn is Disconnected,
        ensures
            final(self).conn is AwaitingAck,
            pkt@ == handshake_bytes(),
    {
        self.conn = ConnectionState::AwaitingAck;
        handshake_packet()
    }

    /// Read the peer's acknowledgment byte: any non-zero byte accepts and
    /// connects; the zero byte rejects, and the sender falls back to
    /// `Disconnected` to retry or report the version mismatch.
    pub fn on_ack(&mut self, ack: u8) -> (r: Result<(), ProtocolError>)
        requires
            old(self).conn is AwaitingAck,
        ensures
            ack != 0 ==> final(self).conn is Connected && r is Ok,
            ack == 0 ==> final(self).conn is Disconnected && r == Err::<
                (),
                ProtocolError,
            >(ProtocolError::HandshakeRejected),
    {
        if ack != 0 {
            self.conn = ConnectionState::Connected;
            Ok(())
        } else {
            self.conn = ConnectionState::Disconnected;
            Err(ProtocolError::HandshakeRejected)
        }
    }

    /// Encode a snapshot for sending. Legal only while connected, and only
    /// for ordinary packets: the connect bit travels in the handshake alone.
    pub fn packet_for(&self, s: &InputSnapshot) -> (r: Vec<u8>)
        requires
            self.conn is Connected,
            s.wf(),
            !s.connect,
        ensures
            r@ == encode_spec(*s),
    {
        encode(s)
    }

    /// Close the session: hand back the packet with the disconnect bit set
    /// (and nothing held), so the receiver releases everything.
    pub fn close(&mut self) -> (pkt: Vec<u8>)
        requires
            old(self).conn is Connected,
        ensures
            final(self).conn is Disconnected,
            pkt@ == encode_spec(
                InputSnapshot {
                    dx: 0,
                    dy: 0,
                    buttons: 0,
                    keys: 0,
                    connect: false,
                    disconnect: true,
                },
            ),
    {
        self.conn = ConnectionState::Disconnected;
        let s = InputSnapshot {
            dx: 0,
            dy: 0,
            buttons: 0,
            keys: 0,
            connect: false,
            disconnect: true,
        };
        encode(&s)
    }
}

} // verus!
