//! The differential state reconciler.
//!
//! Given the receiver's last-applied state and a newly decoded packet, the
//! reconciler computes the exact ordered sequence of synthetic input actions
//! to emit: for every button and key, a 0-to-1 transition emits a down
//! action and a 1-to-0 transition emits an up action. Scroll is not held
//! state: each packet asserting a scroll bit emits one pulse, whatever the
//! previous packet said.
//!
//! The order within one packet is fixed: button transitions for left, right,
//! middle; then the scroll pulse; then key releases in ascending bit order;
//! then key presses in ascending bit order.

use vstd::prelude::*;

use crate::bits::bit64;
use crate::bits::bit8;
use crate::bits::lemma_bit8_mask7;
use crate::keys::KeyId;
use crate::keys::key_at;
use crate::keys::key_bit;
use crate::keys::key_of;
use crate::keys::lemma_bit_of_key;
use crate::keys::lemma_key_bit_range;
use crate::keys::lemma_key_of_bit;

verus! {

/// One of the three mouse buttons carried as held state on the wire.
#[derive(Clone, Copy, PartialEq, Eq, Structural, Debug)]
pub enum MouseButton {
    Left,
    Right,
    Middle,
}

/// One synthetic input action for the receiving host's input subsystem.
#[derive(Clone, Copy, PartialEq, Eq, Structural, Debug)]
pub enum Action {
    ButtonDown(MouseButton),
    ButtonUp(MouseButton),
    /// One scroll pulse: `1` for up, `-1` for down.
    ScrollBy(i32),
    KeyDown(KeyId),
    KeyUp(KeyId),
}

/// The receiver's memory of which buttons and keys are currently held.
#[derive(Clone, Copy, PartialEq, Eq, Structural, Debug)]
pub struct ReplayState {
    /// Bits 0..3: left, right, middle. Scroll is never held state.
    pub buttons: u8,
    /// The held keys, one bit per `KeyId`.
    pub keys: u64,
}

/// The state with nothing held.
pub open spec fn empty_state() -> ReplayState {
    ReplayState { buttons: 0, keys: 0 }
}

impl ReplayState {
    /// Only the three button bits may be set.
    pub open spec fn wf(self) -> bool {
        self.buttons < 8
    }

    /// A fresh state with nothing held.
    pub fn new() -> (r: ReplayState)
        ensures
            r == empty_state(),
    {
        ReplayState { buttons: 0, keys: 0 }
    }
}

/// The bit position of a button in the flags byte.
pub open spec fn button_bit(b: MouseButton) -> int {
    match b {
        MouseButton::Left => 0,
        MouseButton::Right => 1,
        MouseButton::Middle => 2,
    }
}

/// The button at bit position `i` of the flags byte.
pub open spec fn button_of(i: int) -> MouseButton {
    if i == 0 {
        MouseButton::Left
    } else if i == 1 {
        MouseButton::Right
    } else {
        MouseButton::Middle
    }
}

/// The actions for one button: empty when its bit did not change, otherwise
/// the single down or up transition.
pub open spec fn button_transition(prev: u8, cur: u8, i: int) -> Seq<Action> {
    if bit8(cur, i) == bit8(prev, i) {
        Seq::empty()
    } else if bit8(cur, i) {
        seq![Action::ButtonDown(button_of(i))]
    } else {
        seq![Action::ButtonUp(button_of(i))]
    }
}

/// The button transitions of one packet: left, then right, then middle.
pub open spec fn button_actions(prev: u8, cur: u8) -> Seq<Action> {
    button_transition(prev, cur, 0) + button_transition(prev, cur, 1) + button_transition(
        prev,
        cur,
        2,
    )
}

/// The scroll pulse of one packet: one action when exactly one scroll bit is
/// set, nothing when neither or both are set. Scroll is edge-triggered per
/// packet and never compared against the previous state.
pub open spec fn scroll_actions(cur: u8) -> Seq<Action> {
    if bit8(cur, 3) && !bit8(cur, 4) {
        seq![Action::ScrollBy(1)]
    } else if bit8(cur, 4) && !bit8(cur, 3) {
        seq![Action::ScrollBy(-1i32)]
    } else {
        Seq::empty()
    }
}

/// The key releases among the first `n` bit positions, ascending.
pub open spec fn key_ups_upto(prev: u64, cur: u64, n: int) -> Seq<Action>
    decreases n,
{
    if n <= 0 {
        Seq::empty()
    } else {
        key_ups_upto(prev, cur, n - 1) + (if bit64(prev, n - 1) && !bit64(cur, n - 1) {
            seq![Action::KeyUp(key_of(n - 1))]
        } else {
            Seq::empty()
        })
    }
}

/// The key presses among the first `n` bit positions, ascending.
pub open spec fn key_downs_upto(prev: u64, cur: u64, n: int) -> Seq<Action>
    decreases n,
{
    if n <= 0 {
        Seq::empty()
    } else {
        key_downs_upto(prev, cur, n - 1) + (if bit64(cur, n - 1) && !bit64(prev, n - 1) {
            seq![Action::KeyDown(key_of(n - 1))]
        } else {
            Seq::empty()
        })
    }
}

/// The key transitions of one packet: all releases, then all presses.
pub open spec fn key_actions(prev: u64, cur: u64) -> Seq<Action> {
    key_ups_upto(prev, cur, 64) + key_downs_upto(prev, cur, 64)
}

/// The exact ordered action sequence for one decoded packet against the
/// previous state.
pub open spec fn reconcile_spec(prev: ReplayState, buttons: u8, keys: u64) -> Seq<Action> {
    button_actions(prev.buttons, buttons) + scroll_actions(buttons) + key_actions(prev.keys, keys)
}

/// The state after applying one decoded packet: its three button bits and
/// its key set, independent of what was held before.
pub open spec fn next_state(buttons: u8, keys: u64) -> ReplayState {
    ReplayState { buttons: buttons & 7, keys }
}

/// Compute the actions for one decoded packet and the state that replaces
/// the previous one. The actions are exactly `reconcile_spec`; the new state
/// depends only on the packet, which is what makes the stream loss-tolerant.
#[verifier::rlimit(30)]
pub fn reconcile(prev: &ReplayState, buttons: u8, keys: u64) -> (r: (Vec<Action>, ReplayState))
    requires
        prev.wf(),
    ensures
        r.0@ == reconcile_spec(*prev, buttons, keys),
        r.1 == next_state(buttons, keys),
        r.1.wf(),
{
    let mut acts: Vec<Action> = Vec::new();
    let pb: u8 = prev.buttons;
    let cb: u8 = buttons;
    let cur_left: bool = (cb >> 0u8) & 1 == 1;
    let prev_left: bool = (pb >> 0u8) & 1 == 1;
    if cur_left != prev_left {
        if cur_left {
            acts.push(Action::ButtonDown(MouseButton::Left));
        } else {
            acts.push(Action::ButtonUp(MouseButton::Left));
        }
    }
    let cur_right: bool = (cb >> 1u8) & 1 == 1;
    let prev_right: bool = (pb >> 1u8) & 1 == 1;
    if cur_right != prev_right {
        if cur_right {
            acts.push(Action::ButtonDown(MouseButton::Right));
        } else {
            acts.push(Action::ButtonUp(MouseButton::Right));
        }
    }
    let cur_middle: bool = (cb >> 2u8) & 1 == 1;
    let prev_middle: bool = (pb >> 2u8) & 1 == 1;
    if cur_middle != prev_middle {
        if cur_middle {
            acts.push(Action::ButtonDown(MouseButton::Middle));
        } else {
            acts.push(Action::ButtonUp(MouseButton::Middle));
        }
    }
    proof {
        assert(acts@ =~= button_actions(pb, cb));
    }
    let up: bool = (cb >> 3u8) & 1 == 1;
    let down: bool = (cb >> 4u8) & 1 == 1;
    if up && !down {
        acts.push(Action::ScrollBy(1));
    } else if down && !up {
        acts.push(Action::ScrollBy(-1));
    }
    proof {
        assert(acts@ =~= button_actions(pb, cb) + scroll_actions(cb));
    }
    let pk: u64 = prev.keys;
    let ck: u64 = keys;
    let mut i: u64 = 0;
    while i < 64
        invariant
            i <= 64,
            acts@ == button_actions(pb, cb) + scroll_actions(cb) + key_ups_upto(
                pk,
                ck,
                i as int,
            ),
        decreases 64 - i,
    {
        if (pk >> i) & 1 == 1 && (ck >> i) & 1 != 1 {
            acts.push(Action::KeyUp(key_at(i)));
        }
        proof {
            assert(acts@ =~= button_actions(pb, cb) + scroll_actions(cb) + key_ups_upto(
                pk,
                ck,
                i + 1,
            ));
        }
        i = i + 1;
    }
    let mut j: u64 = 0;
    while j < 64
        invariant
            j <= 64,
            acts@ == button_actions(pb, cb) + scroll_actions(cb) + key_ups_upto(pk, ck, 64)
                + key_downs_upto(pk, ck, j as int),
        decreases 64 - j,
    {
        if (ck >> j) & 1 == 1 && (pk >> j) & 1 != 1 {
            acts.push(Action::KeyDown(key_at(j)));
        }
        proof {
            assert(acts@ =~= button_actions(pb, cb) + scroll_actions(cb) + key_ups_upto(pk, ck, 64)
                + key_downs_upto(pk, ck, j + 1));
        }
        j = j + 1;
    }
    proof {
        assert(acts@ =~= reconcile_spec(*prev, buttons, keys));
        assert((buttons & 7) < 8) by (bit_vector);
    }
    (acts, ReplayState { buttons: buttons & 7, keys })
}

/// How many times action `a` occurs in a sequence.
pub open spec fn count_act(s: Seq<Action>, a: Action) -> int
    decreases s.len(),
{
    if s.len() == 0 {
        0
    } else {
        count_act(s.drop_last(), a) + (if s.last() == a {
            1int
        } else {
            0int
        })
    }
}

/// Occurrence counts add up over concatenation.
pub proof fn lemma_count_concat(s: Seq<Action>, t: Seq<Action>, a: Action)
    ensures
        count_act(s + t, a) == count_act(s, a) + count_act(t, a),
    decreases t.len(),
{
    if t.len() == 0 {
        assert(s + t =~= s);
    } else {
        lemma_count_concat(s, t.drop_last(), a);
        assert((s + t).drop_last() =~= s + t.drop_last());
        assert((s + t).last() == t.last());
    }
}

/// A one-action sequence counts one occurrence of that action and none of
/// any other.
proof fn lemma_count_singleton(x: Action, a: Action)
    ensures
        count_act(seq![x], a) == (if x == a {
            1int
        } else {
            0int
        }),
{
    assert(count_act(Seq::<Action>::empty(), a) == 0);
    assert(seq![x].drop_last() =~= Seq::<Action>::empty());
}

/// Neither key loop emits an action of another kind.
proof fn lemma_key_ups_other(prev: u64, cur: u64, n: int, a: Action)
    requires
        !(a is KeyUp),
    ensures
        count_act(key_ups_upto(prev, cur, n), a) == 0,
    decreases n,
{
    if n > 0 {
        lemma_key_ups_other(prev, cur, n - 1, a);
        let part = if bit64(prev, n - 1) && !bit64(cur, n - 1) {
            seq![Action::KeyUp(key_of(n - 1))]
        } else {
            Seq::<Action>::empty()
        };
        lemma_count_concat(key_ups_upto(prev, cur, n - 1), part, a);
        if bit64(prev, n - 1) && !bit64(cur, n - 1) {
            lemma_count_singleton(Action::KeyUp(key_of(n - 1)), a);
        }
    }
}

/// Neither key loop emits an action of another kind.
proof fn lemma_key_downs_other(prev: u64, cur: u64, n: int, a: Action)
    requires
        !(a is KeyDown),
    ensures
        count_act(key_downs_upto(prev, cur, n), a) == 0,
    decreases n,
{
    if n > 0 {
        lemma_key_downs_other(prev, cur, n - 1, a);
        let part = if bit64(cur, n - 1) && !bit64(prev, n - 1) {
            seq![Action::KeyDown(key_of(n - 1))]
        } else {
            Seq::<Action>::empty()
        };
        lemma_count_concat(key_downs_upto(prev, cur, n - 1), part, a);
        if bit64(cur, n - 1) && !bit64(prev, n - 1) {
            lemma_count_singleton(Action::KeyDown(key_of(n - 1)), a);
        }
    }
}

/// The release loop emits `KeyUp(k)` exactly once when key `k` goes from
/// held to released, and never otherwise.
proof fn lemma_key_ups_count(prev: u64, cur: u64, n: int, k: KeyId)
    requires
        n <= 64,
    ensures
        count_act(key_ups_upto(prev, cur, n), Action::KeyUp(k)) == (if key_bit(k) < n && bit64(
            prev,
            key_bit(k) as int,
        ) && !bit64(cur, key_bit(k) as int) {
            1int
        } else {
            0int
        }),
    decreases n,
{
    lemma_key_bit_range(k);
    if n > 0 {
        lemma_key_ups_count(prev, cur, n - 1, k);
        let part = if bit64(prev, n - 1) && !bit64(cur, n - 1) {
            seq![Action::KeyUp(key_of(n - 1))]
        } else {
            Seq::<Action>::empty()
        };
        lemma_count_concat(key_ups_upto(prev, cur, n - 1), part, Action::KeyUp(k));
        if bit64(prev, n - 1) && !bit64(cur, n - 1) {
            lemma_count_singleton(Action::KeyUp(key_of(n - 1)), Action::KeyUp(k));
            lemma_bit_of_key(n - 1);
            lemma_key_of_bit(k);
            assert((key_of(n - 1) == k) == (n - 1 == key_bit(k) as int));
        }
    }
}

/// The press loop emits `KeyDown(k)` exactly once when key `k` goes from
/// released to held, and never otherwise.
proof fn lemma_key_downs_count(prev: u64, cur: u64, n: int, k: KeyId)
    requires
        n <= 64,
    ensures
        count_act(key_downs_upto(prev, cur, n), Action::KeyDown(k)) == (if key_bit(k) < n && bit64(
            cur,
            key_bit(k) as int,
        ) && !bit64(prev, key_bit(k) as int) {
            1int
        } else {
            0int
        }),
    decreases n,
{
    lemma_key_bit_range(k);
    if n > 0 {
        lemma_key_downs_count(prev, cur, n - 1, k);
        let part = if bit64(cur, n - 1) && !bit64(prev, n - 1) {
            seq![Action::KeyDown(key_of(n - 1))]
        } else {
            Seq::<Action>::empty()
        };
        lemma_count_concat(key_downs_upto(prev, cur, n - 1), part, Action::KeyDown(k));
        if bit64(cur, n - 1) && !bit64(prev, n - 1) {
            lemma_count_singleton(Action::KeyDown(key_of(n - 1)), Action::KeyDown(k));
            lemma_bit_of_key(n - 1);
            lemma_key_of_bit(k);
            assert((key_of(n - 1) == k) == (n - 1 == key_bit(k) as int));
        }
    }
}

/// What the button transitions count for any action: one down or up per
/// button whose bit flipped, and nothing of any other kind.
proof fn lemma_button_actions_count(prev: u8, cur: u8, a: Action)
    ensures
        count_act(button_actions(prev, cur), a) == count_act(button_transition(prev, cur, 0), a)
            + count_act(button_transition(prev, cur, 1), a) + count_act(
            button_transition(prev, cur, 2),
            a,
        ),
        forall|i: int|
            #![trigger button_transition(prev, cur, i)]
            0 <= i < 3 ==> count_act(button_transition(prev, cur, i), a) == (if bit8(cur, i)
                != bit8(prev, i) && a == (if bit8(cur, i) {
                Action::ButtonDown(button_of(i))
            } else {
                Action::ButtonUp(button_of(i))
            }) {
                1int
            } else {
                0int
            }),
{
    lemma_count_concat(
        button_transition(prev, cur, 0) + button_transition(prev, cur, 1),
        button_transition(prev, cur, 2),
        a,
    );
    lemma_count_concat(button_transition(prev, cur, 0), button_transition(prev, cur, 1), a);
    assert forall|i: int|
        #![trigger button_transition(prev, cur, i)]
        0 <= i < 3 implies count_act(button_transition(prev, cur, i), a) == (if bit8(cur, i)
        != bit8(prev, i) && a == (if bit8(cur, i) {
        Action::ButtonDown(button_of(i))
    } else {
        Action::ButtonUp(button_of(i))
    }) {
        1int
    } else {
        0int
    }) by {
        if bit8(cur, i) != bit8(prev, i) {
            if bit8(cur, i) {
                lemma_count_singleton(Action::ButtonDown(button_of(i)), a);
            } else {
                lemma_count_singleton(Action::ButtonUp(button_of(i)), a);
            }
        }
    }
}

/// What the scroll pulse counts for any action.
proof fn lemma_scroll_actions_count(cur: u8, a: Action)
    ensures
        count_act(scroll_actions(cur), a) == (if (bit8(cur, 3) && !bit8(cur, 4) && a
            == Action::ScrollBy(1)) || (bit8(cur, 4) && !bit8(cur, 3) && a == Action::ScrollBy(
            -1i32,
        )) {
            1int
        } else {
            0int
        }),
{
    if bit8(cur, 3) && !bit8(cur, 4) {
        lemma_count_singleton(Action::ScrollBy(1), a);
    } else if bit8(cur, 4) && !bit8(cur, 3) {
        lemma_count_singleton(Action::ScrollBy(-1i32), a);
    }
}

/// Reconciling against identical state emits no transitions: the key loops
/// are empty when previous and current agree.
proof fn lemma_key_same_empty(cur: u64, n: int)
    ensures
        key_ups_upto(cur, cur, n) == Seq::<Action>::empty(),
        key_downs_upto(cur, cur, n) == Seq::<Action>::empty(),
    decreases n,
{
    if n > 0 {
        lemma_key_same_empty(cur, n - 1);
        assert(key_ups_upto(cur, cur, n) =~= Seq::<Action>::empty());
        assert(key_downs_upto(cur, cur, n) =~= Seq::<Action>::empty());
    }
}

/// Idempotence of reconciliation: feeding the state a packet just applied
/// produces no down or up action at all — only the edge-triggered scroll
/// pulse of that packet remains.
pub proof fn lemma_reconcile_idempotent(buttons: u8, keys: u64)
    ensures
        reconcile_spec(next_state(buttons, keys), buttons, keys) == scroll_actions(buttons),
{
    let masked = buttons & 7;
    assert forall|i: int| 0 <= i < 3 implies #[trigger] button_transition(masked, buttons, i)
        == Seq::<Action>::empty() by {
        lemma_bit8_mask7(buttons, i);
    }
    lemma_key_same_empty(keys, 64);
    assert(reconcile_spec(next_state(buttons, keys), buttons, keys) =~= scroll_actions(buttons));
}

/// Scroll edge-triggering: every packet with the scroll-up bit set (and the
/// scroll-down bit clear) emits exactly one upward pulse, whatever was held
/// before. Two identical such packets in a row therefore emit two
/// independent pulses.
pub proof fn lemma_scroll_edge_trigger(prev: ReplayState, buttons: u8, keys: u64)
    requires
        bit8(buttons, 3),
        !bit8(buttons, 4),
    ensures
        count_act(reconcile_spec(prev, buttons, keys), Action::ScrollBy(1)) == 1,
{
    let a = Action::ScrollBy(1);
    lemma_count_concat(
        button_actions(prev.buttons, buttons) + scroll_actions(buttons),
        key_actions(prev.keys, keys),
        a,
    );
    lemma_count_concat(button_actions(prev.buttons, buttons), scroll_actions(buttons), a);
    lemma_count_concat(key_ups_upto(prev.keys, keys, 64), key_downs_upto(prev.keys, keys, 64), a);
    lemma_button_actions_count(prev.buttons, buttons, a);
    lemma_scroll_actions_count(buttons, a);
    lemma_key_ups_other(prev.keys, keys, 64, a);
    lemma_key_downs_other(prev.keys, keys, 64, a);
}

/// Whether a key is held in a state, as a 0/1 count.
pub open spec fn key_held(s: ReplayState, k: KeyId) -> int {
    if bit64(s.keys, key_bit(k) as int) {
        1int
    } else {
        0int
    }
}

/// Whether a button is held in a state, as a 0/1 count.
pub open spec fn button_held(s: ReplayState, b: MouseButton) -> int {
    if bit8(s.buttons, button_bit(b)) {
        1int
    } else {
        0int
    }
}

/// One packet's actions change the down-minus-up balance of a key by
/// exactly the change in whether that key is held.
pub proof fn lemma_reconcile_key_balance(prev: ReplayState, buttons: u8, keys: u64, k: KeyId)
    ensures
        count_act(reconcile_spec(prev, buttons, keys), Action::KeyDown(k)) - count_act(
            reconcile_spec(prev, buttons, keys),
            Action::KeyUp(k),
        ) == key_held(next_state(buttons, keys), k) - key_held(prev, k),
{
    lemma_key_bit_range(k);
    let down = Action::KeyDown(k);
    let up = Action::KeyUp(k);
    let bpart = button_actions(prev.buttons, buttons);
    let spart = scroll_actions(buttons);
    let upart = key_ups_upto(prev.keys, keys, 64);
    let dpart = key_downs_upto(prev.keys, keys, 64);
    lemma_count_concat(bpart + spart, upart + dpart, down);
    lemma_count_concat(bpart, spart, down);
    lemma_count_concat(upart, dpart, down);
    lemma_count_concat(bpart + spart, upart + dpart, up);
    lemma_count_concat(bpart, spart, up);
    lemma_count_concat(upart, dpart, up);
    lemma_button_actions_count(prev.buttons, buttons, down);
    lemma_button_actions_count(prev.buttons, buttons, up);
    lemma_scroll_actions_count(buttons, down);
    lemma_scroll_actions_count(buttons, up);
    lemma_key_ups_other(prev.keys, keys, 64, down);
    lemma_key_downs_other(prev.keys, keys, 64, up);
    lemma_key_ups_count(prev.keys, keys, 64, k);
    lemma_key_downs_count(prev.keys, keys, 64, k);
}

/// One packet's actions change the down-minus-up balance of a button by
/// exactly the change in whether that button is held.
pub proof fn lemma_reconcile_button_balance(prev: ReplayState, buttons: u8, keys: u64,
    b: MouseButton)
    ensures
        count_act(reconcile_spec(prev, buttons, keys), Action::ButtonDown(b)) - count_act(
            reconcile_spec(prev, buttons, keys),
            Action::ButtonUp(b),
        ) == button_held(next_state(buttons, keys), b) - button_held(prev, b),
{
    let down = Action::ButtonDown(b);
    let up = Action::ButtonUp(b);
    let bpart = button_actions(prev.buttons, buttons);
    let spart = scroll_actions(buttons);
    let upart = key_ups_upto(prev.keys, keys, 64);
    let dpart = key_downs_upto(prev.keys, keys, 64);
    lemma_count_concat(bpart + spart, upart + dpart, down);
    lemma_count_concat(bpart, spart, down);
    lemma_count_concat(upart, dpart, down);
    lemma_count_concat(bpart + spart, upart + dpart, up);
    lemma_count_concat(bpart, spart, up);
    lemma_count_concat(upart, dpart, up);
    lemma_button_actions_count(prev.buttons, buttons, down);
    lemma_button_actions_count(prev.buttons, buttons, up);
    lemma_scroll_actions_count(buttons, down);
    lemma_scroll_actions_count(buttons, up);
    lemma_key_ups_other(prev.keys, keys, 64, down);
    lemma_key_ups_other(prev.keys, keys, 64, up);
    lemma_key_downs_other(prev.keys, keys, 64, down);
    lemma_key_downs_other(prev.keys, keys, 64, up);
    let bb = button_bit(b);
    lemma_bit8_mask7(buttons, bb);
    assert(bit8(next_state(buttons, keys).buttons, bb) == bit8(buttons, bb));
}

} // verus!
