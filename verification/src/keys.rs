//! The fixed 64-entry key table shared by both ends of the protocol.
//!
//! Every symbolic key is bound to one bit position in the 64-bit wire key
//! set; the table is identical and fixed on both ends, and together with the
//! packet layout it defines the protocol version. Two physical keys may
//! alias to the same symbolic key (left and right shift, for instance): that
//! aliasing happens where raw input is converted into `CapturedKey`, outside
//! the library.

use vstd::prelude::*;

use crate::bits::bit64;
use crate::bits::lemma_bit64_or_one;
use crate::bits::lemma_bit64_zero;

verus! {

/// One symbolic key of the closed 64-entry table.
#[derive(Clone, Copy, PartialEq, Eq, Structural, Debug)]
pub enum KeyId {
    A,
    B,
    C,
    D,
    E,
    F,
    G,
    H,
    I,
    J,
    K,
    L,
    M,
    N,
    O,
    P,
    Q,
    R,
    S,
    T,
    U,
    V,
    W,
    X,
    Y,
    Z,
    Digit0,
    Digit1,
    Digit2,
    Digit3,
    Digit4,
    Digit5,
    Digit6,
    Digit7,
    Digit8,
    Digit9,
    Space,
    Return,
    Shift,
    Control,
    Down,
    Left,
    Right,
    Up,
    Apostrophe,
    Backquote,
    Backslash,
    Comma,
    Equal,
    LeftBracket,
    Minus,
    Period,
    RightBracket,
    Semicolon,
    Slash,
    Backspace,
    Delete,
    End,
    Home,
    PageDown,
    PageUp,
    Tab,
    CapsLock,
    Alt,
}

/// A key as seen by the sender's capture edge: the local escape gesture,
/// a key of the shared table, or a key outside the table (which contributes
/// nothing to the wire key set).
#[derive(Clone, Copy, PartialEq, Eq, Structural, Debug)]
pub enum CapturedKey {
    /// The local "stop transmitting" gesture; never a wire event.
    Escape,
    /// A key of the shared table.
    Mapped(KeyId),
    /// A key outside the table, ignored by the protocol.
    Other,
}

/// The bit position of a key in the 64-bit wire key set.
pub open spec fn key_bit(k: KeyId) -> u64 {
    match k {
        KeyId::A => 0,
        KeyId::B => 1,
        KeyId::C => 2,
        KeyId::D => 3,
        KeyId::E => 4,
        KeyId::F => 5,
        KeyId::G => 6,
        KeyId::H => 7,
        KeyId::I => 8,
        KeyId::J => 9,
        KeyId::K => 10,
        KeyId::L => 11,
        KeyId::M => 12,
        KeyId::N => 13,
        KeyId::O => 14,
        KeyId::P => 15,
        KeyId::Q => 16,
        KeyId::R => 17,
        KeyId::S => 18,
        KeyId::T => 19,
        KeyId::U => 20,
        KeyId::V => 21,
        KeyId::W => 22,
        KeyId::X => 23,
        KeyId::Y => 24,
        KeyId::Z => 25,
        KeyId::Digit0 => 26,
        KeyId::Digit1 => 27,
        KeyId::Digit2 => 28,
        KeyId::Digit3 => 29,
        KeyId::Digit4 => 30,
        KeyId::Digit5 => 31,
        KeyId::Digit6 => 32,
        KeyId::Digit7 => 33,
        KeyId::Digit8 => 34,
        KeyId::Digit9 => 35,
        KeyId::Space => 36,
        KeyId::Return => 37,
        KeyId::Shift => 38,
        KeyId::Control => 39,
        KeyId::Down => 40,
        KeyId::Left => 41,
        KeyId::Right => 42,
        KeyId::Up => 43,
        KeyId::Apostrophe => 44,
        KeyId::Backquote => 45,
        KeyId::Backslash => 46,
        KeyId::Comma => 47,
        KeyId::Equal => 48,
        KeyId::LeftBracket => 49,
        KeyId::Minus => 50,
        KeyId::Period => 51,
        KeyId::RightBracket => 52,
        KeyId::Semicolon => 53,
        KeyId::Slash => 54,
        KeyId::Backspace => 55,
        KeyId::Delete => 56,
        KeyId::End => 57,
        KeyId::Home => 58,
        KeyId::PageDown => 59,
        KeyId::PageUp => 60,
        KeyId::Tab => 61,
        KeyId::CapsLock => 62,
        KeyId::Alt => 63,
    }
}

/// The key bound to bit position `i` of the wire key set.
pub open spec fn key_of(i: int) -> KeyId {
    if i == 0 {
        KeyId::A
    } else if i == 1 {
        KeyId::B
    } else if i == 2 {
        KeyId::C
    } else if i == 3 {
        KeyId::D
    } else if i == 4 {
        KeyId::E
    } else if i == 5 {
        KeyId::F
    } else if i == 6 {
        KeyId::G
    } else if i == 7 {
        KeyId::H
    } else if i == 8 {
        KeyId::I
    } else if i == 9 {
        KeyId::J
    } else if i == 10 {
        KeyId::K
    } else if i == 11 {
        KeyId::L
    } else if i == 12 {
        KeyId::M
    } else if i == 13 {
        KeyId::N
    } else if i == 14 {
        KeyId::O
    } else if i == 15 {
        KeyId::P
    } else if i == 16 {
        KeyId::Q
    } else if i == 17 {
        KeyId::R
    } else if i == 18 {
        KeyId::S
    } else if i == 19 {
        KeyId::T
    } else if i == 20 {
        KeyId::U
    } else if i == 21 {
        KeyId::V
    } else if i == 22 {
        KeyId::W
    } else if i == 23 {
        KeyId::X
    } else if i == 24 {
        KeyId::Y
    } else if i == 25 {
        KeyId::Z
    } else if i == 26 {
        KeyId::Digit0
    } else if i == 27 {
        KeyId::Digit1
    } else if i == 28 {
        KeyId::Digit2
    } else if i == 29 {
        KeyId::Digit3
    } else if i == 30 {
        KeyId::Digit4
    } else if i == 31 {
        KeyId::Digit5
    } else if i == 32 {
        KeyId::Digit6
    } else if i == 33 {
        KeyId::Digit7
    } else if i == 34 {
        KeyId::Digit8
    } else if i == 35 {
        KeyId::Digit9
    } else if i == 36 {
        KeyId::Space
    } else if i == 37 {
        KeyId::Return
    } else if i == 38 {
        KeyId::Shift
    } else if i == 39 {
        KeyId::Control
    } else if i == 40 {
        KeyId::Down
    } else if i == 41 {
        KeyId::Left
    } else if i == 42 {
        KeyId::Right
    } else if i == 43 {
        KeyId::Up
    } else if i == 44 {
        KeyId::Apostrophe
    } else if i == 45 {
        KeyId::Backquote
    } else if i == 46 {
        KeyId::Backslash
    } else if i == 47 {
        KeyId::Comma
    } else if i == 48 {
        KeyId::Equal
    } else if i == 49 {
        KeyId::LeftBracket
    } else if i == 50 {
        KeyId::Minus
    } else if i == 51 {
        KeyId::Period
    } else if i == 52 {
        KeyId::RightBracket
    } else if i == 53 {
        KeyId::Semicolon
    } else if i == 54 {
        KeyId::Slash
    } else if i == 55 {
        KeyId::Backspace
    } else if i == 56 {
        KeyId::Delete
    } else if i == 57 {
        KeyId::End
    } else if i == 58 {
        KeyId::Home
    } else if i == 59 {
        KeyId::PageDown
    } else if i == 60 {
        KeyId::PageUp
    } else if i == 61 {
        KeyId::Tab
    } else if i == 62 {
        KeyId::CapsLock
    } else {
        KeyId::Alt
    }
}

/// Every key sits below bit 64.
pub proof fn lemma_key_bit_range(k: KeyId)
    ensures
        key_bit(k) < 64,
{
}

/// The table is a bijection: reading a key's bit position back through the
/// table gives the key.
pub proof fn lemma_key_of_bit(k: KeyId)
    ensures
        key_of(key_bit(k) as int) == k,
{
}

/// The table is a bijection: the key at position `i` maps back to bit `i`.
pub proof fn lemma_bit_of_key(i: int)
    requires
        0 <= i < 64,
    ensures
        key_bit(key_of(i)) == i as u64,
{
}

/// The bit position of a key.
pub fn key_index(k: KeyId) -> (r: u64)
    ensures
        r == key_bit(k),
{
    match k {
        KeyId::A => 0,
        KeyId::B => 1,
        KeyId::C => 2,
        KeyId::D => 3,
        KeyId::E => 4,
        KeyId::F => 5,
        KeyId::G => 6,
        KeyId::H => 7,
        KeyId::I => 8,
        KeyId::J => 9,
        KeyId::K => 10,
        KeyId::L => 11,
        KeyId::M => 12,
        KeyId::N => 13,
        KeyId::O => 14,
        KeyId::P => 15,
        KeyId::Q => 16,
        KeyId::R => 17,
        KeyId::S => 18,
        KeyId::T => 19,
        KeyId::U => 20,
        KeyId::V => 21,
        KeyId::W => 22,
        KeyId::X => 23,
        KeyId::Y => 24,
        KeyId::Z => 25,
        KeyId::Digit0 => 26,
        KeyId::Digit1 => 27,
        KeyId::Digit2 => 28,
        KeyId::Digit3 => 29,
        KeyId::Digit4 => 30,
        KeyId::Digit5 => 31,
        KeyId::Digit6 => 32,
        KeyId::Digit7 => 33,
        KeyId::Digit8 => 34,
        KeyId::Digit9 => 35,
        KeyId::Space => 36,
        KeyId::Return => 37,
        KeyId::Shift => 38,
        KeyId::Control => 39,
        KeyId::Down => 40,
        KeyId::Left => 41,
        KeyId::Right => 42,
        KeyId::Up => 43,
        KeyId::Apostrophe => 44,
        KeyId::Backquote => 45,
        KeyId::Backslash => 46,
        KeyId::Comma => 47,
        KeyId::Equal => 48,
        KeyId::LeftBracket => 49,
        KeyId::Minus => 50,
        KeyId::Period => 51,
        KeyId::RightBracket => 52,
        KeyId::Semicolon => 53,
        KeyId::Slash => 54,
        KeyId::Backspace => 55,
        KeyId::Delete => 56,
        KeyId::End => 57,
        KeyId::Home => 58,
        KeyId::PageDown => 59,
        KeyId::PageUp => 60,
        KeyId::Tab => 61,
        KeyId::CapsLock => 62,
        KeyId::Alt => 63,
    }
}

/// The key bound to bit position `i`.
pub fn key_at(i: u64) -> (r: KeyId)
    requires
        i < 64,
    ensures
        r == key_of(i as int),
{
    match i {
        0 => KeyId::A,
        1 => KeyId::B,
        2 => KeyId::C,
        3 => KeyId::D,
        4 => KeyId::E,
        5 => KeyId::F,
        6 => KeyId::G,
        7 => KeyId::H,
        8 => KeyId::I,
        9 => KeyId::J,
        10 => KeyId::K,
        11 => KeyId::L,
        12 => KeyId::M,
        13 => KeyId::N,
        14 => KeyId::O,
        15 => KeyId::P,
        16 => KeyId::Q,
        17 => KeyId::R,
        18 => KeyId::S,
        19 => KeyId::T,
        20 => KeyId::U,
        21 => KeyId::V,
        22 => KeyId::W,
        23 => KeyId::X,
        24 => KeyId::Y,
        25 => KeyId::Z,
        26 => KeyId::Digit0,
        27 => KeyId::Digit1,
        28 => KeyId::Digit2,
        29 => KeyId::Digit3,
        30 => KeyId::Digit4,
        31 => KeyId::Digit5,
        32 => KeyId::Digit6,
        33 => KeyId::Digit7,
        34 => KeyId::Digit8,
        35 => KeyId::Digit9,
        36 => KeyId::Space,
        37 => KeyId::Return,
        38 => KeyId::Shift,
        39 => KeyId::Control,
        40 => KeyId::Down,
        41 => KeyId::Left,
        42 => KeyId::Right,
        43 => KeyId::Up,
        44 => KeyId::Apostrophe,
        45 => KeyId::Backquote,
        46 => KeyId::Backslash,
        47 => KeyId::Comma,
        48 => KeyId::Equal,
        49 => KeyId::LeftBracket,
        50 => KeyId::Minus,
        51 => KeyId::Period,
        52 => KeyId::RightBracket,
        53 => KeyId::Semicolon,
        54 => KeyId::Slash,
        55 => KeyId::Backspace,
        56 => KeyId::Delete,
        57 => KeyId::End,
        58 => KeyId::Home,
        59 => KeyId::PageDown,
        60 => KeyId::PageUp,
        61 => KeyId::Tab,
        62 => KeyId::CapsLock,
        63 => KeyId::Alt,
        _ => KeyId::Alt,
    }
}

/// The contribution of one captured key to the wire key set: the key's bit,
/// or nothing for the escape gesture and for unmapped keys.
pub open spec fn key_mask(ck: CapturedKey) -> u64 {
    match ck {
        CapturedKey::Mapped(k) => 1u64 << key_bit(k),
        _ => 0,
    }
}

/// The wire key set built from a sequence of captured keys.
pub open spec fn keys_flags_spec(s: Seq<CapturedKey>) -> u64
    decreases s.len(),
{
    if s.len() == 0 {
        0
    } else {
        keys_flags_spec(s.drop_last()) | key_mask(s.last())
    }
}

/// Pack the captured keys of one tick into the 64-bit wire key set.
/// Returns `None` exactly when the escape gesture is among them: that is the
/// sender's local stop signal, not a wire event.
pub fn pressed_keys_to_flags(pressed_keys: &Vec<CapturedKey>) -> (r: Option<u64>)
    ensures
        match r {
            Some(flags) => flags == keys_flags_spec(pressed_keys@) && !pressed_keys@.contains(
                CapturedKey::Escape,
            ),
            None => pressed_keys@.contains(CapturedKey::Escape),
        },
{
    let mut flags: u64 = 0;
    let mut i: usize = 0;
    while i < pressed_keys.len()
        invariant
            i <= pressed_keys@.len(),
            flags == keys_flags_spec(pressed_keys@.take(i as int)),
            !pressed_keys@.take(i as int).contains(CapturedKey::Escape),
        decreases pressed_keys@.len() - i,
    {
        proof {
            assert(pressed_keys@.take(i + 1).drop_last() == pressed_keys@.take(i as int));
        }
        match pressed_keys[i] {
            CapturedKey::Escape => {
                assert(pressed_keys@.contains(CapturedKey::Escape));
                return None;
            },
            CapturedKey::Mapped(k) => {
                let b = key_index(k);
                flags = flags | (1u64 << b);
            },
            CapturedKey::Other => {
                proof {
                    assert(flags | 0u64 == flags) by (bit_vector);
                }
            },
        }
        i = i + 1;
    }
    proof {
        assert(pressed_keys@.take(pressed_keys@.len() as int) == pressed_keys@);
    }
    Some(flags)
}

/// A key's bit is set in the packed set exactly when the key was captured.
pub proof fn lemma_keys_flags_bit(s: Seq<CapturedKey>, k: KeyId)
    ensures
        bit64(keys_flags_spec(s), key_bit(k) as int) == s.contains(CapturedKey::Mapped(k)),
    decreases s.len(),
{
    lemma_key_bit_range(k);
    if s.len() == 0 {
        lemma_bit64_zero(key_bit(k) as int);
    } else {
        lemma_keys_flags_bit(s.drop_last(), k);
        let rest = keys_flags_spec(s.drop_last());
        match s.last() {
            CapturedKey::Mapped(k2) => {
                lemma_key_bit_range(k2);
                lemma_bit64_or_one(rest, key_bit(k2), key_bit(k) as int);
                if key_bit(k2) == key_bit(k) {
                    lemma_key_of_bit(k);
                    lemma_key_of_bit(k2);
                    assert(k2 == k);
                    assert(s.contains(CapturedKey::Mapped(k)));
                } else {
                    assert(s.drop_last().contains(CapturedKey::Mapped(k))
                        == s.contains(CapturedKey::Mapped(k))) by {
                        if s.contains(CapturedKey::Mapped(k)) {
                            let j = choose|j: int|
                                0 <= j < s.len() && s[j] == CapturedKey::Mapped(k);
                            assert(j < s.len() - 1);
                            assert(s.drop_last()[j] == CapturedKey::Mapped(k));
                        }
                        if s.drop_last().contains(CapturedKey::Mapped(k)) {
                            let j = choose|j: int|
                                0 <= j < s.len() - 1 && s.drop_last()[j] == CapturedKey::Mapped(
                                    k,
                                );
                            assert(s[j] == CapturedKey::Mapped(k));
                        }
                    }
                }
            },
            CapturedKey::Escape => {
                assert(rest | 0u64 == rest) by (bit_vector);
                assert(s.drop_last().contains(CapturedKey::Mapped(k)) == s.contains(
                    CapturedKey::Mapped(k),
                )) by {
                    if s.contains(CapturedKey::Mapped(k)) {
                        let j = choose|j: int| 0 <= j < s.len() && s[j] == CapturedKey::Mapped(k);
                        assert(j < s.len() - 1);
                        assert(s.drop_last()[j] == CapturedKey::Mapped(k));
                    }
                    if s.drop_last().contains(CapturedKey::Mapped(k)) {
                        let j = choose|j: int|
                            0 <= j < s.len() - 1 && s.drop_last()[j] == CapturedKey::Mapped(k);
                        assert(s[j] == CapturedKey::Mapped(k));
                    }
                }
            },
            CapturedKey::Other => {
                assert(rest | 0u64 == rest) by (bit_vector);
                assert(s.drop_last().contains(CapturedKey::Mapped(k)) == s.contains(
                    CapturedKey::Mapped(k),
                )) by {
                    if s.contains(CapturedKey::Mapped(k)) {
                        let j = choose|j: int| 0 <= j < s.len() && s[j] == CapturedKey::Mapped(k);
                        assert(j < s.len() - 1);
                        assert(s.drop_last()[j] == CapturedKey::Mapped(k));
                    }
                    if s.drop_last().contains(CapturedKey::Mapped(k)) {
                        let j = choose|j: int|
                            0 <= j < s.len() - 1 && s.drop_last()[j] == CapturedKey::Mapped(k);
                        assert(s[j] == CapturedKey::Mapped(k));
                    }
                }
            },
        }
    }
}

/// The keys held according to the first `n` entries of an unpacked bit
/// vector, in ascending bit order. Bits at positions 64 and above have no
/// key in the table and are ignored.
pub open spec fn held_keys_spec(flags: Seq<bool>, n: int) -> Seq<KeyId>
    decreases n,
{
    if n <= 0 {
        Seq::empty()
    } else {
        held_keys_spec(flags, n - 1) + (if flags[n - 1] && n - 1 < 64 {
            seq![key_of(n - 1)]
        } else {
            Seq::empty()
        })
    }
}

/// Membership over concatenation.
proof fn lemma_contains_concat(a: Seq<KeyId>, b: Seq<KeyId>, x: KeyId)
    ensures
        (a + b).contains(x) == (a.contains(x) || b.contains(x)),
{
    if (a + b).contains(x) {
        let i = choose|i: int| 0 <= i < (a + b).len() && (a + b)[i] == x;
        if i < a.len() {
            assert(a[i] == x);
        } else {
            assert(b[i - a.len()] == x);
        }
    }
    if a.contains(x) {
        let i = choose|i: int| 0 <= i < a.len() && a[i] == x;
        assert((a + b)[i] == x);
    }
    if b.contains(x) {
        let i = choose|i: int| 0 <= i < b.len() && b[i] == x;
        assert((a + b)[a.len() + i] == x);
    }
}

/// Unpacking is the lossless image of the word: the listed keys are exactly
/// the keys whose bit is set. Together with `lemma_keys_flags_bit` this
/// makes packing and unpacking a bijection over the 64-entry table.
pub proof fn lemma_held_keys_membership(flags: Seq<bool>, n: int, k: KeyId)
    requires
        n <= 64,
    ensures
        held_keys_spec(flags, n).contains(k) == ((key_bit(k) as int) < n && flags[key_bit(
            k,
        ) as int]),
    decreases n,
{
    lemma_key_bit_range(k);
    if n > 0 {
        lemma_held_keys_membership(flags, n - 1, k);
        let part = if flags[n - 1] && n - 1 < 64 {
            seq![key_of(n - 1)]
        } else {
            Seq::<KeyId>::empty()
        };
        lemma_contains_concat(held_keys_spec(flags, n - 1), part, k);
        if flags[n - 1] && n - 1 < 64 {
            lemma_bit_of_key(n - 1);
            lemma_key_of_bit(k);
            assert(part.contains(k) == (key_of(n - 1) == k)) by {
                if part.contains(k) {
                    let i = choose|i: int| 0 <= i < part.len() && part[i] == k;
                    assert(part[0] == key_of(n - 1));
                }
                if key_of(n - 1) == k {
                    assert(part[0] == k);
                }
            }
        }
    } else {
        assert(!held_keys_spec(flags, n).contains(k));
    }
}

/// List the keys held in an unpacked bit vector, in ascending bit order.
/// Entries at index 64 and above have no key in the table and are ignored.
pub fn flags_to_pressed_keys(flags: &Vec<bool>) -> (r: Vec<KeyId>)
    ensures
        r@ == held_keys_spec(flags@, flags@.len() as int),
{
    let mut held_keys: Vec<KeyId> = Vec::new();
    let mut i: usize = 0;
    while i < flags.len()
        invariant
            i <= flags@.len(),
            held_keys@ == held_keys_spec(flags@, i as int),
        decreases flags@.len() - i,
    {
        if flags[i] && i < 64 {
            held_keys.push(key_at(i as u64));
        }
        i = i + 1;
    }
    held_keys
}

} // verus!
