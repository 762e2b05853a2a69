//! The fixed-layout wire packet.
//!
//! A packet is exactly 13 bytes, little-endian:
//!
//! * bytes 0-1: `dx`, signed relative motion
//! * bytes 2-3: `dy`, signed relative motion
//! * byte 4: flags — bit 0 left, bit 1 right, bit 2 middle, bit 3 scroll-up,
//!   bit 4 scroll-down, bit 5 disconnect, bit 6 connect, bit 7 reserved (zero)
//! * bytes 5-12: the 64-bit key set, one bit per `KeyId`
//!
//! Encoding never fails for a well-formed snapshot; decoding rejects a buffer
//! whose length is not 13 or whose reserved bit is set, and such a packet is
//! dropped by the caller, never fatal.

use vstd::prelude::*;

use crate::bits::bit8;

verus! {

/// The sender's view of one tick: relative motion, the held mouse buttons
/// and scroll pulses, the held keys, and the two control bits.
#[derive(Clone, Copy, PartialEq, Eq, Structural, Debug)]
pub struct InputSnapshot {
    /// Horizontal motion since the previous tick.
    pub dx: i16,
    /// Vertical motion since the previous tick.
    pub dy: i16,
    /// Button and scroll flags: bit 0 left, bit 1 right, bit 2 middle,
    /// bit 3 scroll-up, bit 4 scroll-down. Bits 5-7 are never set here;
    /// the control bits travel in the fields below.
    pub buttons: u8,
    /// The held keys as a 64-bit set, one bit per `KeyId`.
    pub keys: u64,
    /// Set on the handshake packet that opens a session.
    pub connect: bool,
    /// Set on the packet that closes a session.
    pub disconnect: bool,
}

/// Errors of the protocol layer.
#[derive(Clone, Copy, PartialEq, Eq, Structural, Debug)]
pub enum ProtocolError {
    /// A received buffer whose length or reserved bit does not match the
    /// fixed layout. The packet is dropped.
    MalformedPacket,
    /// A sender-side motion delta that exceeds the signed 16-bit wire field.
    MotionOverflow,
    /// The peer answered the handshake with the zero (reject) byte.
    HandshakeRejected,
}

/// The number of bytes in every wire packet.
pub const PACKET_LEN: usize = 13;

impl InputSnapshot {
    /// A snapshot is well formed when its button byte uses only the five
    /// button/scroll bits; the control bits are carried separately.
    pub open spec fn wf(self) -> bool {
        self.buttons < 32
    }
}

/// The 16-bit two's-complement image of a signed value.
pub open spec fn to_wire16(x: i16) -> u16 {
    if x < 0 {
        (x + 0x10000) as u16
    } else {
        x as u16
    }
}

/// The signed value read back from its 16-bit two's-complement image.
pub open spec fn from_wire16(x: u16) -> i16 {
    if x >= 0x8000 {
        (x - 0x10000) as i16
    } else {
        x as i16
    }
}

/// The low byte of a 16-bit word.
pub open spec fn lo8(x: u16) -> u8 {
    (x & 0xff) as u8
}

/// The high byte of a 16-bit word.
pub open spec fn hi8(x: u16) -> u8 {
    ((x >> 8) & 0xff) as u8
}

/// A 16-bit word assembled from its low and high bytes.
pub open spec fn word16(lo: u8, hi: u8) -> u16 {
    (lo as u16) | ((hi as u16) << 8)
}

/// Byte `j` of the little-endian image of a 64-bit word.
pub open spec fn u64_byte(x: u64, j: int) -> u8 {
    ((x >> ((8 * j) as u64)) & 0xff) as u8
}

/// A 64-bit word assembled from its eight little-endian bytes.
pub open spec fn word64(b: Seq<u8>) -> u64
    recommends
        b.len() == 8,
{
    (b[0] as u64) | ((b[1] as u64) << 8) | ((b[2] as u64) << 16) | ((b[3] as u64) << 24)
        | ((b[4] as u64) << 32) | ((b[5] as u64) << 40) | ((b[6] as u64) << 48) | ((b[7]
        as u64) << 56)
}

/// The flags byte: the five button/scroll bits plus the two control bits.
pub open spec fn flags_byte(s: InputSnapshot) -> u8 {
    s.buttons | (if s.disconnect {
        32u8
    } else {
        0u8
    }) | (if s.connect {
        64u8
    } else {
        0u8
    })
}

/// The exact 13-byte wire image of a snapshot.
pub open spec fn encode_spec(s: InputSnapshot) -> Seq<u8> {
    seq![
        lo8(to_wire16(s.dx)),
        hi8(to_wire16(s.dx)),
        lo8(to_wire16(s.dy)),
        hi8(to_wire16(s.dy)),
        flags_byte(s),
        u64_byte(s.keys, 0),
        u64_byte(s.keys, 1),
        u64_byte(s.keys, 2),
        u64_byte(s.keys, 3),
        u64_byte(s.keys, 4),
        u64_byte(s.keys, 5),
        u64_byte(s.keys, 6),
        u64_byte(s.keys, 7),
    ]
}

/// The snapshot read back from a received buffer, or `None` when the buffer
/// is not a valid packet (wrong length, or the reserved bit set).
pub open spec fn decode_spec(b: Seq<u8>) -> Option<InputSnapshot> {
    if b.len() != 13 || bit8(b[4], 7) {
        None
    } else {
        Some(
            InputSnapshot {
                dx: from_wire16(word16(b[0], b[1])),
                dy: from_wire16(word16(b[2], b[3])),
                buttons: b[4] & 0x1f,
                keys: word64(b.subrange(5, 13)),
                connect: bit8(b[4], 6),
                disconnect: bit8(b[4], 5),
            },
        )
    }
}

/// Split a signed value into its two little-endian wire bytes.
fn encode_i16(x: i16) -> (r: (u8, u8))
    ensures
        r.0 == lo8(to_wire16(x)),
        r.1 == hi8(to_wire16(x)),
{
    let ux: u16 = if x < 0 {
        (((x + 0x7fff) + 1) as u16) + 0x8000
    } else {
        x as u16
    };
    assert(ux == to_wire16(x));
    proof {
        assert(ux & 0xff < 256 && (ux >> 8) & 0xff < 256) by (bit_vector);
    }
    ((ux & 0xff) as u8, ((ux >> 8) & 0xff) as u8)
}

/// Read a signed value back from its two little-endian wire bytes.
fn decode_i16(lo: u8, hi: u8) -> (r: i16)
    ensures
        r == from_wire16(word16(lo, hi)),
{
    let ux: u16 = (lo as u16) | ((hi as u16) << 8);
    if ux >= 0x8000 {
        (((ux - 0x8000) as i16) - 0x7fff) - 1
    } else {
        ux as i16
    }
}

/// Encode a snapshot into its 13-byte wire packet. Never fails for a
/// well-formed snapshot; the result always decodes back to the argument.
pub fn encode(s: &InputSnapshot) -> (r: Vec<u8>)
    requires
        s.wf(),
    ensures
        r@ == encode_spec(*s),
        r@.len() == 13,
{
    let mut r: Vec<u8> = Vec::new();
    let (xl, xh) = encode_i16(s.dx);
    let (yl, yh) = encode_i16(s.dy);
    r.push(xl);
    r.push(xh);
    r.push(yl);
    r.push(yh);
    let d: u8 = if s.disconnect {
        32
    } else {
        0
    };
    let c: u8 = if s.connect {
        64
    } else {
        0
    };
    let b: u8 = s.buttons;
    proof {
        assert((b | d) | c < 256 && b | d | c == (b | d) | c) by (bit_vector)
            requires
                b < 32,
                d == 0 || d == 32,
                c == 0 || c == 64,
        ;
    }
    r.push((b | d) | c);
    let k: u64 = s.keys;
    proof {
        assert((k >> 0) & 0xff < 256 && (k >> 8) & 0xff < 256 && (k >> 16) & 0xff < 256 && (k
            >> 24) & 0xff < 256 && (k >> 32) & 0xff < 256 && (k >> 40) & 0xff < 256 && (k >> 48)
            & 0xff < 256 && (k >> 56) & 0xff < 256) by (bit_vector);
    }
    r.push(((k >> 0) & 0xff) as u8);
    r.push(((k >> 8) & 0xff) as u8);
    r.push(((k >> 16) & 0xff) as u8);
    r.push(((k >> 24) & 0xff) as u8);
    r.push(((k >> 32) & 0xff) as u8);
    r.push(((k >> 40) & 0xff) as u8);
    r.push(((k >> 48) & 0xff) as u8);
    r.push(((k >> 56) & 0xff) as u8);
    proof {
        assert(r@ =~= encode_spec(*s));
    }
    r
}

/// Decode a received buffer. Returns `MalformedPacket` exactly when the
/// buffer is not 13 bytes long or carries the reserved bit; otherwise the
/// decoded snapshot, which is always well formed.
pub fn decode(b: &Vec<u8>) -> (r: Result<InputSnapshot, ProtocolError>)
    ensures
        match r {
            Ok(s) => decode_spec(b@) == Some(s) && s.wf(),
            Err(e) => decode_spec(b@) is None && e == ProtocolError::MalformedPacket,
        },
{
    if b.len() != PACKET_LEN {
        return Err(ProtocolError::MalformedPacket);
    }
    let f: u8 = b[4];
    if (f >> 7) & 1 == 1 {
        assert(bit8(b@[4], 7));
        return Err(ProtocolError::MalformedPacket);
    }
    assert(!bit8(b@[4], 7));
    let dx = decode_i16(b[0], b[1]);
    let dy = decode_i16(b[2], b[3]);
    let keys: u64 = (b[5] as u64) | ((b[6] as u64) << 8) | ((b[7] as u64) << 16) | ((b[8]
        as u64) << 24) | ((b[9] as u64) << 32) | ((b[10] as u64) << 40) | ((b[11] as u64) << 48)
        | ((b[12] as u64) << 56);
    let buttons: u8 = f & 0x1f;
    proof {
        assert(f & 0x1f < 32) by (bit_vector);
        assert(keys == word64(b@.subrange(5, 13)));
    }
    Ok(
        InputSnapshot {
            dx,
            dy,
            buttons,
            keys,
            connect: (f >> 6) & 1 == 1,
            disconnect: (f >> 5) & 1 == 1,
        },
    )
}

/// Round trip: every well-formed snapshot decodes from its own encoding.
pub proof fn lemma_round_trip(s: InputSnapshot)
    requires
        s.wf(),
    ensures
        decode_spec(encode_spec(s)) == Some(s),
{
    let e = encode_spec(s);
    let ux = to_wire16(s.dx);
    let uy = to_wire16(s.dy);
    assert(word16(lo8(ux), hi8(ux)) == ux && word16(lo8(uy), hi8(uy)) == uy) by {
        lemma_word16_round_trip(ux);
        lemma_word16_round_trip(uy);
    }
    assert(from_wire16(to_wire16(s.dx)) == s.dx);
    assert(from_wire16(to_wire16(s.dy)) == s.dy);
    let b = s.buttons;
    let d: u8 = if s.disconnect {
        32
    } else {
        0
    };
    let c: u8 = if s.connect {
        64
    } else {
        0
    };
    let f = flags_byte(s);
    assert((b | d | c) & 0x1f == b && ((((b | d | c) >> 5) & 1) == 1) == (d == 32) && ((((b | d
        | c) >> 6) & 1) == 1) == (c == 64) && (((b | d | c) >> 7) & 1) != 1) by (bit_vector)
        requires
            b < 32,
            d == 0 || d == 32,
            c == 0 || c == 64,
    ;
    assert(f == b | d | c);
    assert(!bit8(e[4], 7));
    lemma_word64_round_trip(s.keys);
    assert(e.subrange(5, 13) =~= seq![
        u64_byte(s.keys, 0),
        u64_byte(s.keys, 1),
        u64_byte(s.keys, 2),
        u64_byte(s.keys, 3),
        u64_byte(s.keys, 4),
        u64_byte(s.keys, 5),
        u64_byte(s.keys, 6),
        u64_byte(s.keys, 7),
    ]);
    assert(decode_spec(e)->Some_0 == s);
}

/// Reassembling the two bytes of a 16-bit word gives the word back.
proof fn lemma_word16_round_trip(x: u16)
    ensures
        word16(lo8(x), hi8(x)) == x,
{
    assert(x & 0xff < 256 && (x >> 8) & 0xff < 256) by (bit_vector);
    let l = lo8(x);
    let h = hi8(x);
    assert((l as u16) | ((h as u16) << 8) == x) by (bit_vector)
        requires
            l == (x & 0xff) as u8,
            h == ((x >> 8) & 0xff) as u8,
    ;
}

/// Reassembling the eight bytes of a 64-bit word gives the word back.
proof fn lemma_word64_round_trip(k: u64)
    ensures
        word64(
            seq![
                u64_byte(k, 0),
                u64_byte(k, 1),
                u64_byte(k, 2),
                u64_byte(k, 3),
                u64_byte(k, 4),
                u64_byte(k, 5),
                u64_byte(k, 6),
                u64_byte(k, 7),
            ],
        ) == k,
{
    let b0 = u64_byte(k, 0);
    let b1 = u64_byte(k, 1);
    let b2 = u64_byte(k, 2);
    let b3 = u64_byte(k, 3);
    let b4 = u64_byte(k, 4);
    let b5 = u64_byte(k, 5);
    let b6 = u64_byte(k, 6);
    let b7 = u64_byte(k, 7);
    assert((b0 as u64) | ((b1 as u64) << 8) | ((b2 as u64) << 16) | ((b3 as u64) << 24) | ((
    b4 as u64) << 32) | ((b5 as u64) << 40) | ((b6 as u64) << 48) | ((b7 as u64) << 56) == k)
        by (bit_vector)
        requires
            b0 == ((k >> 0) & 0xff) as u8,
            b1 == ((k >> 8) & 0xff) as u8,
            b2 == ((k >> 16) & 0xff) as u8,
            b3 == ((k >> 24) & 0xff) as u8,
            b4 == ((k >> 32) & 0xff) as u8,
            b5 == ((k >> 40) & 0xff) as u8,
            b6 == ((k >> 48) & 0xff) as u8,
            b7 == ((k >> 56) & 0xff) as u8,
    ;
}

/// The snapshot whose encoding is the handshake packet: every field zero,
/// only the connect bit set.
pub open spec fn handshake_snapshot() -> InputSnapshot {
    InputSnapshot { dx: 0, dy: 0, buttons: 0, keys: 0, connect: true, disconnect: false }
}

/// The exact 13-byte handshake payload.
pub open spec fn handshake_bytes() -> Seq<u8> {
    encode_spec(handshake_snapshot())
}

/// Build the handshake packet that opens a session.
pub fn handshake_packet() -> (r: Vec<u8>)
    ensures
        r@ == handshake_bytes(),
{
    let s = InputSnapshot { dx: 0, dy: 0, buttons: 0, keys: 0, connect: true, disconnect: false };
    encode(&s)
}

/// Test a received buffer against the exact handshake payload.
pub fn is_handshake(b: &Vec<u8>) -> (r: bool)
    ensures
        r == (b@ == handshake_bytes()),
{
    let expected = handshake_packet();
    if b.len() != expected.len() {
        assert(b@ != handshake_bytes());
        return false;
    }
    let mut i: usize = 0;
    while i < expected.len()
        invariant
            i <= expected.len(),
            b@.len() == expected@.len(),
            expected@ == handshake_bytes(),
            forall|j: int| 0 <= j < i ==> b@[j] == expected@[j],
        decreases expected@.len() - i,
    {
        if b[i] != expected[i] {
            return false;
        }
        i = i + 1;
    }
    proof {
        assert(b@ =~= handshake_bytes());
    }
    true
}

} // verus!
