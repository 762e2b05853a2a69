use remouse::bits::u64_to_bools;
use remouse::bits::u8_to_bools;
use remouse::keys::flags_to_pressed_keys;
use remouse::keys::key_at;
use remouse::keys::key_index;
use remouse::keys::pressed_keys_to_flags;
use remouse::keys::CapturedKey;
use remouse::keys::KeyId;
use remouse::packet::decode;
use remouse::packet::encode;
use remouse::packet::handshake_packet;
use remouse::packet::is_handshake;
use remouse::packet::InputSnapshot;
use remouse::packet::ProtocolError;

fn snapshot(dx: i16, dy: i16, buttons: u8, keys: u64) -> InputSnapshot {
    InputSnapshot {
        dx,
        dy,
        buttons,
        keys,
        connect: false,
        disconnect: false,
    }
}

#[test]
fn example_snapshot_encodes_to_documented_bytes() {
    // {dx=5, dy=-3, buttons={Left}, keys={A}}
    let s = snapshot(5, -3, 0b00001, 1);
    let bytes = encode(&s);
    assert_eq!(
        bytes,
        vec![0x05, 0x00, 0xFD, 0xFF, 0x01, 0x01, 0, 0, 0, 0, 0, 0, 0]
    );
    assert_eq!(decode(&bytes), Ok(s));
}

#[test]
fn round_trip_ordinary_snapshots() {
    let cases = [
        snapshot(0, 0, 0, 0),
        snapshot(1, -1, 0b10101, 0xdead_beef_0123_4567),
        snapshot(-32768, 32767, 31, u64::MAX),
        snapshot(32767, -32768, 0b01000, 1 << 63),
        snapshot(-1, -1, 0b00010, (1 << 38) | (1 << 0)),
    ];
    for s in cases {
        assert_eq!(decode(&encode(&s)), Ok(s));
    }
}

#[test]
fn round_trip_control_bits() {
    for (connect, disconnect) in [(false, true), (true, false), (true, true)] {
        let s = InputSnapshot {
            dx: -7,
            dy: 7,
            buttons: 3,
            keys: 42,
            connect,
            disconnect,
        };
        assert_eq!(decode(&encode(&s)), Ok(s));
    }
}

#[test]
fn decode_rejects_wrong_length() {
    assert_eq!(decode(&vec![]), Err(ProtocolError::MalformedPacket));
    assert_eq!(decode(&vec![0u8; 12]), Err(ProtocolError::MalformedPacket));
    assert_eq!(decode(&vec![0u8; 14]), Err(ProtocolError::MalformedPacket));
}

#[test]
fn decode_rejects_reserved_bit() {
    let mut bytes = vec![0u8; 13];
    bytes[4] = 0x80;
    assert_eq!(decode(&bytes), Err(ProtocolError::MalformedPacket));
}

#[test]
fn handshake_payload_is_connect_bit_only() {
    let hs = handshake_packet();
    assert_eq!(hs, vec![0, 0, 0, 0, 0x40, 0, 0, 0, 0, 0, 0, 0, 0]);
    assert!(is_handshake(&hs));
    assert!(!is_handshake(&vec![0u8; 13]));
    assert!(!is_handshake(&vec![]));
}

#[test]
fn unpack_u8_lsb_first() {
    assert_eq!(
        u8_to_bools(0b0000_0101),
        vec![true, false, true, false, false, false, false, false]
    );
    assert_eq!(u8_to_bools(0).len(), 8);
    assert_eq!(u8_to_bools(0x80)[7], true);
}

#[test]
fn unpack_u64_lsb_first() {
    let bits = u64_to_bools((1 << 0) | (1 << 38) | (1 << 63));
    assert_eq!(bits.len(), 64);
    assert!(bits[0]);
    assert!(bits[38]);
    assert!(bits[63]);
    assert_eq!(bits.iter().filter(|b| **b).count(), 3);
}

#[test]
fn key_table_is_a_bijection() {
    for i in 0..64u64 {
        assert_eq!(key_index(key_at(i)), i);
    }
}

#[test]
fn key_table_spot_checks() {
    assert_eq!(key_index(KeyId::A), 0);
    assert_eq!(key_index(KeyId::Z), 25);
    assert_eq!(key_index(KeyId::Digit0), 26);
    assert_eq!(key_index(KeyId::Digit9), 35);
    assert_eq!(key_index(KeyId::Space), 36);
    assert_eq!(key_index(KeyId::Return), 37);
    assert_eq!(key_index(KeyId::Shift), 38);
    assert_eq!(key_index(KeyId::Control), 39);
    assert_eq!(key_index(KeyId::Down), 40);
    assert_eq!(key_index(KeyId::Up), 43);
    assert_eq!(key_index(KeyId::Tab), 61);
    assert_eq!(key_index(KeyId::CapsLock), 62);
    assert_eq!(key_index(KeyId::Alt), 63);
}

#[test]
fn pack_keys_sets_one_bit_per_key() {
    let flags = pressed_keys_to_flags(&vec![
        CapturedKey::Mapped(KeyId::A),
        CapturedKey::Mapped(KeyId::Shift),
    ]);
    assert_eq!(flags, Some((1 << 0) | (1 << 38)));
}

#[test]
fn pack_keys_tolerates_aliased_duplicates() {
    // Left and right shift both alias to the Shift key: packing must OR the
    // bit, not add it twice.
    let flags = pressed_keys_to_flags(&vec![
        CapturedKey::Mapped(KeyId::Shift),
        CapturedKey::Mapped(KeyId::Shift),
    ]);
    assert_eq!(flags, Some(1 << 38));
}

#[test]
fn pack_keys_ignores_unmapped() {
    let flags = pressed_keys_to_flags(&vec![
        CapturedKey::Other,
        CapturedKey::Mapped(KeyId::Q),
        CapturedKey::Other,
    ]);
    assert_eq!(flags, Some(1 << 16));
}

#[test]
fn pack_keys_stops_on_escape() {
    let flags = pressed_keys_to_flags(&vec![
        CapturedKey::Mapped(KeyId::A),
        CapturedKey::Escape,
    ]);
    assert_eq!(flags, None);
}

#[test]
fn unpack_keys_ascending_order() {
    let bits = u64_to_bools((1 << 0) | (1 << 25) | (1 << 63));
    let held = flags_to_pressed_keys(&bits);
    assert_eq!(held, vec![KeyId::A, KeyId::Z, KeyId::Alt]);
}

#[test]
fn unpack_keys_ignores_bits_past_the_table() {
    let mut bits = vec![false; 70];
    bits[3] = true;
    bits[69] = true;
    assert_eq!(flags_to_pressed_keys(&bits), vec![KeyId::D]);
}
