//! Wire codec behavior: exact encodings, round trips, rejections.

use tankers::action::{ActionError, KeyPress, PlayerAction};
use tankers::codec::{decode_action, decode_snapshot, encode_action, encode_snapshot, DecodeError};
use tankers::math::Vec2;
use tankers::snapshot::{TankState, WorldSnapshot};

#[test]
fn action_codes_are_one_byte_per_control() {
    let a = PlayerAction::new(vec![
        KeyPress::Up,
        KeyPress::Down,
        KeyPress::Left,
        KeyPress::Right,
    ]);
    let bytes = encode_action(&a).unwrap();
    assert_eq!(bytes, vec![1u8, 2, 3, 4]);
}

#[test]
fn action_round_trip() {
    let a = PlayerAction::new(vec![KeyPress::Right, KeyPress::Right, KeyPress::Up]);
    let bytes = encode_action(&a).unwrap();
    let back = decode_action(&bytes).unwrap();
    assert_eq!(back.control, a.control);
}

#[test]
fn empty_action_decodes_to_no_controls() {
    let back = decode_action(&[]).unwrap();
    assert_eq!(back.control.len(), 0);
}

#[test]
fn unknown_control_code_is_a_decode_error() {
    assert_eq!(decode_action(&[1, 7]).unwrap_err(), DecodeError::UnknownControlCode);
    assert_eq!(decode_action(&[0]).unwrap_err(), DecodeError::UnknownControlCode);
}

#[test]
fn unrecognized_signal_cannot_be_encoded() {
    let a = PlayerAction::new(vec![KeyPress::Up, KeyPress::Unknown]);
    assert_eq!(encode_action(&a), Err(ActionError::UnknownControl));
}

#[test]
fn snapshot_record_layout_is_fixed() {
    let snap = WorldSnapshot {
        tanks: vec![TankState { player_id: 1, position: Vec2::new(0, 0) }],
    };
    let bytes = encode_snapshot(&snap);
    let mut expected = vec![0u8; 32];
    // Player id 1, little endian, over 16 bytes.
    expected[0] = 1;
    // Coordinate 0 biased to the middle of the u64 range, little endian.
    expected[23] = 0x80;
    expected[31] = 0x80;
    assert_eq!(bytes, expected);
}

#[test]
fn snapshot_round_trip_covers_the_coordinate_range() {
    let snap = WorldSnapshot {
        tanks: vec![
            TankState { player_id: 5, position: Vec2::new(-3, 4) },
            TankState { player_id: u128::MAX, position: Vec2::new(i64::MIN, i64::MAX) },
            TankState { player_id: 0, position: Vec2::new(0, -1) },
        ],
    };
    let bytes = encode_snapshot(&snap);
    assert_eq!(bytes.len(), 96);
    let back = decode_snapshot(&bytes).unwrap();
    assert_eq!(back.tanks, snap.tanks);
}

#[test]
fn empty_snapshot_round_trip() {
    let snap = WorldSnapshot { tanks: vec![] };
    let bytes = encode_snapshot(&snap);
    assert_eq!(bytes.len(), 0);
    let back = decode_snapshot(&bytes).unwrap();
    assert_eq!(back.tanks.len(), 0);
}

#[test]
fn ragged_snapshot_payload_is_a_decode_error() {
    let bytes = vec![0u8; 31];
    assert!(matches!(decode_snapshot(&bytes), Err(DecodeError::BadLength)));
}
