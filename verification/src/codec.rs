//! The wire codec.
//!
//! Inbound binary frames decode into a [`PlayerAction`]; outbound frames
//! carry an encoded [`WorldSnapshot`]. The formats are deliberately
//! flat: an action is one byte per control signal, and a snapshot is a
//! fixed 32-byte record per tank — 16 little-endian bytes of player id,
//! then the two coordinates, each biased into a `u64` and written as 8
//! little-endian bytes. A malformed payload is a decode error, local to
//! one message: the connection lives on.

use vstd::prelude::*;

use vstd::bytes::lemma_auto_spec_u128_to_from_le_bytes;
use vstd::bytes::lemma_auto_spec_u64_to_from_le_bytes;
use vstd::bytes::spec_u128_from_le_bytes;
use vstd::bytes::spec_u128_to_le_bytes;
use vstd::bytes::spec_u64_from_le_bytes;
use vstd::bytes::spec_u64_to_le_bytes;
use vstd::bytes::u128_from_le_bytes;
use vstd::bytes::u128_to_le_bytes;
use vstd::bytes::u64_from_le_bytes;
use vstd::bytes::u64_to_le_bytes;
use vstd::slice::slice_subrange;

use crate::action::ActionError;
use crate::action::KeyPress;
use crate::action::PlayerAction;
use crate::action::controls_ok;
use crate::math::Vec2;
use crate::snapshot::TankState;
use crate::snapshot::WorldSnapshot;

verus! {

/// A reason an inbound payload is rejected.
#[derive(Clone, Copy, Debug, PartialEq, Eq, Structural)]
pub enum DecodeError {
    /// A control byte outside the recognized codes.
    UnknownControlCode,
    /// A snapshot payload that is not whole records.
    BadLength,
}

/// The wire code of a recognized control signal.
pub open spec fn key_code(k: KeyPress) -> u8 {
    match k {
        KeyPress::Up => 1,
        KeyPress::Down => 2,
        KeyPress::Left => 3,
        KeyPress::Right => 4,
        KeyPress::Unknown => 0,
    }
}

/// The control signal a wire byte stands for, if any.
pub open spec fn code_key(b: u8) -> Option<KeyPress> {
    if b == 1 {
        Some(KeyPress::Up)
    } else if b == 2 {
        Some(KeyPress::Down)
    } else if b == 3 {
        Some(KeyPress::Left)
    } else if b == 4 {
        Some(KeyPress::Right)
    } else {
        None
    }
}

/// An action's wire form: one code byte per control signal.
pub open spec fn encode_action_spec(cs: Seq<KeyPress>) -> Seq<u8> {
    cs.map_values(|k: KeyPress| key_code(k))
}

/// Whether every byte of the payload is a recognized control code.
pub open spec fn action_bytes_ok(bs: Seq<u8>) -> bool {
    forall|i: int| 0 <= i < bs.len() ==> code_key(bs[i]) is Some
}

/// The control sequence a well-formed payload decodes to.
pub open spec fn decode_action_spec(bs: Seq<u8>) -> Seq<KeyPress> {
    bs.map_values(|b: u8| code_key(b).unwrap())
}

/// Encodes an action for the wire. Only recognized control signals have
/// a code, so an action carrying an unrecognized signal is refused.
#[verifier::loop_isolation(false)]
pub fn encode_action(a: &PlayerAction) -> (r: Result<Vec<u8>, ActionError>)
    ensures
        r.is_ok() <==> controls_ok(a@),
        match r {
            Ok(bs) => bs@ == encode_action_spec(a@),
            Err(e) => e == ActionError::UnknownControl,
        },
{
    let n = a.control.len();
    let mut out: Vec<u8> = Vec::new();
    for i in 0..n
        invariant
            out@.len() == i,
            forall|j: int| 0 <= j < i ==> out@[j] == key_code(a@[j]),
            forall|j: int| 0 <= j < i ==> a@[j] != KeyPress::Unknown,
    {
        let b: u8 = match a.control[i] {
            KeyPress::Up => 1,
            KeyPress::Down => 2,
            KeyPress::Left => 3,
            KeyPress::Right => 4,
            KeyPress::Unknown => {
                return Err(ActionError::UnknownControl);
            },
        };
        out.push(b);
    }
    proof {
        assert(out@ =~= encode_action_spec(a@));
    }
    Ok(out)
}

/// Decodes an inbound binary frame into an action. Every byte must be a
/// recognized control code; the first byte that is not makes the whole
/// payload a decode error and nothing is handed on.
#[verifier::loop_isolation(false)]
pub fn decode_action(bytes: &[u8]) -> (r: Result<PlayerAction, DecodeError>)
    ensures
        r.is_ok() <==> action_bytes_ok(bytes@),
        match r {
            Ok(a) => a@ == decode_action_spec(bytes@),
            Err(e) => e == DecodeError::UnknownControlCode,
        },
{
    let n = bytes.len();
    let mut control: Vec<KeyPress> = Vec::new();
    for i in 0..n
        invariant
            control@.len() == i,
            forall|j: int| 0 <= j < i ==> code_key(bytes@[j]) is Some,
            forall|j: int| 0 <= j < i ==> control@[j] == code_key(bytes@[j]).unwrap(),
    {
        let b = bytes[i];
        let k = if b == 1 {
            KeyPress::Up
        } else if b == 2 {
            KeyPress::Down
        } else if b == 3 {
            KeyPress::Left
        } else if b == 4 {
            KeyPress::Right
        } else {
            return Err(DecodeError::UnknownControlCode);
        };
        control.push(k);
    }
    proof {
        assert(control@ =~= decode_action_spec(bytes@));
    }
    Ok(PlayerAction { control })
}

/// Encoding an action and decoding the bytes gives the action back, and
/// decoding any well-formed payload and re-encoding it gives the same
/// bytes: the action codec loses nothing in either direction.
pub proof fn lemma_action_codec_round_trip(cs: Seq<KeyPress>, bs: Seq<u8>)
    requires
        controls_ok(cs),
        action_bytes_ok(bs),
    ensures
        action_bytes_ok(encode_action_spec(cs)),
        decode_action_spec(encode_action_spec(cs)) == cs,
        controls_ok(decode_action_spec(bs)),
        encode_action_spec(decode_action_spec(bs)) == bs,
{
    assert(decode_action_spec(encode_action_spec(cs)) =~= cs);
    assert(encode_action_spec(decode_action_spec(bs)) =~= bs);
}

/// The coordinate bias: the signed coordinate shifted into `u64` range.
pub open spec fn bias(x: int) -> int {
    x + 0x8000_0000_0000_0000
}

fn bias_coord(x: i64) -> (r: u64)
    ensures
        r as int == bias(x as int),
{
    ((x as i128) + 0x8000_0000_0000_0000i128) as u64
}

fn unbias_coord(r: u64) -> (x: i64)
    ensures
        x as int == (r as int) - 0x8000_0000_0000_0000,
{
    ((r as i128) - 0x8000_0000_0000_0000i128) as i64
}

/// One tank's 32-byte wire record.
pub open spec fn encode_record_spec(t: TankState) -> Seq<u8> {
    spec_u128_to_le_bytes(t.player_id) + spec_u64_to_le_bytes(
        bias(t.position.x as int) as u64,
    ) + spec_u64_to_le_bytes(bias(t.position.y as int) as u64)
}

/// The tank a 32-byte wire record stands for.
pub open spec fn decode_record_spec(rec: Seq<u8>) -> TankState {
    TankState {
        player_id: spec_u128_from_le_bytes(rec.subrange(0, 16)),
        position: Vec2 {
            x: (spec_u64_from_le_bytes(rec.subrange(16, 24)) - 0x8000_0000_0000_0000) as i64,
            y: (spec_u64_from_le_bytes(rec.subrange(24, 32)) - 0x8000_0000_0000_0000) as i64,
        },
    }
}

/// A snapshot's wire form: the records in order.
pub open spec fn encode_snapshot_spec(ts: Seq<TankState>) -> Seq<u8>
    decreases ts.len(),
{
    if ts.len() == 0 {
        Seq::empty()
    } else {
        encode_record_spec(ts[0]) + encode_snapshot_spec(ts.drop_first())
    }
}

/// The snapshot a payload of whole records stands for.
pub open spec fn decode_snapshot_spec(bs: Seq<u8>) -> Seq<TankState>
    recommends
        bs.len() % 32 == 0,
{
    Seq::new(bs.len() / 32, |i: int| decode_record_spec(bs.subrange(32 * i, 32 * i + 32)))
}

/// Each record is 32 bytes, so the payload grows in whole records.
pub proof fn lemma_encode_snapshot_len(ts: Seq<TankState>)
    ensures
        encode_snapshot_spec(ts).len() == 32 * ts.len(),
    decreases ts.len(),
{
    lemma_auto_spec_u128_to_from_le_bytes();
    lemma_auto_spec_u64_to_from_le_bytes();
    if ts.len() > 0 {
        lemma_encode_snapshot_len(ts.drop_first());
    }
}

/// One record decodes back to the tank it was encoded from.
proof fn lemma_record_round_trip(t: TankState)
    ensures
        encode_record_spec(t).len() == 32,
        decode_record_spec(encode_record_spec(t)) == t,
{
    lemma_auto_spec_u128_to_from_le_bytes();
    lemma_auto_spec_u64_to_from_le_bytes();
    let rec = encode_record_spec(t);
    assert(rec.subrange(0, 16) =~= spec_u128_to_le_bytes(t.player_id));
    assert(rec.subrange(16, 24) =~= spec_u64_to_le_bytes(bias(t.position.x as int) as u64));
    assert(rec.subrange(24, 32) =~= spec_u64_to_le_bytes(bias(t.position.y as int) as u64));
}

/// Decoding an encoded snapshot gives back exactly the tanks that were
/// published: the snapshot codec loses nothing.
pub proof fn lemma_snapshot_codec_round_trip(ts: Seq<TankState>)
    ensures
        encode_snapshot_spec(ts).len() % 32 == 0,
        decode_snapshot_spec(encode_snapshot_spec(ts)) == ts,
    decreases ts.len(),
{
    lemma_encode_snapshot_len(ts);
    let bs = encode_snapshot_spec(ts);
    if ts.len() == 0 {
        assert(decode_snapshot_spec(bs) =~= ts);
    } else {
        let head = encode_record_spec(ts[0]);
        let tail = encode_snapshot_spec(ts.drop_first());
        lemma_record_round_trip(ts[0]);
        lemma_encode_snapshot_len(ts.drop_first());
        lemma_snapshot_codec_round_trip(ts.drop_first());
        assert forall|i: int| 0 <= i < ts.len() implies decode_snapshot_spec(bs)[i] == ts[i] by {
            if i == 0 {
                assert(bs.subrange(0, 32) =~= head);
            } else {
                assert(bs.subrange(32 * i, 32 * i + 32) =~= tail.subrange(
                    32 * (i - 1),
                    32 * (i - 1) + 32,
                ));
                assert(decode_snapshot_spec(tail)[i - 1] == ts.drop_first()[i - 1]);
            }
        }
        assert(decode_snapshot_spec(bs) =~= ts);
    }
}

/// Encodes a snapshot for broadcast.
#[verifier::loop_isolation(false)]
pub fn encode_snapshot(s: &WorldSnapshot) -> (r: Vec<u8>)
    ensures
        r@ == encode_snapshot_spec(s.tanks@),
{
    let n = s.tanks.len();
    let mut out: Vec<u8> = Vec::new();
    proof {
        assert(s.tanks@.skip(0) =~= s.tanks@);
    }
    for i in 0..n
        invariant
            encode_snapshot_spec(s.tanks@) =~= out@ + encode_snapshot_spec(
                s.tanks@.skip(i as int),
            ),
    {
        let t = &s.tanks[i];
        let mut idb = u128_to_le_bytes(t.player_id);
        let mut xb = u64_to_le_bytes(bias_coord(t.position.x));
        let mut yb = u64_to_le_bytes(bias_coord(t.position.y));
        out.append(&mut idb);
        out.append(&mut xb);
        out.append(&mut yb);
        proof {
            assert(s.tanks@.skip(i as int)[0] == s.tanks@[i as int]);
            assert(s.tanks@.skip(i as int).drop_first() =~= s.tanks@.skip(i as int + 1));
            assert(encode_snapshot_spec(s.tanks@.skip(i as int)) == encode_record_spec(
                s.tanks@[i as int],
            ) + encode_snapshot_spec(s.tanks@.skip(i as int + 1)));
        }
    }
    proof {
        assert(s.tanks@.skip(n as int) =~= Seq::<TankState>::empty());
        assert(out@ =~= encode_snapshot_spec(s.tanks@));
    }
    out
}

/// Decodes a broadcast payload back into a snapshot. The payload must be
/// whole 32-byte records.
#[verifier::loop_isolation(false)]
pub fn decode_snapshot(bytes: &[u8]) -> (r: Result<WorldSnapshot, DecodeError>)
    ensures
        r.is_ok() <==> bytes@.len() % 32 == 0,
        match r {
            Ok(s) => s.tanks@ == decode_snapshot_spec(bytes@),
            Err(e) => e == DecodeError::BadLength,
        },
{
    let len = bytes.len();
    if len % 32 != 0 {
        return Err(DecodeError::BadLength);
    }
    let n = len / 32;
    let mut tanks: Vec<TankState> = Vec::new();
    for i in 0..n
        invariant
            tanks@.len() == i,
            forall|j: int|
                0 <= j < i ==> tanks@[j] == decode_record_spec(
                    bytes@.subrange(32 * j, 32 * j + 32),
                ),
    {
        let base = 32 * i;
        let idb = slice_subrange(bytes, base, base + 16);
        let xb = slice_subrange(bytes, base + 16, base + 24);
        let yb = slice_subrange(bytes, base + 24, base + 32);
        let player_id = u128_from_le_bytes(idb);
        let x = unbias_coord(u64_from_le_bytes(xb));
        let y = unbias_coord(u64_from_le_bytes(yb));
        let t = TankState { player_id, position: Vec2 { x, y } };
        proof {
            let rec = bytes@.subrange(32 * i as int, 32 * i as int + 32);
            assert(idb@ =~= rec.subrange(0, 16));
            assert(xb@ =~= rec.subrange(16, 24));
            assert(yb@ =~= rec.subrange(24, 32));
            assert(t == decode_record_spec(rec));
        }
        tanks.push(t);
    }
    proof {
        assert(tanks@ =~= decode_snapshot_spec(bytes@));
    }
    Ok(WorldSnapshot { tanks })
}

} // verus!
