//! The published view of the world.
//!
//! Once per tick the simulation produces a [`WorldSnapshot`]: an
//! immutable copy of every live tank's id and position, replaced
//! wholesale each tick and shared read-only by every writer task.

use vstd::prelude::*;

use crate::math::Vec2;
use crate::tank::Tank;
use crate::world::World;
use crate::world::lemma_tank_at;

verus! {

/// One tank as published to clients.
#[derive(Clone, Copy, Debug, PartialEq, Eq, Structural)]
pub struct TankState {
    pub player_id: u128,
    pub position: Vec2,
}

/// What one tank publishes.
pub open spec fn state_of(t: Tank) -> TankState {
    TankState { player_id: t.player_id, position: t.position }
}

/// An immutable, externally publishable copy of the world, in
/// registration order.
#[derive(Debug)]
pub struct WorldSnapshot {
    pub tanks: Vec<TankState>,
}

/// Some published tank belongs to this player.
pub open spec fn snapshot_has_id(ts: Seq<TankState>, id: u128) -> bool {
    exists|i: int| 0 <= i < ts.len() && ts[i].player_id == id
}

impl WorldSnapshot {
    /// Whether the snapshot still carries this player.
    #[verifier::loop_isolation(false)]
    pub fn contains_player(&self, player_id: u128) -> (r: bool)
        ensures
            r == snapshot_has_id(self.tanks@, player_id),
    {
        let n = self.tanks.len();
        for i in 0..n
            invariant
                forall|j: int| 0 <= j < i ==> self.tanks@[j].player_id != player_id,
        {
            if self.tanks[i].player_id == player_id {
                return true;
            }
        }
        false
    }
}

/// Conversion into the external wire representation.
pub trait Protobufferable {
    type Proto;

    /// Whether `p` is the external form of this value.
    spec fn is_proto(&self, p: Self::Proto) -> bool;

    fn serialize(&self) -> (r: Self::Proto)
        ensures
            self.is_proto(r),
    ;
}

impl Protobufferable for Tank {
    type Proto = TankState;

    open spec fn is_proto(&self, p: TankState) -> bool {
        p == state_of(*self)
    }

    fn serialize(&self) -> (r: TankState) {
        TankState { player_id: self.player_id, position: self.position }
    }
}

impl Protobufferable for World {
    type Proto = WorldSnapshot;

    open spec fn is_proto(&self, p: WorldSnapshot) -> bool {
        &&& p.tanks@.len() == self.tanks_seq().len()
        &&& forall|i: int|
            0 <= i < self.tanks_seq().len() ==> p.tanks@[i] == state_of(self.tanks_seq()[i])
    }

    #[verifier::loop_isolation(false)]
    fn serialize(&self) -> (r: WorldSnapshot) {
        let tanks = self.tanks();
        let n = tanks.len();
        let mut out: Vec<TankState> = Vec::new();
        for i in 0..n
            invariant
                out@.len() == i,
                forall|j: int| 0 <= j < i ==> out@[j] == state_of(self.tanks_seq()[j]),
        {
            let t = &tanks[i];
            out.push(TankState { player_id: t.player_id, position: t.position });
        }
        WorldSnapshot { tanks: out }
    }
}

/// A well-formed world publishes each live player exactly once, at that
/// player's authoritative position — and nobody else: a player without
/// a tank is absent from the snapshot.
pub proof fn lemma_snapshot_faithful(w: World, s: WorldSnapshot)
    requires
        w.wf(),
        w.is_proto(s),
    ensures
        forall|id: u128| snapshot_has_id(s.tanks@, id) <==> w.has_tank(id),
        forall|id: u128|
            w.has_tank(id) ==> exists|i: int|
                0 <= i < s.tanks@.len() && s.tanks@[i] == state_of(w.tank_of(id)),
{
    assert forall|id: u128| snapshot_has_id(s.tanks@, id) <==> w.has_tank(id) by {
        if snapshot_has_id(s.tanks@, id) {
            let i = choose|i: int| 0 <= i < s.tanks@.len() && s.tanks@[i].player_id == id;
            assert(w.tanks_seq()[i].player_id == id);
        }
        if w.has_tank(id) {
            let i = choose|i: int| 0 <= i < w.tanks_seq().len() && w.tanks_seq()[i].player_id
                == id;
            assert(s.tanks@[i].player_id == id);
        }
    }
    assert forall|id: u128| w.has_tank(id) implies exists|i: int|
        0 <= i < s.tanks@.len() && s.tanks@[i] == state_of(w.tank_of(id)) by {
        let i = choose|i: int| 0 <= i < w.tanks_seq().len() && w.tanks_seq()[i].player_id == id;
        lemma_tank_at(w.tanks_seq(), i);
        assert(s.tanks@[i] == state_of(w.tank_of(id)));
    }
}

} // verus!
