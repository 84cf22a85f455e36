//! One iteration of the fixed-rate simulation loop.
//!
//! The loop around [`step_tick`] owns the timing: it drains the registry
//! and the intake, calls `step_tick`, publishes the returned snapshot
//! and sleeps out the tick interval. `step_tick` does everything else,
//! in the fixed per-tick order: drained registrations join the world,
//! drained departures leave it, the drained actions are applied, every
//! tank advances by exactly one tick, and the post-tick world is
//! published. No snapshot ever reflects a partially applied tick.

use vstd::prelude::*;

use crate::action::KeyPress;
use crate::config::Config;
use crate::intake::ActionIntake;
use crate::math::Vec2;
use crate::snapshot::Protobufferable;
use crate::snapshot::WorldSnapshot;
use crate::tank::Tank;
use crate::tank::apply_controls_spec;
use crate::tank::tick_tank_spec;
use crate::world::World;

verus! {

/// Whether one of the first `k` ids is this one.
pub open spec fn id_before(s: Seq<u128>, k: int, id: u128) -> bool {
    exists|j: int| 0 <= j < k && s[j] == id
}

/// A freshly spawned tank: at rest at `pos` with nothing pending.
pub open spec fn fresh_tank(id: u128, pos: Vec2) -> Tank {
    Tank { player_id: id, position: pos, velocity: Vec2 { x: 0i64, y: 0i64 }, acceleration: None }
}

/// The tank after this tick's drained actions reach it: its own
/// player's pending controls folded in, or untouched if that player
/// submitted nothing.
pub open spec fn acted(t: Tank, id: u128, actions: Map<u128, Seq<KeyPress>>, cfg: Config) -> Tank {
    if actions.dom().contains(id) {
        apply_controls_spec(t, actions[id], cfg.accel_per_tick as int)
    } else {
        t
    }
}

/// One full simulation tick over drained inputs: registrations first,
/// then departures, then actions, then the kinematic step, and finally
/// the snapshot of the post-tick world.
///
/// The world afterwards holds exactly the players that were live or
/// joining and did not leave. A survivor's tank is its old tank with
/// its own action (if any) applied and one tick integrated; a joiner's
/// tank started at rest somewhere inside the spawn bounds. An action
/// for any other id — never registered, or just unregistered — is
/// dropped without touching anything. The returned snapshot is the
/// post-tick world, whole.
#[verifier::loop_isolation(false)]
pub fn step_tick(
    world: &mut World,
    joins: &Vec<u128>,
    leaves: &Vec<u128>,
    actions: &ActionIntake,
) -> (snap: WorldSnapshot)
    requires
        old(world).wf(),
        actions.wf(),
    ensures
        final(world).wf(),
        final(world).config() == old(world).config(),
        forall|id: u128|
            final(world).has_tank(id) <==> ((old(world).has_tank(id) || joins@.contains(id))
                && !leaves@.contains(id)),
        forall|id: u128|
            old(world).has_tank(id) && !leaves@.contains(id) ==> final(world).tank_of(id)
                == tick_tank_spec(
                acted(old(world).tank_of(id), id, actions@, old(world).config()),
                old(world).config(),
            ),
        forall|id: u128|
            joins@.contains(id) && !old(world).has_tank(id) && !leaves@.contains(id)
                ==> exists|pos: Vec2|
                old(world).config().spawn_bounds.contains(pos) && final(world).tank_of(id)
                    == tick_tank_spec(
                    acted(fresh_tank(id, pos), id, actions@, old(world).config()),
                    old(world).config(),
                ),
        final(world).is_proto(snap),
{
    let ghost cfg = old(world).config();

    // Registrations join the world; an id that already has a tank is a
    // duplicate registration and is skipped.
    let nj = joins.len();
    for i in 0..nj
        invariant
            world.wf(),
            world.config() == cfg,
            forall|id: u128|
                world.has_tank(id) <==> (old(world).has_tank(id) || id_before(
                    joins@,
                    i as int,
                    id,
                )),
            forall|id: u128|
                old(world).has_tank(id) ==> world.tank_of(id) == old(world).tank_of(id),
            forall|id: u128|
                world.has_tank(id) && !old(world).has_tank(id) ==> world.tank_of(id).player_id
                    == id && world.tank_of(id).velocity.is_zero() && world.tank_of(id).acceleration
                    is None && cfg.spawn_bounds.contains(world.tank_of(id).position),
    {
        let id = joins[i];
        let already = match world.tank_for_player(id) {
            Some(_) => true,
            None => false,
        };
        if !already {
            world.register_player(id);
        }
        proof {
            assert(joins@[i as int] == id);
            assert(id_before(joins@, i as int + 1, id));
            assert forall|id2: u128|
                id2 != id implies (id_before(joins@, i as int + 1, id2) <==> id_before(
                joins@,
                i as int,
                id2,
            )) by {
                if id_before(joins@, i as int + 1, id2) {
                    let j = choose|j: int| 0 <= j < i + 1 && joins@[j] == id2;
                    assert(j != i);
                    assert(id_before(joins@, i as int, id2));
                }
            }
        }
    }
    proof {
        assert forall|id: u128| id_before(joins@, nj as int, id) <==> joins@.contains(id) by {
            if joins@.contains(id) {
                let j = choose|j: int| 0 <= j < joins@.len() && joins@[j] == id;
                assert(id_before(joins@, nj as int, id));
            }
        }
    }

    // Departures leave the world; an id with no tank is a no-op.
    let nl = leaves.len();
    for i in 0..nl
        invariant
            world.wf(),
            world.config() == cfg,
            forall|id: u128|
                world.has_tank(id) <==> ((old(world).has_tank(id) || joins@.contains(id))
                    && !id_before(leaves@, i as int, id)),
            forall|id: u128|
                world.has_tank(id) && old(world).has_tank(id) ==> world.tank_of(id) == old(
                    world,
                ).tank_of(id),
            forall|id: u128|
                world.has_tank(id) && !old(world).has_tank(id) ==> world.tank_of(id).player_id
                    == id && world.tank_of(id).velocity.is_zero() && world.tank_of(id).acceleration
                    is None && cfg.spawn_bounds.contains(world.tank_of(id).position),
    {
        let id = leaves[i];
        world.unregister_player(id);
        proof {
            assert(leaves@[i as int] == id);
            assert(id_before(leaves@, i as int + 1, id));
            assert forall|id2: u128|
                id2 != id implies (id_before(leaves@, i as int + 1, id2) <==> id_before(
                leaves@,
                i as int,
                id2,
            )) by {
                if id_before(leaves@, i as int + 1, id2) {
                    let j = choose|j: int| 0 <= j < i + 1 && leaves@[j] == id2;
                    assert(j != i);
                    assert(id_before(leaves@, i as int, id2));
                }
            }
        }
    }
    let ghost w2 = *world;
    proof {
        assert forall|id: u128| id_before(leaves@, nl as int, id) <==> leaves@.contains(id) by {
            if leaves@.contains(id) {
                let j = choose|j: int| 0 <= j < leaves@.len() && leaves@[j] == id;
                assert(id_before(leaves@, nl as int, id));
            }
        }
    }

    // The drained actions reach their own tanks; the rest are dropped.
    world.apply_player_actions(actions);
    let ghost w3 = *world;

    // Kinematics advance by exactly one tick.
    world.tick();

    proof {
        assert forall|id: u128|
            old(world).has_tank(id) && !leaves@.contains(id) implies world.tank_of(id)
            == tick_tank_spec(acted(old(world).tank_of(id), id, actions@, cfg), cfg) by {
            assert(w2.has_tank(id));
            assert(w2.tank_of(id) == old(world).tank_of(id));
            assert(w3.tank_of(id) == acted(w2.tank_of(id), id, actions@, cfg));
        }
        assert forall|id: u128|
            joins@.contains(id) && !old(world).has_tank(id) && !leaves@.contains(
                id,
            ) implies exists|pos: Vec2|
            cfg.spawn_bounds.contains(pos) && world.tank_of(id) == tick_tank_spec(
                acted(fresh_tank(id, pos), id, actions@, cfg),
                cfg,
            ) by {
            let spawned = w2.tank_of(id);
            let pos = spawned.position;
            assert(spawned == fresh_tank(id, pos));
            assert(w2.tank_of(id) == spawned);
            assert(w3.tank_of(id) == acted(spawned, id, actions@, cfg));
            assert(cfg.spawn_bounds.contains(pos) && world.tank_of(id) == tick_tank_spec(
                acted(fresh_tank(id, pos), id, actions@, cfg),
                cfg,
            ));
        }
    }

    // Publish the post-tick world, wholesale.
    world.serialize()
}

} // verus!
