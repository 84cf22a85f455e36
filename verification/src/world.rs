//! The authoritative world: a collection of player-owned tanks.
//!
//! The world is owned by the simulation loop, the single writer of
//! authoritative state. Every tank's `player_id` is unique, a player
//! action only ever moves that player's own tank, and an action for an
//! unknown player is a recoverable, skipped failure — never a crash.

use vstd::prelude::*;

use crate::action::ActionError;
use crate::action::PlayerAction;
use crate::action::controls_ok;
use crate::config::Config;
use crate::entropy::random_coord;
use crate::intake::ActionIntake;
use crate::intake::has_key;
use crate::intake::lemma_val_at;
use crate::math::Vec2;
use crate::tank::Tank;
use crate::tank::apply_controls_spec;
use crate::tank::tick_tank_spec;

verus! {

/// Every tank's owner occurs at most once.
pub open spec fn owners_distinct(s: Seq<Tank>) -> bool {
    forall|i: int, j: int| 0 <= i < j < s.len() ==> s[i].player_id != s[j].player_id
}

/// Some tank in the sequence belongs to this player.
pub open spec fn has_owner(s: Seq<Tank>, id: u128) -> bool {
    exists|i: int| 0 <= i < s.len() && s[i].player_id == id
}

/// The tank belonging to this player.
pub open spec fn tank_with_owner(s: Seq<Tank>, id: u128) -> Tank {
    let i = choose|i: int| 0 <= i < s.len() && s[i].player_id == id;
    s[i]
}

/// With distinct owners, every slot holds the tank `tank_with_owner`
/// finds for its owner.
pub proof fn lemma_tank_at(s: Seq<Tank>, i: int)
    requires
        owners_distinct(s),
        0 <= i < s.len(),
    ensures
        has_owner(s, s[i].player_id),
        tank_with_owner(s, s[i].player_id) == s[i],
{
    let id = s[i].player_id;
    assert(0 <= i < s.len() && s[i].player_id == id);
    let j = choose|j: int| 0 <= j < s.len() && s[j].player_id == id;
    assert(j == i);
}

/// Whether one of the first `k` intake entries carries this key.
pub open spec fn key_before(s: Seq<(u128, PlayerAction)>, k: int, id: u128) -> bool {
    exists|j: int| 0 <= j < k && s[j].0 == id
}

/// The authoritative mapping from player id to tank, with its
/// configuration.
pub struct World {
    cfg: Config,
    tanks: Vec<Tank>,
}

impl World {
    /// The tanks in registration order.
    pub closed spec fn tanks_seq(self) -> Seq<Tank> {
        self.tanks@
    }

    /// The configuration this world was started with.
    pub closed spec fn config(self) -> Config {
        self.cfg
    }

    pub open spec fn wf(self) -> bool {
        owners_distinct(self.tanks_seq()) && self.config().wf()
    }

    pub open spec fn has_tank(self, id: u128) -> bool {
        has_owner(self.tanks_seq(), id)
    }

    pub open spec fn tank_of(self, id: u128) -> Tank {
        tank_with_owner(self.tanks_seq(), id)
    }

    /// How many tanks are live.
    pub open spec fn count(self) -> nat {
        self.tanks_seq().len()
    }

    pub fn new(cfg: Config) -> (w: World)
        requires
            cfg.wf(),
        ensures
            w.wf(),
            w.config() == cfg,
            w.count() == 0,
            forall|id: u128| !w.has_tank(id),
    {
        World { cfg, tanks: Vec::new() }
    }

    /// The validated configuration, for the loop around the world.
    pub fn configuration(&self) -> (r: Config)
        ensures
            r == self.config(),
    {
        self.cfg
    }

    /// Read access to the live tanks, in registration order.
    pub fn tanks(&self) -> (r: &Vec<Tank>)
        ensures
            r@ == self.tanks_seq(),
    {
        &self.tanks
    }

    /// The tank belonging to a player, if the player is live.
    #[verifier::loop_isolation(false)]
    pub fn tank_for_player(&self, player_id: u128) -> (r: Option<Tank>)
        requires
            self.wf(),
        ensures
            match r {
                Some(t) => self.has_tank(player_id) && t == self.tank_of(player_id),
                None => !self.has_tank(player_id),
            },
    {
        let n = self.tanks.len();
        for i in 0..n
            invariant
                forall|j: int| 0 <= j < i ==> self.tanks@[j].player_id != player_id,
        {
            if self.tanks[i].player_id == player_id {
                proof {
                    lemma_tank_at(self.tanks@, i as int);
                }
                return Some(self.tanks[i]);
            }
        }
        None
    }

    /// Places a fresh tank for this player at `pos`, at rest. A tank
    /// the player already had is replaced, so a duplicate registration
    /// never duplicates the player.
    #[verifier::loop_isolation(false)]
    pub fn register_player_at(&mut self, player_id: u128, pos: Vec2)
        requires
            old(self).wf(),
        ensures
            final(self).wf(),
            final(self).config() == old(self).config(),
            final(self).has_tank(player_id),
            final(self).tank_of(player_id) == (Tank {
                player_id,
                position: pos,
                velocity: Vec2 { x: 0i64, y: 0i64 },
                acceleration: None,
            }),
            forall|id: u128|
                id != player_id ==> (final(self).has_tank(id) <==> old(self).has_tank(id)),
            forall|id: u128|
                id != player_id && old(self).has_tank(id) ==> final(self).tank_of(id) == old(
                    self,
                ).tank_of(id),
            final(self).count() == old(self).count() + (if old(self).has_tank(player_id) {
                0int
            } else {
                1int
            }),
    {
        let fresh = Tank::new(player_id, pos);
        let ghost orig = self.tanks@;
        let n = self.tanks.len();
        for i in 0..n
            invariant
                self.cfg == old(self).cfg,
                self.tanks@ == orig,
                forall|j: int| 0 <= j < i ==> self.tanks@[j].player_id != player_id,
        {
            if self.tanks[i].player_id == player_id {
                self.tanks.set(i, fresh);
                proof {
                    lemma_tank_at(orig, i as int);
                    let t = self.tanks@;
                    assert(owners_distinct(t));
                    lemma_tank_at(t, i as int);
                    assert forall|id: u128|
                        id != player_id implies (has_owner(t, id) <==> has_owner(orig, id)) by {
                        if has_owner(t, id) {
                            let j = choose|j: int| 0 <= j < t.len() && t[j].player_id == id;
                            assert(j != i);
                            assert(orig[j].player_id == id);
                        }
                        if has_owner(orig, id) {
                            let j = choose|j: int| 0 <= j < orig.len() && orig[j].player_id == id;
                            assert(j != i);
                            assert(t[j].player_id == id);
                        }
                    }
                    assert forall|id: u128|
                        id != player_id && has_owner(orig, id) implies tank_with_owner(t, id)
                        == tank_with_owner(orig, id) by {
                        let j = choose|j: int| 0 <= j < orig.len() && orig[j].player_id == id;
                        lemma_tank_at(orig, j);
                        assert(j != i);
                        assert(t[j].player_id == id);
                        lemma_tank_at(t, j);
                    }
                }
                return ;
            }
        }
        proof {
            assert(!has_owner(orig, player_id));
        }
        self.tanks.push(fresh);
        proof {
            let t = self.tanks@;
            assert forall|i: int, j: int|
                0 <= i < j < t.len() implies t[i].player_id != t[j].player_id by {
                if j == t.len() - 1 {
                    assert(t[i] == orig[i]);
                }
            }
            lemma_tank_at(t, t.len() - 1);
            assert forall|id: u128|
                id != player_id implies (has_owner(t, id) <==> has_owner(orig, id)) by {
                if has_owner(t, id) {
                    let j = choose|j: int| 0 <= j < t.len() && t[j].player_id == id;
                    assert(j < t.len() - 1);
                    assert(orig[j].player_id == id);
                }
                if has_owner(orig, id) {
                    let j = choose|j: int| 0 <= j < orig.len() && orig[j].player_id == id;
                    assert(t[j].player_id == id);
                }
            }
            assert forall|id: u128|
                id != player_id && has_owner(orig, id) implies tank_with_owner(t, id)
                == tank_with_owner(orig, id) by {
                let j = choose|j: int| 0 <= j < orig.len() && orig[j].player_id == id;
                lemma_tank_at(orig, j);
                assert(t[j].player_id == id);
                lemma_tank_at(t, j);
            }
        }
    }

    /// Registers a player: spawns a tank at rest at a random position
    /// inside the configured spawn bounds.
    pub fn register_player(&mut self, player_id: u128)
        requires
            old(self).wf(),
        ensures
            final(self).wf(),
            final(self).config() == old(self).config(),
            final(self).has_tank(player_id),
            final(self).tank_of(player_id).player_id == player_id,
            final(self).tank_of(player_id).velocity.is_zero(),
            final(self).tank_of(player_id).acceleration is None,
            old(self).config().spawn_bounds.contains(final(self).tank_of(player_id).position),
            forall|id: u128|
                id != player_id ==> (final(self).has_tank(id) <==> old(self).has_tank(id)),
            forall|id: u128|
                id != player_id && old(self).has_tank(id) ==> final(self).tank_of(id) == old(
                    self,
                ).tank_of(id),
            final(self).count() == old(self).count() + (if old(self).has_tank(player_id) {
                0int
            } else {
                1int
            }),
    {
        let b = self.cfg.spawn_bounds;
        let x = random_coord(b.min_x, b.max_x);
        let y = random_coord(b.min_y, b.max_y);
        self.register_player_at(player_id, Vec2 { x, y });
    }

    /// Removes the player's tank, if any. Unknown ids are a no-op.
    #[verifier::loop_isolation(false)]
    pub fn unregister_player(&mut self, player_id: u128)
        requires
            old(self).wf(),
        ensures
            final(self).wf(),
            final(self).config() == old(self).config(),
            !final(self).has_tank(player_id),
            forall|id: u128|
                id != player_id ==> (final(self).has_tank(id) <==> old(self).has_tank(id)),
            forall|id: u128|
                id != player_id && old(self).has_tank(id) ==> final(self).tank_of(id) == old(
                    self,
                ).tank_of(id),
            final(self).count() == old(self).count() - (if old(self).has_tank(player_id) {
                1int
            } else {
                0int
            }),
    {
        let ghost orig = self.tanks@;
        let n = self.tanks.len();
        for i in 0..n
            invariant
                self.cfg == old(self).cfg,
                self.tanks@ == orig,
                forall|j: int| 0 <= j < i ==> self.tanks@[j].player_id != player_id,
        {
            if self.tanks[i].player_id == player_id {
                self.tanks.remove(i);
                proof {
                    lemma_tank_at(orig, i as int);
                    let t = self.tanks@;
                    assert(t == orig.remove(i as int));
                    assert forall|p: int, q: int|
                        0 <= p < q < t.len() implies t[p].player_id != t[q].player_id by {
                        let p0 = if p < i { p } else { p + 1 };
                        let q0 = if q < i { q } else { q + 1 };
                        assert(t[p] == orig[p0] && t[q] == orig[q0]);
                    }
                    assert forall|id: u128| has_owner(t, id) implies id != player_id && has_owner(
                        orig,
                        id,
                    ) by {
                        let j = choose|j: int| 0 <= j < t.len() && t[j].player_id == id;
                        let j0 = if j < i { j } else { j + 1 };
                        assert(t[j] == orig[j0]);
                        assert(j0 != i);
                    }
                    assert forall|id: u128|
                        id != player_id && has_owner(orig, id) implies has_owner(t, id)
                        && tank_with_owner(t, id) == tank_with_owner(orig, id) by {
                        let j = choose|j: int| 0 <= j < orig.len() && orig[j].player_id == id;
                        lemma_tank_at(orig, j);
                        assert(j != i);
                        let j1 = if j < i { j } else { j - 1 };
                        assert(t[j1] == orig[j]);
                        lemma_tank_at(t, j1);
                    }
                }
                return ;
            }
        }
        proof {
            assert(!has_owner(orig, player_id));
        }
    }

    /// Applies one player's action to that player's tank. An unknown
    /// player is reported and nothing changes; an unrecognized control
    /// signal is reported with the recognized prefix applied. Either
    /// way no other tank moves and the world keeps every player it had.
    pub fn apply_player_action(&mut self, player_id: u128, action: &PlayerAction) -> (r: Result<
        (),
        ActionError,
    >)
        requires
            old(self).wf(),
        ensures
            final(self).wf(),
            final(self).config() == old(self).config(),
            forall|id: u128| final(self).has_tank(id) <==> old(self).has_tank(id),
            final(self).count() == old(self).count(),
            !old(self).has_tank(player_id) ==> *final(self) == *old(self) && r == Err::<
                (),
                ActionError,
            >(ActionError::UnknownPlayer),
            old(self).has_tank(player_id) ==> final(self).tank_of(player_id)
                == apply_controls_spec(
                old(self).tank_of(player_id),
                action@,
                old(self).config().accel_per_tick as int,
            ),
            forall|id: u128|
                id != player_id && old(self).has_tank(id) ==> final(self).tank_of(id) == old(
                    self,
                ).tank_of(id),
            r.is_ok() <==> old(self).has_tank(player_id) && controls_ok(action@),
            r == Err::<(), ActionError>(ActionError::UnknownControl) <==> old(self).has_tank(
                player_id,
            ) && !controls_ok(action@),
    {
        let idx = match self.find_index(player_id) {
            Some(i) => i,
            None => {
                return Err(ActionError::UnknownPlayer);
            },
        };
        let ghost orig = self.tanks@;
        let mut t = self.tanks[idx];
        let out = t.apply_controls(action.control.as_slice(), self.cfg.accel_per_tick);
        self.tanks.set(idx, t);
        proof {
            lemma_tank_at(orig, idx as int);
            crate::tank::lemma_apply_controls_same_motion(
                orig[idx as int],
                action@,
                self.cfg.accel_per_tick as int,
            );
            let s = self.tanks@;
            assert(t.player_id == player_id);
            assert forall|p: int, q: int|
                0 <= p < q < s.len() implies s[p].player_id != s[q].player_id by {
                assert(s[p].player_id == orig[p].player_id && s[q].player_id == orig[
                    q
                ].player_id);
            }
            lemma_tank_at(s, idx as int);
            assert forall|id: u128| has_owner(s, id) <==> has_owner(orig, id) by {
                if has_owner(s, id) {
                    let j = choose|j: int| 0 <= j < s.len() && s[j].player_id == id;
                    assert(orig[j].player_id == id);
                }
                if has_owner(orig, id) {
                    let j = choose|j: int| 0 <= j < orig.len() && orig[j].player_id == id;
                    assert(s[j].player_id == id);
                }
            }
            assert forall|id: u128|
                id != player_id && has_owner(orig, id) implies tank_with_owner(s, id)
                == tank_with_owner(orig, id) by {
                let j = choose|j: int| 0 <= j < orig.len() && orig[j].player_id == id;
                lemma_tank_at(orig, j);
                assert(j != idx as int);
                assert(s[j] == orig[j]);
                lemma_tank_at(s, j);
            }
        }
        out
    }

    /// The slot index of the player's tank, if any.
    #[verifier::loop_isolation(false)]
    fn find_index(&self, player_id: u128) -> (r: Option<usize>)
        requires
            self.wf(),
        ensures
            match r {
                Some(i) => i < self.tanks_seq().len() && self.tanks_seq()[i as int].player_id
                    == player_id,
                None => !self.has_tank(player_id),
            },
    {
        let n = self.tanks.len();
        for i in 0..n
            invariant
                forall|j: int| 0 <= j < i ==> self.tanks@[j].player_id != player_id,
        {
            if self.tanks[i].player_id == player_id {
                return Some(i);
            }
        }
        None
    }

    /// Applies a drained batch of actions, one per player. An action
    /// addressing a player with no live tank is dropped — a recoverable
    /// per-action failure, never a crash — and the world keeps exactly
    /// the players it had.
    #[verifier::loop_isolation(false)]
    pub fn apply_player_actions(&mut self, actions: &ActionIntake)
        requires
            old(self).wf(),
            actions.wf(),
        ensures
            final(self).wf(),
            final(self).config() == old(self).config(),
            forall|id: u128| final(self).has_tank(id) <==> old(self).has_tank(id),
            final(self).count() == old(self).count(),
            forall|id: u128|
                old(self).has_tank(id) ==> final(self).tank_of(id) == (
                if actions@.dom().contains(id) {
                    apply_controls_spec(
                        old(self).tank_of(id),
                        actions@[id],
                        old(self).config().accel_per_tick as int,
                    )
                } else {
                    old(self).tank_of(id)
                }),
    {
        let ghost entries = actions.entries_seq();
        let n = actions.len();
        for i in 0..n
            invariant
                self.wf(),
                self.config() == old(self).config(),
                forall|id: u128| self.has_tank(id) <==> old(self).has_tank(id),
                self.count() == old(self).count(),
                forall|id: u128|
                    old(self).has_tank(id) ==> self.tank_of(id) == (
                    if key_before(entries, i as int, id) {
                        apply_controls_spec(
                            old(self).tank_of(id),
                            actions@[id],
                            old(self).config().accel_per_tick as int,
                        )
                    } else {
                        old(self).tank_of(id)
                    }),
        {
            let (id, act) = actions.entry(i);
            proof {
                lemma_val_at(entries, i as int);
                assert(actions@.dom().contains(id));
                assert(actions@[id] == act@);
                assert(forall|j: int| 0 <= j < i ==> entries[j].0 != id);
                assert(!key_before(entries, i as int, id));
            }
            let _ = self.apply_player_action(id, act);
            proof {
                assert(key_before(entries, i as int + 1, id));
                assert forall|id2: u128|
                    id2 != id implies (key_before(entries, i as int + 1, id2) <==> key_before(
                    entries,
                    i as int,
                    id2,
                )) by {
                    if key_before(entries, i as int + 1, id2) {
                        let j = choose|j: int| 0 <= j < i + 1 && entries[j].0 == id2;
                        assert(j != i);
                        assert(key_before(entries, i as int, id2));
                    }
                }
            }
        }
        proof {
            assert forall|id: u128| key_before(entries, n as int, id) <==> actions@.dom().contains(
                id,
            ) by {
                assert(n == entries.len());
                if actions@.dom().contains(id) {
                    assert(has_key(entries, id));
                    let j = choose|j: int| 0 <= j < entries.len() && entries[j].0 == id;
                    assert(key_before(entries, n as int, id));
                }
                if key_before(entries, n as int, id) {
                    let j = choose|j: int| 0 <= j < n && entries[j].0 == id;
                    assert(has_key(entries, id));
                }
            }
        }
    }

    /// Holds between the worlds before and after one `register_player`
    /// call for `id`: exactly what that call's contract promises.
    pub open spec fn registered(pre: World, post: World, id: u128) -> bool {
        &&& post.wf()
        &&& post.config() == pre.config()
        &&& post.has_tank(id)
        &&& post.tank_of(id).player_id == id
        &&& forall|id2: u128| id2 != id ==> (post.has_tank(id2) <==> pre.has_tank(id2))
        &&& forall|id2: u128|
            id2 != id && pre.has_tank(id2) ==> post.tank_of(id2) == pre.tank_of(id2)
        &&& post.count() == pre.count() + (if pre.has_tank(id) {
            0int
        } else {
            1int
        })
    }

    /// Registering distinct, previously unknown player ids — one
    /// `register_player` call each, through the chain of worlds
    /// `worlds[0]` to `worlds[n]` — grows the world by exactly one tank
    /// per id, every one of them retrievable afterwards by its id, and
    /// touches nobody else's tank.
    pub proof fn lemma_distinct_registrations(worlds: Seq<World>, ids: Seq<u128>)
        requires
            worlds.len() == ids.len() + 1,
            forall|i: int, j: int| 0 <= i < j < ids.len() ==> ids[i] != ids[j],
            forall|i: int| 0 <= i < ids.len() ==> !worlds[0].has_tank(ids[i]),
            forall|i: int|
                0 <= i < ids.len() ==> Self::registered(worlds[i], worlds[i + 1], ids[i]),
        ensures
            worlds.last().count() == worlds[0].count() + ids.len(),
            forall|i: int|
                0 <= i < ids.len() ==> worlds.last().has_tank(ids[i]) && worlds.last().tank_of(
                    ids[i],
                ).player_id == ids[i],
            forall|id2: u128|
                !ids.contains(id2) ==> ((worlds.last().has_tank(id2) <==> worlds[0].has_tank(
                    id2,
                )) && (worlds[0].has_tank(id2) ==> worlds.last().tank_of(id2) == worlds[0].tank_of(
                    id2,
                ))),
        decreases ids.len(),
    {
        if ids.len() == 0 {
            assert(worlds.last() == worlds[0]);
        } else {
            let n = ids.len() as int;
            let head = ids[0];
            let tail_ids = ids.drop_first();
            let tail_worlds = worlds.drop_first();
            assert(Self::registered(worlds[0], worlds[1], head));
            assert(tail_worlds[0] == worlds[1]);
            assert(tail_worlds.last() == worlds.last());
            assert forall|i: int| 0 <= i < n - 1 implies !tail_worlds[0].has_tank(
                tail_ids[i],
            ) by {
                assert(tail_ids[i] == ids[i + 1]);
                assert(ids[i + 1] != head);
                assert(!worlds[0].has_tank(ids[i + 1]));
            }
            assert forall|i: int| 0 <= i < n - 1 implies Self::registered(
                tail_worlds[i],
                tail_worlds[i + 1],
                tail_ids[i],
            ) by {
                assert(tail_worlds[i] == worlds[i + 1]);
                assert(tail_worlds[i + 1] == worlds[i + 2]);
                assert(tail_ids[i] == ids[i + 1]);
            }
            Self::lemma_distinct_registrations(tail_worlds, tail_ids);
            assert(!tail_ids.contains(head)) by {
                if tail_ids.contains(head) {
                    let i = choose|i: int| 0 <= i < tail_ids.len() && tail_ids[i] == head;
                    assert(ids[i + 1] == head);
                }
            }
            assert forall|i: int| 0 <= i < n implies worlds.last().has_tank(ids[i])
                && worlds.last().tank_of(ids[i]).player_id == ids[i] by {
                if i == 0 {
                    assert(worlds[1].has_tank(head));
                    assert(worlds[1].tank_of(head).player_id == head);
                } else {
                    assert(tail_ids[i - 1] == ids[i]);
                }
            }
            assert forall|id2: u128|
                !ids.contains(id2) implies ((worlds.last().has_tank(id2) <==> worlds[0].has_tank(
                id2,
            )) && (worlds[0].has_tank(id2) ==> worlds.last().tank_of(id2) == worlds[0].tank_of(
                id2,
            ))) by {
                assert(id2 != head) by {
                    assert(ids[0] == head);
                }
                assert(!tail_ids.contains(id2)) by {
                    if tail_ids.contains(id2) {
                        let i = choose|i: int| 0 <= i < tail_ids.len() && tail_ids[i] == id2;
                        assert(ids[i + 1] == id2);
                    }
                }
            }
        }
    }

    /// Advances every tank's kinematics by exactly one tick.
    #[verifier::loop_isolation(false)]
    pub fn tick(&mut self)
        requires
            old(self).wf(),
        ensures
            final(self).wf(),
            final(self).config() == old(self).config(),
            final(self).count() == old(self).count(),
            forall|i: int|
                0 <= i < old(self).count() ==> final(self).tanks_seq()[i] == tick_tank_spec(
                    old(self).tanks_seq()[i],
                    old(self).config(),
                ),
            forall|id: u128| final(self).has_tank(id) <==> old(self).has_tank(id),
            forall|id: u128|
                old(self).has_tank(id) ==> final(self).tank_of(id) == tick_tank_spec(
                    old(self).tank_of(id),
                    old(self).config(),
                ),
    {
        let cfg = self.cfg;
        let n = self.tanks.len();
        for i in 0..n
            invariant
                self.cfg == old(self).cfg,
                self.tanks@.len() == n,
                n == old(self).tanks@.len(),
                forall|j: int|
                    0 <= j < i ==> self.tanks@[j] == tick_tank_spec(
                        old(self).tanks@[j],
                        old(self).cfg,
                    ),
                forall|j: int| i <= j < n ==> self.tanks@[j] == old(self).tanks@[j],
        {
            let mut t = self.tanks[i];
            t.tick(&cfg);
            self.tanks.set(i, t);
        }
        proof {
            let orig = old(self).tanks@;
            let s = self.tanks@;
            assert forall|p: int, q: int|
                0 <= p < q < s.len() implies s[p].player_id != s[q].player_id by {
                assert(s[p].player_id == orig[p].player_id && s[q].player_id == orig[
                    q
                ].player_id);
            }
            assert forall|id: u128| has_owner(s, id) <==> has_owner(orig, id) by {
                if has_owner(s, id) {
                    let j = choose|j: int| 0 <= j < s.len() && s[j].player_id == id;
                    assert(orig[j].player_id == id);
                }
                if has_owner(orig, id) {
                    let j = choose|j: int| 0 <= j < orig.len() && orig[j].player_id == id;
                    assert(s[j].player_id == id);
                }
            }
            assert forall|id: u128| has_owner(orig, id) implies tank_with_owner(s, id)
                == tick_tank_spec(tank_with_owner(orig, id), old(self).cfg) by {
                let j = choose|j: int| 0 <= j < orig.len() && orig[j].player_id == id;
                lemma_tank_at(orig, j);
                assert(s[j].player_id == id);
                lemma_tank_at(s, j);
            }
        }
    }
}

} // verus!
