//! The per-tick mailbox of pending player control input.
//!
//! Readers submit the most recent action per player between ticks;
//! the simulation loop atomically drains everything accumulated since
//! the previous drain. Repeated submissions from one player collapse to
//! the latest one. The callers serialize access (one short-lived lock
//! around each `submit` or `drain_all`), so an action submitted
//! concurrently with a drain lands either in that drain or whole in the
//! next one, never split and never lost.

use vstd::prelude::*;

use crate::action::KeyPress;
use crate::action::PlayerAction;

verus! {

/// Every key occurs at most once.
pub open spec fn keys_distinct(s: Seq<(u128, PlayerAction)>) -> bool {
    forall|i: int, j: int| 0 <= i < j < s.len() ==> s[i].0 != s[j].0
}

/// Some entry carries this key.
pub open spec fn has_key(s: Seq<(u128, PlayerAction)>, id: u128) -> bool {
    exists|i: int| 0 <= i < s.len() && s[i].0 == id
}

/// The control sequence stored under this key.
pub open spec fn val_of(s: Seq<(u128, PlayerAction)>, id: u128) -> Seq<KeyPress> {
    let i = choose|i: int| 0 <= i < s.len() && s[i].0 == id;
    s[i].1@
}

/// The entries as a mapping from player id to pending control sequence.
pub open spec fn map_of(s: Seq<(u128, PlayerAction)>) -> Map<u128, Seq<KeyPress>> {
    Map::new(|id: u128| has_key(s, id), |id: u128| val_of(s, id))
}

/// With distinct keys, every entry is the one `val_of` finds.
pub proof fn lemma_val_at(s: Seq<(u128, PlayerAction)>, i: int)
    requires
        keys_distinct(s),
        0 <= i < s.len(),
    ensures
        has_key(s, s[i].0),
        val_of(s, s[i].0) == s[i].1@,
{
    let id = s[i].0;
    assert(0 <= i < s.len() && s[i].0 == id);
    let j = choose|j: int| 0 <= j < s.len() && s[j].0 == id;
    assert(j == i);
}

/// Replacing the entry at a key's index inserts into the map view.
proof fn lemma_map_of_update(s: Seq<(u128, PlayerAction)>, i: int, id: u128, act: PlayerAction)
    requires
        keys_distinct(s),
        0 <= i < s.len(),
        s[i].0 == id,
    ensures
        keys_distinct(s.update(i, (id, act))),
        map_of(s.update(i, (id, act))) == map_of(s).insert(id, act@),
{
    let t = s.update(i, (id, act));
    assert forall|id2: u128| has_key(t, id2) <==> has_key(s, id2) || id2 == id by {
        if has_key(t, id2) {
            let j = choose|j: int| 0 <= j < t.len() && t[j].0 == id2;
            if j != i {
                assert(s[j].0 == id2);
            }
        }
        if has_key(s, id2) {
            let j = choose|j: int| 0 <= j < s.len() && s[j].0 == id2;
            if j != i {
                assert(t[j].0 == id2);
            } else {
                assert(t[i].0 == id2);
            }
        }
        if id2 == id {
            assert(t[i].0 == id2);
        }
    }
    assert forall|id2: u128| has_key(t, id2) implies val_of(t, id2) == map_of(s).insert(
        id,
        act@,
    )[id2] by {
        let j = choose|j: int| 0 <= j < t.len() && t[j].0 == id2;
        lemma_val_at(t, j);
        if id2 == id {
            assert(j == i);
        } else {
            assert(j != i);
            assert(s[j].0 == id2);
            lemma_val_at(s, j);
        }
    }
    assert(map_of(t) =~= map_of(s).insert(id, act@));
}

/// Appending an entry under a fresh key inserts into the map view.
proof fn lemma_map_of_push(s: Seq<(u128, PlayerAction)>, id: u128, act: PlayerAction)
    requires
        keys_distinct(s),
        !has_key(s, id),
    ensures
        keys_distinct(s.push((id, act))),
        map_of(s.push((id, act))) == map_of(s).insert(id, act@),
{
    let t = s.push((id, act));
    assert forall|i: int, j: int| 0 <= i < j < t.len() implies t[i].0 != t[j].0 by {
        if j == t.len() - 1 {
            assert(t[i] == s[i]);
            assert(!(s[i].0 == id));
        } else {
            assert(t[i] == s[i] && t[j] == s[j]);
        }
    }
    assert forall|id2: u128| has_key(t, id2) <==> has_key(s, id2) || id2 == id by {
        if has_key(t, id2) {
            let j = choose|j: int| 0 <= j < t.len() && t[j].0 == id2;
            if j < t.len() - 1 {
                assert(s[j].0 == id2);
            }
        }
        if has_key(s, id2) {
            let j = choose|j: int| 0 <= j < s.len() && s[j].0 == id2;
            assert(t[j].0 == id2);
        }
        if id2 == id {
            assert(t[t.len() - 1].0 == id2);
        }
    }
    assert forall|id2: u128| has_key(t, id2) implies val_of(t, id2) == map_of(s).insert(
        id,
        act@,
    )[id2] by {
        let j = choose|j: int| 0 <= j < t.len() && t[j].0 == id2;
        lemma_val_at(t, j);
        if id2 == id {
            assert(j == t.len() - 1);
        } else {
            assert(j < t.len() - 1);
            assert(s[j].0 == id2);
            lemma_val_at(s, j);
        }
    }
    assert(map_of(t) =~= map_of(s).insert(id, act@));
}

/// The concurrency-safe accumulator of pending actions, one slot per
/// player, latest submission winning.
pub struct ActionIntake {
    entries: Vec<(u128, PlayerAction)>,
}

impl View for ActionIntake {
    type V = Map<u128, Seq<KeyPress>>;

    open spec fn view(&self) -> Map<u128, Seq<KeyPress>> {
        map_of(self.entries_seq())
    }
}

impl ActionIntake {
    /// The stored entries in submission order.
    pub closed spec fn entries_seq(self) -> Seq<(u128, PlayerAction)> {
        self.entries@
    }

    pub open spec fn wf(self) -> bool {
        keys_distinct(self.entries_seq())
    }

    /// How many players currently have a pending action.
    pub open spec fn spec_len(self) -> nat {
        self.entries_seq().len()
    }

    /// Read access to one stored entry, for the loop that applies the
    /// drained actions.
    pub fn entry(&self, i: usize) -> (r: (u128, &PlayerAction))
        requires
            i < self.spec_len(),
        ensures
            r.0 == self.entries_seq()[i as int].0,
            *r.1 == self.entries_seq()[i as int].1,
    {
        let e = &self.entries[i];
        (e.0, &e.1)
    }

    pub fn new() -> (r: ActionIntake)
        ensures
            r.wf(),
            r@ == Map::<u128, Seq<KeyPress>>::empty(),
            r.spec_len() == 0,
    {
        let r = ActionIntake { entries: Vec::new() };
        proof {
            assert(r@ =~= Map::<u128, Seq<KeyPress>>::empty());
        }
        r
    }

    pub fn len(&self) -> (r: usize)
        ensures
            r == self.spec_len(),
    {
        self.entries.len()
    }

    /// Non-blocking insert-or-overwrite of the pending action for a
    /// player: the mailbox afterwards maps the player to exactly this
    /// action, and no other player's slot moves.
    #[verifier::loop_isolation(false)]
    pub fn submit(&mut self, player_id: u128, action: PlayerAction)
        requires
            old(self).wf(),
        ensures
            final(self).wf(),
            final(self)@ == old(self)@.insert(player_id, action@),
    {
        let ghost orig = self.entries@;
        let n = self.entries.len();
        for i in 0..n
            invariant
                self.entries@ == orig,
                forall|j: int| 0 <= j < i ==> self.entries@[j].0 != player_id,
        {
            if self.entries[i].0 == player_id {
                self.entries.set(i, (player_id, action));
                proof {
                    lemma_map_of_update(orig, i as int, player_id, action);
                }
                return ;
            }
        }
        proof {
            assert(!has_key(orig, player_id));
        }
        self.entries.push((player_id, action));
        proof {
            lemma_map_of_push(orig, player_id, action);
        }
    }

    /// Atomically removes and returns everything accumulated since the
    /// previous drain, leaving the mailbox empty. An immediate second
    /// drain therefore returns nothing.
    pub fn drain_all(&mut self) -> (r: ActionIntake)
        ensures
            r == *old(self),
            final(self).wf(),
            final(self)@ == Map::<u128, Seq<KeyPress>>::empty(),
            final(self).spec_len() == 0,
    {
        let mut out = ActionIntake { entries: Vec::new() };
        core::mem::swap(&mut out.entries, &mut self.entries);
        proof {
            assert(self@ =~= Map::<u128, Seq<KeyPress>>::empty());
        }
        out
    }
}

/// The pending map after a sequence of submissions lands on `m0`.
pub open spec fn submit_fold(
    m0: Map<u128, Seq<KeyPress>>,
    subs: Seq<(u128, Seq<KeyPress>)>,
) -> Map<u128, Seq<KeyPress>>
    decreases subs.len(),
{
    if subs.len() == 0 {
        m0
    } else {
        submit_fold(m0.insert(subs[0].0, subs[0].1), subs.drop_first())
    }
}

/// The action of a player's last submission in the sequence, if any.
pub open spec fn latest(subs: Seq<(u128, Seq<KeyPress>)>, id: u128) -> Option<Seq<KeyPress>>
    decreases subs.len(),
{
    if subs.len() == 0 {
        Option::None
    } else {
        let tail = latest(subs.drop_first(), id);
        if tail is Some {
            tail
        } else if subs[0].0 == id {
            Option::Some(subs[0].1)
        } else {
            Option::None
        }
    }
}

/// Latest submission wins: after any sequence of submissions, the
/// mailbox maps each player id that submitted to exactly the action of
/// its last submission, and holds no other id beyond those of the
/// starting map. With an empty starting map — a fresh mailbox, or one
/// just drained — what `drain_all` hands back is therefore exactly the
/// latest action per submitting player.
pub proof fn lemma_latest_submission_wins(
    m0: Map<u128, Seq<KeyPress>>,
    subs: Seq<(u128, Seq<KeyPress>)>,
)
    ensures
        forall|id: u128|
            #![trigger latest(subs, id)]
            match latest(subs, id) {
                Option::Some(v) => submit_fold(m0, subs).dom().contains(id) && submit_fold(
                    m0,
                    subs,
                )[id] == v,
                Option::None => (submit_fold(m0, subs).dom().contains(id) <==> m0.dom().contains(
                    id,
                )) && (m0.dom().contains(id) ==> submit_fold(m0, subs)[id] == m0[id]),
            },
    decreases subs.len(),
{
    if subs.len() > 0 {
        let tail = subs.drop_first();
        let m1 = m0.insert(subs[0].0, subs[0].1);
        lemma_latest_submission_wins(m1, tail);
        assert forall|id: u128|
            #![trigger latest(subs, id)]
            match latest(subs, id) {
                Option::Some(v) => submit_fold(m0, subs).dom().contains(id) && submit_fold(
                    m0,
                    subs,
                )[id] == v,
                Option::None => (submit_fold(m0, subs).dom().contains(id) <==> m0.dom().contains(
                    id,
                )) && (m0.dom().contains(id) ==> submit_fold(m0, subs)[id] == m0[id]),
            } by {
            assert(submit_fold(m0, subs) == submit_fold(m1, tail));
            match latest(tail, id) {
                Option::Some(v) => {
                    assert(latest(subs, id) == Option::Some(v));
                },
                Option::None => {
                    if subs[0].0 == id {
                        assert(latest(subs, id) == Option::Some(subs[0].1));
                        assert(m1.dom().contains(id) && m1[id] == subs[0].1);
                    } else {
                        assert(latest(subs, id) is None);
                        assert(m1.dom().contains(id) <==> m0.dom().contains(id));
                        assert(m0.dom().contains(id) ==> m1[id] == m0[id]);
                    }
                },
            }
        }
    }
}

} // verus!
