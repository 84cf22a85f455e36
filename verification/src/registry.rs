//! The connection registry.
//!
//! Connecting and disconnecting players never mutate the world directly:
//! the registry queues the identities, and the simulation loop drains
//! both queues at the start of each tick. Registering or unregistering
//! the same id twice is safe — each queue keeps one copy.

use vstd::prelude::*;

verus! {

/// Every id occurs at most once.
pub open spec fn ids_unique(s: Seq<u128>) -> bool {
    forall|i: int, j: int| 0 <= i < j < s.len() ==> s[i] != s[j]
}

/// Tracks which player ids are waiting to join or leave the world.
pub struct ConnectionRegistry {
    joins: Vec<u128>,
    leaves: Vec<u128>,
}

impl ConnectionRegistry {
    /// The ids queued to join, oldest first.
    pub closed spec fn joins_seq(self) -> Seq<u128> {
        self.joins@
    }

    /// The ids queued to leave, oldest first.
    pub closed spec fn leaves_seq(self) -> Seq<u128> {
        self.leaves@
    }

    pub open spec fn wf(self) -> bool {
        ids_unique(self.joins_seq()) && ids_unique(self.leaves_seq())
    }

    pub fn new() -> (r: ConnectionRegistry)
        ensures
            r.wf(),
            r.joins_seq() == Seq::<u128>::empty(),
            r.leaves_seq() == Seq::<u128>::empty(),
    {
        ConnectionRegistry { joins: Vec::new(), leaves: Vec::new() }
    }

    /// Queues a registration to be applied by the next tick. Idempotent:
    /// an id already queued is kept once.
    #[verifier::loop_isolation(false)]
    pub fn register(&mut self, player_id: u128)
        requires
            old(self).wf(),
        ensures
            final(self).wf(),
            final(self).joins_seq() == if old(self).joins_seq().contains(player_id) {
                old(self).joins_seq()
            } else {
                old(self).joins_seq().push(player_id)
            },
            final(self).leaves_seq() == old(self).leaves_seq(),
            final(self).joins_seq().contains(player_id),
    {
        let n = self.joins.len();
        for i in 0..n
            invariant
                *self == *old(self),
                forall|j: int| 0 <= j < i ==> self.joins@[j] != player_id,
        {
            if self.joins[i] == player_id {
                return ;
            }
        }
        self.joins.push(player_id);
        proof {
            assert(self.joins@.last() == player_id);
        }
    }

    /// Queues an unregistration to be applied by the next tick.
    /// Idempotent like `register`.
    #[verifier::loop_isolation(false)]
    pub fn unregister(&mut self, player_id: u128)
        requires
            old(self).wf(),
        ensures
            final(self).wf(),
            final(self).leaves_seq() == if old(self).leaves_seq().contains(player_id) {
                old(self).leaves_seq()
            } else {
                old(self).leaves_seq().push(player_id)
            },
            final(self).joins_seq() == old(self).joins_seq(),
            final(self).leaves_seq().contains(player_id),
    {
        let n = self.leaves.len();
        for i in 0..n
            invariant
                *self == *old(self),
                forall|j: int| 0 <= j < i ==> self.leaves@[j] != player_id,
        {
            if self.leaves[i] == player_id {
                return ;
            }
        }
        self.leaves.push(player_id);
        proof {
            assert(self.leaves@.last() == player_id);
        }
    }

    /// Atomically removes and returns both queues — joins first,
    /// leaves second — leaving the registry empty.
    pub fn drain(&mut self) -> (r: (Vec<u128>, Vec<u128>))
        ensures
            r.0@ == old(self).joins_seq(),
            r.1@ == old(self).leaves_seq(),
            final(self).wf(),
            final(self).joins_seq() == Seq::<u128>::empty(),
            final(self).leaves_seq() == Seq::<u128>::empty(),
    {
        let mut joins: Vec<u128> = Vec::new();
        let mut leaves: Vec<u128> = Vec::new();
        core::mem::swap(&mut joins, &mut self.joins);
        core::mem::swap(&mut leaves, &mut self.leaves);
        (joins, leaves)
    }
}

} // verus!
