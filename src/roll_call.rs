//! One roll call ("gather N participants"): its model `Session`, with the
//! derived remaining count and completion, and the stored value `RollCall`,
//! which keeps the joined participants in a hash set.

use std::collections::HashSet;
use vstd::prelude::*;
use vstd::std_specs::iter::IteratorSpec;

verus! {

broadcast use vstd::std_specs::hash::group_hash_axioms;

/// What a roll call is: initiator, target count and joined participants.
pub ghost struct Session {
    pub initiator: u64,
    pub requested: nat,
    pub joined: Set<u64>,
}

impl Session {
    /// A roll call that nobody has joined yet.
    pub open spec fn fresh(initiator: u64, requested: nat) -> Session {
        Session { initiator, requested, joined: Set::empty() }
    }

    /// Participants still missing: `max(0, requested - |joined|)`.
    pub open spec fn remaining(self) -> nat {
        if self.joined.len() >= self.requested {
            0
        } else {
            (self.requested - self.joined.len()) as nat
        }
    }

    /// As many participants have joined as were requested.
    pub open spec fn is_complete(self) -> bool {
        self.joined.len() >= self.requested
    }

    /// The same roll call with `participant` among the joined.
    pub open spec fn with_participant(self, participant: u64) -> Session {
        Session { joined: self.joined.insert(participant), ..self }
    }

    /// A positive target and never more joined than requested.
    pub open spec fn wf(self) -> bool {
        &&& self.requested > 0
        &&& self.joined.finite()
        &&& self.joined.len() <= self.requested
    }
}

/// One active gather-request of a group: who started it, how many
/// participants it asks for, and who has joined so far.
pub struct RollCall {
    initiator: u64,
    requested: u16,
    joined: HashSet<u64>,
}

impl View for RollCall {
    type V = Session;

    closed spec fn view(&self) -> Session {
        Session { initiator: self.initiator, requested: self.requested as nat, joined: self.joined@ }
    }
}

impl RollCall {
    /// A fresh roll call with nobody joined yet.
    pub(crate) fn new(initiator: u64, requested: u16) -> (r: RollCall)
        requires
            requested > 0,
        ensures
            r@ == Session::fresh(initiator, requested as nat),
            r@.wf(),
    {
        RollCall { initiator, requested, joined: HashSet::new() }
    }

    /// Who started the roll call.
    pub fn initiator(&self) -> (r: u64)
        ensures
            r == self@.initiator,
    {
        self.initiator
    }

    /// How many participants the roll call asks for.
    pub fn requested(&self) -> (r: u16)
        ensures
            r == self@.requested,
    {
        self.requested
    }

    /// Number of participants still missing.
    pub fn remaining(&self) -> (r: u16)
        requires
            self@.wf(),
        ensures
            r == self@.remaining(),
    {
        self.requested - self.joined.len() as u16
    }

    /// Whether as many participants have joined as were requested.
    pub fn is_complete(&self) -> (r: bool)
        ensures
            r == self@.is_complete(),
    {
        self.joined.len() >= self.requested as usize
    }

    /// Whether `participant` has joined.
    pub fn has_user_joined(&self, participant: u64) -> (r: bool)
        ensures
            r == self@.joined.contains(participant),
    {
        self.joined.contains(&participant)
    }

    /// The joined participants, each once, in no particular order.
    pub fn joined_list(&self) -> (r: Vec<u64>)
        ensures
            r@.to_set() == self@.joined,
            r@.no_duplicates(),
            r@.len() == self@.joined.len(),
    {
        let mut r: Vec<u64> = Vec::new();
        let iter = self.joined.iter();
        let ghost all = iter.remaining();
        for p in it: iter
            invariant
                it.seq() == all,
                r@ == it.seq().take(it.index() as int).unref(),
        {
            r.push(*p);
        }
        assert(r@ =~= all.unref());
        r
    }

    /// Adds `participant` and reports whether they were new; a participant
    /// that had joined leaves the roll call unchanged. A new one needs room.
    pub(crate) fn join_user(&mut self, participant: u64) -> (r: bool)
        requires
            old(self)@.wf(),
            old(self)@.joined.contains(participant) || !old(self)@.is_complete(),
        ensures
            r == !old(self)@.joined.contains(participant),
            final(self)@ == old(self)@.with_participant(participant),
            final(self)@.wf(),
    {
        self.joined.insert(participant)
    }
}

} // verus!
