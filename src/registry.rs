//! The registry: at most one roll call per chat group.
//!
//! Starting, joining and cancelling each check and change the map in one
//! `&mut self` call, so a caller that keeps the registry behind one lock gets
//! every operation as a single indivisible step, completion included.

use crate::roll_call::RollCall;
use crate::roll_call::Session;
use std::collections::HashMap;
use vstd::prelude::*;

verus! {

broadcast use vstd::std_specs::hash::group_hash_axioms;

/// What `start` reports.
#[derive(Debug, Clone, Copy, PartialEq, Eq, Structural)]
pub enum StartOutcome {
    /// A roll call was created for the group.
    Started,
    /// The group already has a roll call; nothing changed.
    AlreadyActive,
    /// The requested count is not positive; nothing changed.
    InvalidRequestedCount,
}

/// What `ready` (joining a roll call) reports.
#[derive(Debug, Clone, Copy, PartialEq, Eq, Structural)]
pub enum JoinOutcome {
    /// The participant was added; this many are still missing. Zero means
    /// the roll call completed and was removed.
    Joined(u16),
    /// The participant had already joined; nothing changed.
    AlreadyJoined(u16),
    /// The group has no roll call; nothing changed.
    NoActiveSession,
}

/// What `cancel` reports.
#[derive(Debug, Clone, Copy, PartialEq, Eq, Structural)]
pub enum CancelOutcome {
    /// The group's roll call was removed.
    Cancelled,
    /// The group has no roll call; nothing changed.
    NoActiveSession,
}

/// A read-only copy of one roll call.
#[derive(Debug, PartialEq, Eq)]
pub struct RollCallStatus {
    pub initiator: u64,
    pub requested: u16,
    /// Each joined participant once, in no particular order.
    pub joined: Vec<u64>,
    pub remaining: u16,
}

/// What `status` reports.
#[derive(Debug, PartialEq, Eq)]
pub enum StatusOutcome {
    Active(RollCallStatus),
    NoActiveSession,
}

/// The roll calls of all groups, by group.
pub type Sessions = Map<u64, Session>;

/// No stored roll call is malformed or complete.
pub open spec fn sessions_wf(m: Sessions) -> bool {
    &&& m.dom().finite()
    &&& forall|g: u64| #[trigger] m.contains_key(g) ==> m[g].wf() && !m[g].is_complete()
}

/// Starting a roll call for `group`.
pub open spec fn spec_start(m: Sessions, group: u64, initiator: u64, requested: nat) -> (
    Sessions,
    StartOutcome,
) {
    if m.contains_key(group) {
        (m, StartOutcome::AlreadyActive)
    } else if requested == 0 {
        (m, StartOutcome::InvalidRequestedCount)
    } else {
        (m.insert(group, Session::fresh(initiator, requested)), StartOutcome::Started)
    }
}

/// `participant` joining the roll call of `group`; a join that completes the
/// roll call removes it in the same step.
pub open spec fn spec_join(m: Sessions, group: u64, participant: u64) -> (Sessions, JoinOutcome) {
    if !m.contains_key(group) {
        (m, JoinOutcome::NoActiveSession)
    } else if m[group].joined.contains(participant) {
        (m, JoinOutcome::AlreadyJoined(m[group].remaining() as u16))
    } else {
        let s = m[group].with_participant(participant);
        if s.is_complete() {
            (m.remove(group), JoinOutcome::Joined(0))
        } else {
            (m.insert(group, s), JoinOutcome::Joined(s.remaining() as u16))
        }
    }
}

/// Cancelling the roll call of `group`.
pub open spec fn spec_cancel(m: Sessions, group: u64) -> (Sessions, CancelOutcome) {
    if m.contains_key(group) {
        (m.remove(group), CancelOutcome::Cancelled)
    } else {
        (m, CancelOutcome::NoActiveSession)
    }
}

/// The registry of running roll calls, one per group at most.
pub struct RollCallManager {
    list: HashMap<u64, RollCall>,
}

impl View for RollCallManager {
    type V = Sessions;

    closed spec fn view(&self) -> Sessions {
        self.list@.map_values(|rc: RollCall| rc@)
    }
}

impl RollCallManager {
    /// Well-formed: every stored roll call is well-formed and incomplete.
    pub open spec fn wf(&self) -> bool {
        sessions_wf(self@)
    }

    /// An empty registry.
    pub fn new() -> (r: RollCallManager)
        ensures
            r.wf(),
            r@ == Map::<u64, Session>::empty(),
    {
        let r = RollCallManager { list: HashMap::new() };
        assert(r@ =~= Map::<u64, Session>::empty());
        r
    }

    /// Whether `group` has a roll call running.
    pub fn have_running_call_for(&self, group: u64) -> (r: bool)
        ensures
            r == self@.contains_key(group),
    {
        self.list.contains_key(&group)
    }

    /// The roll call of `group`, if one is running.
    pub fn get_roll_call_for(&self, group: u64) -> (r: Option<&RollCall>)
        ensures
            match r {
                Some(rc) => self@.contains_key(group) && rc@ == self@[group],
                None => !self@.contains_key(group),
            },
    {
        self.list.get(&group)
    }

    /// Starts a roll call for `group`, unless one is running there or
    /// `requested` is zero.
    pub fn start(&mut self, group: u64, initiator: u64, requested: u16) -> (r: StartOutcome)
        requires
            old(self).wf(),
        ensures
            final(self).wf(),
            (final(self)@, r) == spec_start(old(self)@, group, initiator, requested as nat),
    {
        if self.have_running_call_for(group) {
            return StartOutcome::AlreadyActive;
        }
        if requested == 0 {
            return StartOutcome::InvalidRequestedCount;
        }
        let rc = RollCall::new(initiator, requested);
        self.list.insert(group, rc);
        assert(self@ =~= old(self)@.insert(group, Session::fresh(initiator, requested as nat)));
        StartOutcome::Started
    }

    /// Joins `participant` to the roll call of `group`. The join that makes
    /// the roll call complete removes it in the same step.
    pub fn ready(&mut self, group: u64, participant: u64) -> (r: JoinOutcome)
        requires
            old(self).wf(),
        ensures
            final(self).wf(),
            (final(self)@, r) == spec_join(old(self)@, group, participant),
    {
        let ghost m = self@;
        let mut rc = match self.list.remove(&group) {
            Some(rc) => rc,
            None => {
                assert(self@ =~= m);
                return JoinOutcome::NoActiveSession;
            },
        };
        assert(m.contains_key(group) && rc@ == m[group]);
        if !rc.join_user(participant) {
            assert(m[group].joined.insert(participant) =~= m[group].joined);
            let left = rc.remaining();
            self.list.insert(group, rc);
            assert(self@ =~= m);
            return JoinOutcome::AlreadyJoined(left);
        }
        let left = rc.remaining();
        if rc.is_complete() {
            assert(self@ =~= m.remove(group));
        } else {
            self.list.insert(group, rc);
            assert(self@ =~= m.insert(group, m[group].with_participant(participant)));
        }
        JoinOutcome::Joined(left)
    }

    /// Removes the roll call of `group`, if one is running.
    pub fn cancel(&mut self, group: u64) -> (r: CancelOutcome)
        requires
            old(self).wf(),
        ensures
            final(self).wf(),
            (final(self)@, r) == spec_cancel(old(self)@, group),
    {
        match self.list.remove(&group) {
            Some(_) => {
                assert(self@ =~= old(self)@.remove(group));
                CancelOutcome::Cancelled
            },
            None => {
                assert(self@ =~= old(self)@);
                CancelOutcome::NoActiveSession
            },
        }
    }

    /// A read-only copy of the roll call of `group`, if one is running.
    pub fn status(&self, group: u64) -> (r: StatusOutcome)
        requires
            self.wf(),
        ensures
            match r {
                StatusOutcome::Active(st) => {
                    &&& self@.contains_key(group)
                    &&& st.initiator == self@[group].initiator
                    &&& st.requested == self@[group].requested
                    &&& st.joined@.to_set() == self@[group].joined
                    &&& st.joined@.no_duplicates()
                    &&& st.remaining == self@[group].remaining()
                },
                StatusOutcome::NoActiveSession => !self@.contains_key(group),
            },
    {
        match self.get_roll_call_for(group) {
            Some(rc) => StatusOutcome::Active(
                RollCallStatus {
                    initiator: rc.initiator(),
                    requested: rc.requested(),
                    joined: rc.joined_list(),
                    remaining: rc.remaining(),
                },
            ),
            None => StatusOutcome::NoActiveSession,
        }
    }
}

/// A run of starts for one group, one after the other as the calls win the
/// registry: the roll calls after the run, and what each call reported.
pub open spec fn spec_start_all(m: Sessions, group: u64, calls: Seq<(u64, nat)>) -> (
    Sessions,
    Seq<StartOutcome>,
)
    decreases calls.len(),
{
    if calls.len() == 0 {
        (m, Seq::empty())
    } else {
        let (m1, r) = spec_start(m, group, calls[0].0, calls[0].1);
        let (m2, rs) = spec_start_all(m1, group, calls.drop_first());
        (m2, seq![r] + rs)
    }
}

/// A group holds at most one roll call: where one is running, the group
/// occurs exactly once among the groups with roll calls.
pub proof fn lemma_one_roll_call_per_group(m: Sessions, group: u64)
    ensures
        m.contains_key(group) ==> m.dom().filter(|g: u64| g == group) == set![group],
        !m.contains_key(group) ==> m.dom().filter(|g: u64| g == group).is_empty(),
{
    assert(m.contains_key(group) ==> m.dom().filter(|g: u64| g == group) =~= set![group]);
    assert(!m.contains_key(group) ==> m.dom().filter(|g: u64| g == group) =~= Set::empty());
}

/// Every stored roll call has fewer joined participants than requested, and
/// each operation keeps it so.
pub proof fn lemma_joined_within_requested(
    m: Sessions,
    group: u64,
    participant: u64,
    initiator: u64,
    requested: nat,
)
    requires
        sessions_wf(m),
    ensures
        m.contains_key(group) ==> m[group].joined.len() < m[group].requested,
        sessions_wf(spec_start(m, group, initiator, requested).0),
        sessions_wf(spec_join(m, group, participant).0),
        sessions_wf(spec_cancel(m, group).0),
{
    if m.contains_key(group) && !m[group].joined.contains(participant) {
        let s = m[group].with_participant(participant);
        assert(s.joined.len() == m[group].joined.len() + 1);
    }
}

/// A second start for a group whose roll call the first one started reports
/// `AlreadyActive` and leaves the first call's roll call in place.
pub proof fn lemma_start_twice(
    m: Sessions,
    group: u64,
    initiator1: u64,
    requested1: nat,
    initiator2: u64,
    requested2: nat,
)
    requires
        spec_start(m, group, initiator1, requested1).1 == StartOutcome::Started,
    ensures
        ({
            let (m1, _) = spec_start(m, group, initiator1, requested1);
            let (m2, r2) = spec_start(m1, group, initiator2, requested2);
            &&& r2 == StartOutcome::AlreadyActive
            &&& m2 == m1
            &&& m2[group].initiator == initiator1
            &&& m2[group].requested == requested1
        }),
{
}

/// Joining twice: where the first join leaves the roll call running, the
/// second reports `AlreadyJoined` with the same number still missing and
/// changes nothing.
pub proof fn lemma_join_twice(m: Sessions, group: u64, participant: u64)
    requires
        sessions_wf(m),
        m.contains_key(group),
        spec_join(m, group, participant).0.contains_key(group),
    ensures
        ({
            let (m1, r1) = spec_join(m, group, participant);
            let (m2, r2) = spec_join(m1, group, participant);
            &&& r2 == JoinOutcome::AlreadyJoined(m1[group].remaining() as u16)
            &&& (r1 == JoinOutcome::Joined(m1[group].remaining() as u16) || r1 == r2)
            &&& m2 == m1
            &&& m2[group].joined.len() == m1[group].joined.len()
        }),
{
}

/// The join that brings a roll call to its requested count reports zero
/// missing and removes it; no stored roll call is ever complete.
pub proof fn lemma_completion_removes(m: Sessions, group: u64, participant: u64)
    requires
        sessions_wf(m),
    ensures
        ({
            let (m1, r1) = spec_join(m, group, participant);
            &&& (m.contains_key(group) && !m[group].joined.contains(participant)
                && m[group].joined.len() + 1 == m[group].requested) ==> (!m1.contains_key(group)
                && r1 == JoinOutcome::Joined(0))
            &&& m1.contains_key(group) ==> !m1[group].is_complete()
        }),
{
    lemma_joined_within_requested(m, group, participant, 0, 0);
    if m.contains_key(group) && !m[group].joined.contains(participant) {
        assert(m[group].with_participant(participant).joined.len() == m[group].joined.len() + 1);
    }
}

/// Cancelling where nothing runs reports `NoActiveSession` and creates
/// nothing; cancelling a running roll call removes it and reports
/// `Cancelled`.
pub proof fn lemma_cancel(m: Sessions, group: u64)
    ensures
        ({
            let (m1, r) = spec_cancel(m, group);
            &&& !m.contains_key(group) ==> r == CancelOutcome::NoActiveSession && m1 == m
            &&& m.contains_key(group) ==> r == CancelOutcome::Cancelled && !m1.contains_key(group)
            &&& !m1.contains_key(group)
        }),
{
}

/// Once a group has a roll call, every start for it in a run reports
/// `AlreadyActive` and changes nothing.
pub proof fn lemma_start_all_when_active(m: Sessions, group: u64, calls: Seq<(u64, nat)>)
    requires
        m.contains_key(group),
    ensures
        spec_start_all(m, group, calls).0 == m,
        spec_start_all(m, group, calls).1.len() == calls.len(),
        forall|i: int|
            0 <= i < calls.len() ==> #[trigger] spec_start_all(m, group, calls).1[i]
                == StartOutcome::AlreadyActive,
    decreases calls.len(),
{
    if calls.len() > 0 {
        lemma_start_all_when_active(m, group, calls.drop_first());
        let rs = spec_start_all(m, group, calls).1;
        let rest = spec_start_all(m, group, calls.drop_first()).1;
        assert(rs == seq![StartOutcome::AlreadyActive] + rest);
        assert forall|i: int| 0 <= i < calls.len() implies rs[i] == StartOutcome::AlreadyActive by {
            if i > 0 {
                assert(rs[i] == rest[i - 1]);
            }
        }
    }
}

/// Any number of starts with valid counts for a group that has no roll call,
/// in whatever order they reach the registry: exactly one reports `Started`,
/// the first, and every other reports `AlreadyActive`.
pub proof fn lemma_concurrent_starts(m: Sessions, group: u64, calls: Seq<(u64, nat)>)
    requires
        !m.contains_key(group),
        calls.len() > 0,
        forall|i: int| 0 <= i < calls.len() ==> #[trigger] calls[i].1 > 0,
    ensures
        ({
            let (m1, rs) = spec_start_all(m, group, calls);
            &&& rs.len() == calls.len()
            &&& rs[0] == StartOutcome::Started
            &&& forall|i: int| 0 < i < rs.len() ==> #[trigger] rs[i] == StartOutcome::AlreadyActive
            &&& m1 == m.insert(group, Session::fresh(calls[0].0, calls[0].1))
        }),
{
    assert(calls[0].1 > 0);
    let m0 = m.insert(group, Session::fresh(calls[0].0, calls[0].1));
    lemma_start_all_when_active(m0, group, calls.drop_first());
    let rs = spec_start_all(m, group, calls).1;
    let rest = spec_start_all(m0, group, calls.drop_first()).1;
    assert forall|i: int| 0 < i < rs.len() implies #[trigger] rs[i] == StartOutcome::AlreadyActive by {
        assert(rs[i] == rest[i - 1]);
    }
}

} // verus!
