use m_bot::registry::CancelOutcome;
use m_bot::registry::JoinOutcome;
use m_bot::registry::RollCallManager;
use m_bot::registry::StartOutcome;
use m_bot::registry::StatusOutcome;

#[test]
fn full_roll_call_completes_and_disappears() {
    let mut m = RollCallManager::new();
    let g = 10;
    assert_eq!(m.start(g, 1, 3), StartOutcome::Started);
    assert_eq!(m.ready(g, 2), JoinOutcome::Joined(2));
    assert_eq!(m.ready(g, 3), JoinOutcome::Joined(1));
    assert_eq!(m.ready(g, 3), JoinOutcome::AlreadyJoined(1));
    assert_eq!(m.ready(g, 4), JoinOutcome::Joined(0));
    assert_eq!(m.status(g), StatusOutcome::NoActiveSession);
    assert!(!m.have_running_call_for(g));
}

#[test]
fn join_without_start_and_zero_count() {
    let mut m = RollCallManager::new();
    let h = 20;
    assert_eq!(m.ready(h, 1), JoinOutcome::NoActiveSession);
    assert_eq!(m.start(h, 1, 0), StartOutcome::InvalidRequestedCount);
    assert!(!m.have_running_call_for(h));
    assert_eq!(m.status(h), StatusOutcome::NoActiveSession);
}

#[test]
fn has_active_matches_one_stored_roll_call() {
    let mut m = RollCallManager::new();
    assert!(!m.have_running_call_for(5));
    assert!(m.get_roll_call_for(5).is_none());
    assert_eq!(m.start(5, 7, 2), StartOutcome::Started);
    assert!(m.have_running_call_for(5));
    let rc = m.get_roll_call_for(5).unwrap();
    assert_eq!(rc.initiator(), 7);
    assert_eq!(rc.requested(), 2);
    assert!(!m.have_running_call_for(6));
}

#[test]
fn joined_never_exceeds_requested() {
    let mut m = RollCallManager::new();
    assert_eq!(m.start(1, 100, 2), StartOutcome::Started);
    assert_eq!(m.ready(1, 1), JoinOutcome::Joined(1));
    let rc = m.get_roll_call_for(1).unwrap();
    assert!(rc.joined_list().len() <= rc.requested() as usize);
    assert!(!rc.is_complete());
    assert_eq!(m.ready(1, 2), JoinOutcome::Joined(0));
    assert_eq!(m.ready(1, 3), JoinOutcome::NoActiveSession);
}

#[test]
fn second_start_keeps_first_roll_call() {
    let mut m = RollCallManager::new();
    assert_eq!(m.start(3, 11, 4), StartOutcome::Started);
    assert_eq!(m.start(3, 12, 9), StartOutcome::AlreadyActive);
    assert_eq!(m.start(3, 11, 4), StartOutcome::AlreadyActive);
    assert_eq!(m.start(3, 12, 0), StartOutcome::AlreadyActive);
    match m.status(3) {
        StatusOutcome::Active(st) => {
            assert_eq!(st.initiator, 11);
            assert_eq!(st.requested, 4);
            assert!(st.joined.is_empty());
            assert_eq!(st.remaining, 4);
        }
        StatusOutcome::NoActiveSession => panic!("roll call lost"),
    }
}

#[test]
fn joining_twice_changes_nothing() {
    let mut m = RollCallManager::new();
    assert_eq!(m.start(4, 1, 5), StartOutcome::Started);
    assert_eq!(m.ready(4, 9), JoinOutcome::Joined(4));
    assert_eq!(m.ready(4, 9), JoinOutcome::AlreadyJoined(4));
    assert_eq!(m.ready(4, 9), JoinOutcome::AlreadyJoined(4));
    let rc = m.get_roll_call_for(4).unwrap();
    assert_eq!(rc.joined_list(), vec![9]);
    assert_eq!(rc.remaining(), 4);
    assert!(rc.has_user_joined(9));
    assert!(!rc.has_user_joined(1));
}

#[test]
fn completion_of_single_participant_call() {
    let mut m = RollCallManager::new();
    assert_eq!(m.start(8, 1, 1), StartOutcome::Started);
    assert_eq!(m.ready(8, 1), JoinOutcome::Joined(0));
    assert!(!m.have_running_call_for(8));
    assert_eq!(m.status(8), StatusOutcome::NoActiveSession);
    assert_eq!(m.start(8, 2, 1), StartOutcome::Started);
}

#[test]
fn cancel_absent_and_present() {
    let mut m = RollCallManager::new();
    assert_eq!(m.cancel(30), CancelOutcome::NoActiveSession);
    assert!(!m.have_running_call_for(30));
    assert_eq!(m.start(30, 1, 2), StartOutcome::Started);
    assert_eq!(m.ready(30, 5), JoinOutcome::Joined(1));
    assert_eq!(m.cancel(30), CancelOutcome::Cancelled);
    assert!(!m.have_running_call_for(30));
    assert_eq!(m.cancel(30), CancelOutcome::NoActiveSession);
    assert_eq!(m.ready(30, 6), JoinOutcome::NoActiveSession);
}

#[test]
fn many_starts_one_winner() {
    let mut m = RollCallManager::new();
    let mut started = 0;
    let mut already = 0;
    for caller in 0..16u64 {
        match m.start(42, caller, (caller as u16) + 1) {
            StartOutcome::Started => started += 1,
            StartOutcome::AlreadyActive => already += 1,
            StartOutcome::InvalidRequestedCount => panic!("valid count refused"),
        }
    }
    assert_eq!(started, 1);
    assert_eq!(already, 15);
    let rc = m.get_roll_call_for(42).unwrap();
    assert_eq!(rc.initiator(), 0);
    assert_eq!(rc.requested(), 1);
}

#[test]
fn groups_are_independent() {
    let mut m = RollCallManager::new();
    assert_eq!(m.start(1, 1, 2), StartOutcome::Started);
    assert_eq!(m.start(2, 1, 3), StartOutcome::Started);
    assert_eq!(m.ready(1, 5), JoinOutcome::Joined(1));
    assert_eq!(m.ready(2, 5), JoinOutcome::Joined(2));
    assert_eq!(m.cancel(1), CancelOutcome::Cancelled);
    assert!(m.have_running_call_for(2));
}

#[test]
fn status_lists_each_joined_once() {
    let mut m = RollCallManager::new();
    assert_eq!(m.start(7, 1, 10), StartOutcome::Started);
    for p in [5u64, 3, 8, 3, 5] {
        m.ready(7, p);
    }
    match m.status(7) {
        StatusOutcome::Active(st) => {
            let mut joined = st.joined.clone();
            joined.sort();
            assert_eq!(joined, vec![3, 5, 8]);
            assert_eq!(st.remaining, 7);
            assert_eq!(st.requested, 10);
            assert_eq!(st.initiator, 1);
        }
        StatusOutcome::NoActiveSession => panic!("roll call lost"),
    }
}

#[test]
fn largest_requested_count() {
    let mut m = RollCallManager::new();
    assert_eq!(m.start(9, 1, u16::MAX), StartOutcome::Started);
    assert_eq!(m.ready(9, 2), JoinOutcome::Joined(u16::MAX - 1));
    assert_eq!(m.get_roll_call_for(9).unwrap().remaining(), u16::MAX - 1);
}
