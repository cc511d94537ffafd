use valyra_escrow::engine::Engine;
use valyra_escrow::model::ReleaseTimer;
use valyra_escrow::types::{
    EscrowError, EscrowEvent, EscrowState, ExternalFailure, LedgerError, Milestone, Party,
};

const T1: u64 = 5_000_000_000;
const T2: u64 = 9_000_000_000;

fn party(name: &str) -> Party {
    Party::new(name.to_string())
}

fn milestone(description: &str, amount: u64, deadline: u64) -> Milestone {
    Milestone { description: description.to_string(), amount, deadline, completed: false }
}

fn key() -> Vec<u8> {
    (0u8..33).collect()
}

/// An engine holding escrow 1: total 100, milestones of 60 (due at T1) and 40 (due at T2).
fn opened() -> Engine {
    let mut engine = Engine::new(party("service"));
    let id = engine
        .create_escrow(
            7,
            party("seller"),
            100,
            vec![milestone("handover", 60, T1), milestone("transition", 40, T2)],
            party("buyer"),
        )
        .unwrap();
    assert_eq!(id, 1);
    assert_eq!(engine.finish_create_escrow(id, Ok(key()), 10), Ok(1));
    engine
}

fn funded() -> Engine {
    let mut engine = opened();
    engine.deposit_funds(1, 100, &party("buyer")).unwrap();
    engine.finish_deposit(1, Ok(()), 20).unwrap();
    engine
}

#[test]
fn full_lifecycle_scenario() {
    let mut engine = opened();
    let a = engine.get_escrow(1).unwrap();
    assert_eq!(a.state, EscrowState::Created);
    assert_eq!(a.escrow_address, "ecdsa_00010203040506070809");

    let t = engine.deposit_funds(1, 100, &party("buyer")).unwrap();
    assert_eq!(t.amount, 100);
    assert_eq!(t.to_subaccount, vec![0, 0, 0, 0, 0, 0, 0, 1]);
    assert_eq!(t.memo, "Escrow deposit for listing 7");
    engine.finish_deposit(1, Ok(()), 20).unwrap();
    let a = engine.get_escrow(1).unwrap();
    assert_eq!(a.state, EscrowState::Locked);
    assert_eq!(a.locked_amount, 100);

    engine.complete_milestone(1, 0, &party("seller"), 30).unwrap();
    let a = engine.get_escrow(1).unwrap();
    assert_eq!(a.state, EscrowState::MilestoneDone);
    assert!(a.milestones[0].completed);
    assert_eq!(a.milestones[0].completed_at, Some(30));

    let t = engine.release_funds(1, 0, &party("buyer")).unwrap();
    assert_eq!(t.amount, 60);
    assert_eq!(t.to, party("seller"));
    assert_eq!(t.memo, "Milestone payment for escrow 1");
    engine.finish_release(1, 0, Ok(()), 40).unwrap();
    let a = engine.get_escrow(1).unwrap();
    assert_eq!(a.released_amount, 60);
    assert_eq!(a.locked_amount, 40);
    assert_eq!(a.state, EscrowState::MilestoneDone);

    engine.complete_milestone(1, 1, &party("seller"), 50).unwrap();
    let t = engine.release_funds(1, 1, &party("seller")).unwrap();
    assert_eq!(t.amount, 40);
    engine.finish_release(1, 1, Ok(()), 60).unwrap();
    let a = engine.get_escrow(1).unwrap();
    assert_eq!(a.released_amount, 100);
    assert_eq!(a.locked_amount, 0);
    assert_eq!(a.state, EscrowState::Released);
    assert_eq!(a.milestones[1].released_at, Some(60));
}

#[test]
fn deposit_of_wrong_amount_is_validation_error() {
    let mut engine = opened();
    assert_eq!(engine.deposit_funds(1, 99, &party("buyer")).unwrap_err(), EscrowError::Validation);
    let a = engine.get_escrow(1).unwrap();
    assert_eq!(a.state, EscrowState::Created);
    assert_eq!(a.locked_amount, 0);
    // nothing was claimed: the right deposit still goes through
    assert!(engine.deposit_funds(1, 100, &party("buyer")).is_ok());
}

#[test]
fn deadline_timer_completes_and_releases_once() {
    let mut engine = funded();
    let t = engine.auto_release_milestone(1, 0, T1).unwrap().unwrap();
    assert_eq!(t.amount, 60);
    // the manual completion arriving at the same instant loses
    assert_eq!(
        engine.complete_milestone(1, 0, &party("seller"), T1).unwrap_err(),
        EscrowError::Conflict
    );
    assert_eq!(engine.auto_release_milestone(1, 0, T1).unwrap_err(), EscrowError::Conflict);
    engine.finish_release(1, 0, Ok(()), T1).unwrap();
    let a = engine.get_escrow(1).unwrap();
    assert!(a.milestones[0].completed);
    assert!(a.milestones[0].released);
    assert_eq!(a.released_amount, 60);
    let events = engine.get_recent_events(2);
    assert_eq!(
        events[1],
        EscrowEvent::MilestoneCompleted {
            escrow_id: 1,
            milestone_index: 0,
            completed_by: party("service")
        }
    );
    // a later firing is inert
    assert!(engine.auto_release_milestone(1, 0, T1 + 1).unwrap().is_none());
    assert_eq!(engine.get_escrow(1).unwrap().released_amount, 60);
}

#[test]
fn timer_after_manual_completion_is_noop() {
    let mut engine = funded();
    engine.complete_milestone(1, 0, &party("seller"), 30).unwrap();
    assert!(engine.auto_release_milestone(1, 0, T1).unwrap().is_none());
    assert!(!engine.get_escrow(1).unwrap().milestones[0].released);
}

#[test]
fn timer_before_deadline_is_noop() {
    let mut engine = funded();
    assert!(engine.auto_release_milestone(1, 1, T1).unwrap().is_none());
    assert!(!engine.get_escrow(1).unwrap().milestones[1].completed);
}

#[test]
fn mismatched_milestones_are_refused() {
    let mut engine = Engine::new(party("service"));
    let r = engine.create_escrow(
        7,
        party("seller"),
        100,
        vec![milestone("a", 60, T1), milestone("b", 30, T2)],
        party("buyer"),
    );
    assert_eq!(r, Err(EscrowError::Validation));
    assert!(engine.get_escrow(1).is_none());
    assert!(!engine.create_escrow(7, party("seller"), 0, vec![], party("buyer")).is_ok());
    assert_eq!(
        engine.create_escrow(7, party("seller"), 5, vec![], party("buyer")),
        Err(EscrowError::Validation)
    );
    let overflow = vec![milestone("a", u64::MAX, T1), milestone("b", 1, T2)];
    assert_eq!(
        engine.create_escrow(7, party("seller"), u64::MAX, overflow, party("buyer")),
        Err(EscrowError::Validation)
    );
    // the first accepted escrow still gets id 1
    let id = engine
        .create_escrow(7, party("seller"), 5, vec![milestone("a", 5, T1)], party("buyer"))
        .unwrap();
    assert_eq!(id, 1);
}

#[test]
fn released_milestone_is_state_error_twice() {
    let mut engine = funded();
    engine.complete_milestone(1, 0, &party("seller"), 30).unwrap();
    engine.release_funds(1, 0, &party("buyer")).unwrap();
    engine.finish_release(1, 0, Ok(()), 40).unwrap();
    assert_eq!(engine.release_funds(1, 0, &party("buyer")).unwrap_err(), EscrowError::State);
    assert_eq!(engine.release_funds(1, 0, &party("seller")).unwrap_err(), EscrowError::State);
    assert_eq!(engine.get_escrow(1).unwrap().released_amount, 60);
}

#[test]
fn concurrent_release_conflicts() {
    let mut engine = funded();
    engine.complete_milestone(1, 0, &party("seller"), 30).unwrap();
    assert!(engine.release_funds(1, 0, &party("buyer")).is_ok());
    assert_eq!(engine.release_funds(1, 0, &party("seller")).unwrap_err(), EscrowError::Conflict);
    engine.finish_release(1, 0, Ok(()), 40).unwrap();
    let a = engine.get_escrow(1).unwrap();
    assert_eq!(a.released_amount, 60);
    assert_eq!(a.locked_amount + a.released_amount, a.total_amount);
}

#[test]
fn ledger_failure_during_deposit_changes_nothing() {
    let mut engine = opened();
    engine.deposit_funds(1, 100, &party("buyer")).unwrap();
    assert_eq!(
        engine.deposit_funds(1, 100, &party("buyer")).unwrap_err(),
        EscrowError::Conflict
    );
    let err = engine
        .finish_deposit(1, Err(LedgerError::InsufficientAllowance { allowance: 5 }), 20)
        .unwrap_err();
    assert_eq!(
        err,
        EscrowError::ExternalService(ExternalFailure::Ledger(LedgerError::InsufficientAllowance {
            allowance: 5
        }))
    );
    let a = engine.get_escrow(1).unwrap();
    assert_eq!(a.state, EscrowState::Created);
    assert_eq!(a.locked_amount, 0);
    // the claim was dropped: the caller may try again
    assert!(engine.deposit_funds(1, 100, &party("buyer")).is_ok());
}

#[test]
fn ledger_failure_during_release_changes_nothing() {
    let mut engine = funded();
    engine.complete_milestone(1, 0, &party("seller"), 30).unwrap();
    engine.release_funds(1, 0, &party("buyer")).unwrap();
    let err = engine.finish_release(1, 0, Err(LedgerError::TemporarilyUnavailable), 40);
    assert_eq!(
        err,
        Err(EscrowError::ExternalService(ExternalFailure::Ledger(
            LedgerError::TemporarilyUnavailable
        )))
    );
    let a = engine.get_escrow(1).unwrap();
    assert!(!a.milestones[0].released);
    assert_eq!(a.locked_amount, 100);
    assert!(engine.release_funds(1, 0, &party("buyer")).is_ok());
}

#[test]
fn key_derivation_failure_abandons_the_id() {
    let mut engine = Engine::new(party("service"));
    let id = engine
        .create_escrow(7, party("seller"), 5, vec![milestone("a", 5, T1)], party("buyer"))
        .unwrap();
    let r = engine.finish_create_escrow(id, Err("no key".to_string()), 10);
    assert_eq!(
        r,
        Err(EscrowError::ExternalService(ExternalFailure::KeyDerivation("no key".to_string())))
    );
    assert!(engine.get_escrow(id).is_none());
    assert_eq!(engine.finish_create_escrow(id, Ok(key()), 10), Err(EscrowError::State));
    let next = engine
        .create_escrow(7, party("seller"), 5, vec![milestone("a", 5, T1)], party("buyer"))
        .unwrap();
    assert_eq!(next, 2);
    let short = engine.finish_create_escrow(next, Ok(vec![1, 2, 3]), 10);
    assert_eq!(
        short,
        Err(EscrowError::ExternalService(ExternalFailure::KeyDerivation(
            "derived public key is too short".to_string()
        )))
    );
    assert!(engine.get_escrow(next).is_none());
}

#[test]
fn wrong_callers_are_refused() {
    let mut engine = opened();
    assert_eq!(
        engine.deposit_funds(1, 100, &party("seller")).unwrap_err(),
        EscrowError::Authorization
    );
    engine.deposit_funds(1, 100, &party("buyer")).unwrap();
    engine.finish_deposit(1, Ok(()), 20).unwrap();
    assert_eq!(
        engine.complete_milestone(1, 0, &party("buyer"), 30).unwrap_err(),
        EscrowError::Authorization
    );
    engine.complete_milestone(1, 0, &party("seller"), 30).unwrap();
    assert_eq!(
        engine.release_funds(1, 0, &party("stranger")).unwrap_err(),
        EscrowError::Authorization
    );
    assert_eq!(
        engine.dispute_escrow(1, "why".to_string(), &party("stranger")).unwrap_err(),
        EscrowError::Authorization
    );
}

#[test]
fn state_and_lookup_errors() {
    let mut engine = opened();
    assert_eq!(engine.deposit_funds(9, 100, &party("buyer")).unwrap_err(), EscrowError::NotFound);
    assert_eq!(
        engine.complete_milestone(1, 0, &party("seller"), 30).unwrap_err(),
        EscrowError::State
    );
    assert_eq!(
        engine.dispute_escrow(1, "early".to_string(), &party("buyer")).unwrap_err(),
        EscrowError::State
    );
    engine.deposit_funds(1, 100, &party("buyer")).unwrap();
    engine.finish_deposit(1, Ok(()), 20).unwrap();
    assert_eq!(engine.deposit_funds(1, 100, &party("buyer")).unwrap_err(), EscrowError::State);
    assert_eq!(
        engine.complete_milestone(1, 5, &party("seller"), 30).unwrap_err(),
        EscrowError::NotFound
    );
    assert_eq!(engine.release_funds(1, 5, &party("buyer")).unwrap_err(), EscrowError::NotFound);
    assert_eq!(engine.release_funds(1, 0, &party("buyer")).unwrap_err(), EscrowError::State);
    engine.complete_milestone(1, 0, &party("seller"), 30).unwrap();
    assert_eq!(
        engine.complete_milestone(1, 0, &party("seller"), 31).unwrap_err(),
        EscrowError::State
    );
    assert_eq!(engine.finish_release(1, 0, Ok(()), 40), Err(EscrowError::State));
    assert_eq!(engine.finish_deposit(1, Ok(()), 40).unwrap_err(), EscrowError::State);
}

#[test]
fn dispute_only_logs() {
    let mut engine = funded();
    engine.dispute_escrow(1, "late handover".to_string(), &party("buyer")).unwrap();
    let a = engine.get_escrow(1).unwrap();
    assert_eq!(a.state, EscrowState::Locked);
    assert_eq!(a.locked_amount, 100);
    let events = engine.get_recent_events(1);
    assert_eq!(
        events,
        vec![EscrowEvent::EscrowDisputed {
            escrow_id: 1,
            disputed_by: party("buyer"),
            reason: "late handover".to_string()
        }]
    );
}

#[test]
fn deposit_schedules_timers_for_future_deadlines() {
    let mut engine = opened();
    engine.deposit_funds(1, 100, &party("buyer")).unwrap();
    let timers = engine.finish_deposit(1, Ok(()), T1).unwrap();
    assert_eq!(timers, vec![ReleaseTimer { escrow_id: 1, milestone_index: 1, delay_seconds: 4 }]);
    assert_eq!(
        engine.schedule_automatic_releases(1, 1_000_000_000),
        vec![
            ReleaseTimer { escrow_id: 1, milestone_index: 0, delay_seconds: 4 },
            ReleaseTimer { escrow_id: 1, milestone_index: 1, delay_seconds: 8 },
        ]
    );
    assert!(engine.schedule_automatic_releases(3, 0).is_empty());
}

#[test]
fn queries_filter_by_listing_and_buyer() {
    let mut engine = opened();
    let id = engine
        .create_escrow(8, party("seller"), 5, vec![milestone("a", 5, T1)], party("other"))
        .unwrap();
    engine.finish_create_escrow(id, Ok(key()), 11).unwrap();
    let by_listing = engine.get_escrows_by_listing(8);
    assert_eq!(by_listing.len(), 1);
    assert_eq!(by_listing[0].id, 2);
    let by_buyer = engine.get_escrows_by_buyer(&party("buyer"));
    assert_eq!(by_buyer.len(), 1);
    assert_eq!(by_buyer[0].id, 1);
    assert!(engine.get_escrows_by_listing(99).is_empty());
}

#[test]
fn recent_events_are_newest_first() {
    let engine = funded();
    let events = engine.get_recent_events(10);
    assert_eq!(events.len(), 2);
    assert_eq!(
        events[0],
        EscrowEvent::FundsDeposited { escrow_id: 1, amount: 100, depositor: party("buyer") }
    );
    assert_eq!(
        events[1],
        EscrowEvent::EscrowCreated {
            escrow_id: 1,
            listing_id: 7,
            buyer: party("buyer"),
            seller: party("seller"),
            total_amount: 100
        }
    );
    assert!(engine.get_recent_events(0).is_empty());
}

#[test]
fn stored_records_are_restored_in_id_order() {
    let mut source = funded();
    source.complete_milestone(1, 0, &party("seller"), 30).unwrap();
    let id = source
        .create_escrow(8, party("seller"), 5, vec![milestone("a", 5, T1)], party("other"))
        .unwrap();
    source.finish_create_escrow(id, Err("down".to_string()), 11).unwrap_err();
    let id = source
        .create_escrow(9, party("seller"), 5, vec![milestone("a", 5, T1)], party("other"))
        .unwrap();
    assert_eq!(id, 3);
    source.finish_create_escrow(id, Ok(key()), 12).unwrap();

    let mut restored = Engine::new(party("service"));
    let first = source.get_escrow(1).unwrap();
    let third = source.get_escrow(3).unwrap();
    assert!(first.is_well_formed());
    assert_eq!(restored.restore_record(first.clone()), Ok(()));
    assert_eq!(restored.restore_record(first.clone()), Err(EscrowError::State));
    assert_eq!(restored.restore_record(third.clone()), Ok(()));
    assert_eq!(restored.get_escrow(1), Some(first));
    assert!(restored.get_escrow(2).is_none());
    assert_eq!(restored.get_escrow(3), Some(third));
    // ids keep growing past the restored ones
    let next = restored
        .create_escrow(1, party("seller"), 5, vec![milestone("a", 5, T1)], party("buyer"))
        .unwrap();
    assert_eq!(next, 4);
    // the restored escrow carries on where it stopped
    assert!(restored.release_funds(1, 0, &party("buyer")).is_ok());
}

#[test]
fn malformed_records_are_not_restored() {
    let engine = funded();
    let good = engine.get_escrow(1).unwrap();

    let mut unbalanced = good.clone();
    unbalanced.locked_amount = 90;
    assert!(!unbalanced.is_well_formed());
    let mut restored = Engine::new(party("service"));
    assert_eq!(restored.restore_record(unbalanced), Err(EscrowError::Validation));
    assert!(restored.get_escrow(1).is_none());

    let mut paid_early = good.clone();
    paid_early.milestones[0].released = true;
    paid_early.released_amount = 60;
    paid_early.locked_amount = 40;
    assert!(!paid_early.is_well_formed());

    let mut wrong_phase = good.clone();
    wrong_phase.state = EscrowState::Released;
    assert!(!wrong_phase.is_well_formed());

    let mut overflowing = good;
    overflowing.milestones[1].amount = u64::MAX;
    assert!(!overflowing.is_well_formed());
}

#[test]
fn timer_delay_rounds_up_to_the_deadline() {
    let mut engine = opened();
    engine.deposit_funds(1, 100, &party("buyer")).unwrap();
    // 1.5 s before the first deadline: the timer waits 2 s, never 1 s
    let now = T1 - 1_500_000_000;
    let timers = engine.finish_deposit(1, Ok(()), now).unwrap();
    assert_eq!(
        timers,
        vec![
            ReleaseTimer { escrow_id: 1, milestone_index: 0, delay_seconds: 2 },
            ReleaseTimer { escrow_id: 1, milestone_index: 1, delay_seconds: 6 },
        ]
    );
    // one nanosecond ahead still waits a whole second
    assert_eq!(
        engine.schedule_automatic_releases(1, T1 - 1)[0],
        ReleaseTimer { escrow_id: 1, milestone_index: 0, delay_seconds: 1 }
    );
    // when the timer fires, the milestone is due
    let fired_at = now + 2 * 1_000_000_000;
    assert!(engine.auto_release_milestone(1, 0, fired_at).unwrap().is_some());
}

#[test]
fn ids_handed_out_before_a_restart_are_not_reused() {
    let mut engine = Engine::new(party("service"));
    engine.skip_ids_below(4);
    let id = engine
        .create_escrow(7, party("seller"), 5, vec![milestone("a", 5, T1)], party("buyer"))
        .unwrap();
    assert_eq!(id, 4);
    // a lower bound changes nothing
    engine.skip_ids_below(2);
    let next = engine
        .create_escrow(7, party("seller"), 5, vec![milestone("a", 5, T1)], party("buyer"))
        .unwrap();
    assert_eq!(next, 5);
    assert!(engine.get_escrow(2).is_none());
}
