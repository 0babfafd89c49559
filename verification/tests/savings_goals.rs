use ledger_core::{
    CallContext, Event, GoalsExportSnapshot, LedgerError, Operation, Principal, SavingsEvent, SavingsGoal,
    SavingsGoalContract, ValidationError,
};

fn principal(id: &str) -> Principal {
    Principal::new(id.to_string())
}

fn about_goal(kind: SavingsEvent, principal: &Principal, amount: Option<i128>) -> Event<SavingsEvent> {
    Event { kind, record_id: Some(1), principal: Some(principal.clone()), amount }
}

fn now() -> CallContext {
    CallContext { authorized: true, timestamp: 1_700_000_000 }
}

fn denied() -> CallContext {
    CallContext { authorized: false, timestamp: 1_700_000_000 }
}

fn goal(id: u32, owner: &str, target_amount: i128, current_amount: i128) -> SavingsGoal {
    SavingsGoal {
        id,
        owner: principal(owner),
        name: "Education".to_string(),
        target_amount,
        current_amount,
        target_date: 1_800_000_000,
        locked: true,
    }
}

fn snapshot_of(goals: Vec<SavingsGoal>) -> GoalsExportSnapshot {
    let next_id = goals.len() as u32;
    let checksum = SavingsGoalContract::compute_goals_checksum(1, next_id, &goals);
    GoalsExportSnapshot { version: 1, checksum, next_id, goals }
}

#[test]
fn goal_is_completed_exactly_at_the_second_deposit() {
    let mut ledger = SavingsGoalContract::init();
    let owner = principal("owner");
    let created = ledger
        .create_goal(&now(), &owner, 0, "Education".to_string(), 100, 1_800_000_000)
        .unwrap();
    assert_eq!(created.value, 1);
    assert_eq!(created.events, vec![about_goal(SavingsEvent::GoalCreated, &owner, None)]);
    assert!(!ledger.is_goal_completed(1));

    let first = ledger.add_to_goal(&now(), &owner, 1, 1, 60).unwrap();
    assert_eq!(first.value, 60);
    assert_eq!(first.events, vec![about_goal(SavingsEvent::FundsAdded, &owner, Some(60))]);
    assert!(!ledger.is_goal_completed(1));

    let second = ledger.add_to_goal(&now(), &owner, 2, 1, 40).unwrap();
    assert_eq!(second.value, 100);
    assert_eq!(
        second.events,
        vec![
            about_goal(SavingsEvent::FundsAdded, &owner, Some(40)),
            about_goal(SavingsEvent::GoalCompleted, &owner, None),
        ]
    );
    assert!(ledger.is_goal_completed(1));
    assert_eq!(ledger.get_goal(1).unwrap().current_amount, 100);
}

#[test]
fn locked_goal_refuses_withdrawal_until_unlocked() {
    let mut ledger = SavingsGoalContract::init();
    let owner = principal("owner");
    ledger.create_goal(&now(), &owner, 0, "Medical".to_string(), 100, 0).unwrap();
    ledger.add_to_goal(&now(), &owner, 1, 1, 500).unwrap();
    assert!(ledger.get_goal(1).unwrap().locked);

    let refused = ledger.withdraw_from_goal(&now(), &owner, 2, 1, 200);
    assert_eq!(
        refused.unwrap_err(),
        LedgerError::ValidationFailed(ValidationError::GoalLocked)
    );
    assert_eq!(ledger.get_goal(1).unwrap().current_amount, 500);
    assert_eq!(ledger.get_nonce(&owner), 2);

    let unlocked = ledger.unlock_goal(&now(), &owner, 2, 1).unwrap();
    assert!(unlocked.value);
    assert_eq!(unlocked.events, vec![about_goal(SavingsEvent::GoalUnlocked, &owner, None)]);
    assert!(!ledger.get_goal(1).unwrap().locked);

    let taken = ledger.withdraw_from_goal(&now(), &owner, 3, 1, 200).unwrap();
    assert_eq!(taken.value, 300);
    assert_eq!(taken.events, vec![about_goal(SavingsEvent::FundsWithdrawn, &owner, Some(200))]);
    assert_eq!(ledger.get_goal(1).unwrap().current_amount, 300);

    let locked = ledger.lock_goal(&now(), &owner, 4, 1).unwrap();
    assert_eq!(locked.events, vec![about_goal(SavingsEvent::GoalLocked, &owner, None)]);
    assert_eq!(
        ledger.withdraw_from_goal(&now(), &owner, 5, 1, 1).unwrap_err(),
        LedgerError::ValidationFailed(ValidationError::GoalLocked)
    );
}

#[test]
fn goal_ids_count_up_from_one() {
    let mut ledger = SavingsGoalContract::init();
    let ann = principal("ann");
    let bob = principal("bob");
    assert!(ledger.get_goal(0).is_none());
    assert!(ledger.get_goal(1).is_none());
    assert_eq!(ledger.create_goal(&now(), &ann, 0, "a".to_string(), 10, 1).unwrap().value, 1);
    assert_eq!(ledger.create_goal(&now(), &bob, 0, "b".to_string(), 20, 2).unwrap().value, 2);
    assert_eq!(ledger.create_goal(&now(), &ann, 1, "c".to_string(), 30, 3).unwrap().value, 3);
    assert!(ledger.get_goal(4).is_none());

    let second = ledger.get_goal(2).unwrap();
    assert_eq!(
        second,
        SavingsGoal {
            id: 2,
            owner: bob.clone(),
            name: "b".to_string(),
            target_amount: 20,
            current_amount: 0,
            target_date: 2,
            locked: true,
        }
    );
    let of_ann: Vec<u32> = ledger.get_all_goals(&ann).iter().map(|g| g.id).collect();
    assert_eq!(of_ann, vec![1, 3]);
    let of_bob: Vec<u32> = ledger.get_all_goals(&bob).iter().map(|g| g.id).collect();
    assert_eq!(of_bob, vec![2]);
    assert!(ledger.get_all_goals(&principal("carol")).is_empty());
    assert_eq!(ledger.goals().len(), 3);
    assert_eq!(ledger.get_nonce(&ann), 2);
    assert_eq!(ledger.get_nonce(&bob), 1);
}

#[test]
fn savings_refusals_name_the_broken_rule() {
    let mut ledger = SavingsGoalContract::init();
    let owner = principal("owner");
    let stranger = principal("stranger");

    assert_eq!(
        ledger.create_goal(&denied(), &owner, 0, "x".to_string(), 10, 0).unwrap_err(),
        LedgerError::Unauthorized
    );
    assert!(ledger.get_audit_log(0, 10).is_empty());
    assert_eq!(
        ledger.create_goal(&now(), &owner, 0, "x".to_string(), 0, 0).unwrap_err(),
        LedgerError::ValidationFailed(ValidationError::NonPositiveAmount)
    );
    assert_eq!(
        ledger.create_goal(&now(), &owner, 1, "x".to_string(), 10, 0).unwrap_err(),
        LedgerError::ReplayRejected
    );
    ledger.create_goal(&now(), &owner, 0, "x".to_string(), 10, 0).unwrap();

    assert_eq!(
        ledger.add_to_goal(&now(), &owner, 1, 1, 0).unwrap_err(),
        LedgerError::ValidationFailed(ValidationError::NonPositiveAmount)
    );
    assert_eq!(
        ledger.add_to_goal(&now(), &owner, 1, 2, 5).unwrap_err(),
        LedgerError::ValidationFailed(ValidationError::RecordNotFound)
    );
    assert_eq!(
        ledger.add_to_goal(&now(), &owner, 1, 0, 5).unwrap_err(),
        LedgerError::ValidationFailed(ValidationError::RecordNotFound)
    );
    assert_eq!(
        ledger.add_to_goal(&now(), &stranger, 0, 1, 5).unwrap_err(),
        LedgerError::ValidationFailed(ValidationError::WrongOwner)
    );
    assert_eq!(
        ledger.add_to_goal(&denied(), &owner, 1, 1, 5).unwrap_err(),
        LedgerError::Unauthorized
    );
    ledger.add_to_goal(&now(), &owner, 1, 1, i128::MAX).unwrap();
    assert_eq!(
        ledger.add_to_goal(&now(), &owner, 2, 1, 1).unwrap_err(),
        LedgerError::ArithmeticOverflow
    );
    assert_eq!(ledger.get_goal(1).unwrap().current_amount, i128::MAX);

    assert_eq!(
        ledger.lock_goal(&now(), &stranger, 0, 1).unwrap_err(),
        LedgerError::ValidationFailed(ValidationError::WrongOwner)
    );
    assert_eq!(
        ledger.unlock_goal(&now(), &owner, 2, 9).unwrap_err(),
        LedgerError::ValidationFailed(ValidationError::RecordNotFound)
    );
    assert_eq!(
        ledger.unlock_goal(&now(), &owner, 5, 1).unwrap_err(),
        LedgerError::ReplayRejected
    );
    ledger.unlock_goal(&now(), &owner, 2, 1).unwrap();
    assert_eq!(
        ledger.withdraw_from_goal(&now(), &owner, 3, 1, -1).unwrap_err(),
        LedgerError::ValidationFailed(ValidationError::NonPositiveAmount)
    );
    assert_eq!(
        ledger.withdraw_from_goal(&now(), &stranger, 0, 1, 1).unwrap_err(),
        LedgerError::ValidationFailed(ValidationError::WrongOwner)
    );
    assert_eq!(
        ledger.withdraw_from_goal(&now(), &owner, 3, 3, 1).unwrap_err(),
        LedgerError::ValidationFailed(ValidationError::RecordNotFound)
    );
    ledger.withdraw_from_goal(&now(), &owner, 3, 1, i128::MAX - 5).unwrap();
    assert_eq!(
        ledger.withdraw_from_goal(&now(), &owner, 4, 1, 6).unwrap_err(),
        LedgerError::ValidationFailed(ValidationError::InsufficientBalance)
    );
    assert_eq!(ledger.withdraw_from_goal(&now(), &owner, 4, 1, 5).unwrap().value, 0);
    assert_eq!(ledger.get_nonce(&owner), 5);
    assert_eq!(ledger.get_nonce(&stranger), 0);
}

#[test]
fn every_authorized_savings_call_is_audited() {
    let mut ledger = SavingsGoalContract::init();
    let owner = principal("owner");
    let ctx = |timestamp| CallContext { authorized: true, timestamp };
    ledger.create_goal(&ctx(1), &owner, 0, "x".to_string(), 10, 0).unwrap();
    let _ = ledger.add_to_goal(&ctx(2), &owner, 9, 1, 5);
    ledger.add_to_goal(&ctx(3), &owner, 1, 1, 5).unwrap();
    let _ = ledger.withdraw_from_goal(&ctx(4), &owner, 2, 1, 5);
    ledger.unlock_goal(&ctx(5), &owner, 2, 1).unwrap();
    ledger.withdraw_from_goal(&ctx(6), &owner, 3, 1, 5).unwrap();
    ledger.lock_goal(&ctx(7), &owner, 4, 1).unwrap();
    let _ = ledger.lock_goal(&denied(), &owner, 5, 1);

    let log = ledger.get_audit_log(0, 100);
    let seen: Vec<(Operation, u64, bool)> =
        log.iter().map(|e| (e.operation, e.timestamp, e.success)).collect();
    assert_eq!(
        seen,
        vec![
            (Operation::Create, 1, true),
            (Operation::Add, 2, false),
            (Operation::Add, 3, true),
            (Operation::Withdraw, 4, false),
            (Operation::Unlock, 5, true),
            (Operation::Withdraw, 6, true),
            (Operation::Lock, 7, true),
        ]
    );
    assert!(log.iter().all(|e| e.caller == owner));
}

#[test]
fn goals_checksum_adds_ids_and_amounts() {
    assert_eq!(SavingsGoalContract::compute_goals_checksum(1, 0, &vec![]), 31);
    let one = vec![goal(1, "owner", 100, 60)];
    assert_eq!(SavingsGoalContract::compute_goals_checksum(1, 1, &one), 163 * 31);
    let two = vec![goal(1, "owner", 100, 60), goal(2, "other", 7, 3)];
    assert_eq!(SavingsGoalContract::compute_goals_checksum(1, 2, &two), 176 * 31);
    let negative = vec![goal(1, "owner", 100, -1)];
    assert_eq!(SavingsGoalContract::compute_goals_checksum(1, 1, &negative), 102 * 31);
    let wide = vec![goal(1, "owner", (1i128 << 64) + 100, 60)];
    assert_eq!(SavingsGoalContract::compute_goals_checksum(1, 1, &wide), 163 * 31);
    let wrapping = vec![goal(1, "owner", u64::MAX as i128, u64::MAX as i128)];
    assert_eq!(
        SavingsGoalContract::compute_goals_checksum(1, 1, &wrapping),
        31u64.wrapping_mul(1)
    );
}

#[test]
fn savings_snapshot_round_trip_restores_every_goal() {
    let mut ledger = SavingsGoalContract::init();
    let ann = principal("ann");
    ledger.create_goal(&now(), &ann, 0, "a".to_string(), 100, 11).unwrap();
    ledger.create_goal(&now(), &ann, 1, "b".to_string(), 200, 22).unwrap();
    ledger.add_to_goal(&now(), &ann, 2, 1, 60).unwrap();
    ledger.unlock_goal(&now(), &ann, 3, 2).unwrap();
    let before = ledger.goals();

    let snapshot = ledger.export_snapshot(&now(), &ann).unwrap();
    assert_eq!(snapshot.version, 1);
    assert_eq!(snapshot.next_id, 2);
    assert_eq!(snapshot.goals, before);
    assert_eq!(snapshot.checksum, (1 + 2 + 1 + 100 + 60 + 2 + 200) * 31);

    ledger.add_to_goal(&now(), &ann, 4, 1, 5).unwrap();
    ledger.create_goal(&now(), &ann, 5, "c".to_string(), 1, 1).unwrap();
    assert_eq!(ledger.goals().len(), 3);

    let restored = ledger.import_snapshot(&now(), &ann, 6, snapshot).unwrap();
    assert!(restored.value);
    assert!(restored.events.is_empty());
    assert_eq!(ledger.goals(), before);
    assert!(ledger.get_goal(3).is_none());
    assert_eq!(ledger.get_nonce(&ann), 7);
    assert_eq!(ledger.create_goal(&now(), &ann, 7, "d".to_string(), 1, 1).unwrap().value, 3);
}

#[test]
fn savings_import_is_for_the_owner_of_every_goal() {
    let mut ledger = SavingsGoalContract::init();
    let ann = principal("ann");
    let bob = principal("bob");
    ledger.create_goal(&now(), &ann, 0, "a".to_string(), 100, 11).unwrap();
    ledger.create_goal(&now(), &bob, 0, "b".to_string(), 200, 22).unwrap();
    let kept = ledger.goals();

    let snapshot = ledger.export_snapshot(&now(), &bob).unwrap();
    assert_eq!(snapshot.goals, kept);
    assert_eq!(
        ledger.import_snapshot(&now(), &ann, 1, snapshot_of(vec![])).unwrap_err(),
        LedgerError::NotOwner
    );
    assert_eq!(
        ledger.import_snapshot(&now(), &bob, 1, snapshot).unwrap_err(),
        LedgerError::NotOwner
    );
    assert_eq!(ledger.goals(), kept);
    assert_eq!(ledger.get_nonce(&ann), 1);
    assert_eq!(ledger.get_nonce(&bob), 1);

    let mut fresh = SavingsGoalContract::init();
    fresh.import_snapshot(&now(), &ann, 0, snapshot_of(kept.clone())).unwrap();
    assert_eq!(fresh.goals(), kept);
}

#[test]
fn savings_snapshot_tampering_is_refused() {
    let mut ledger = SavingsGoalContract::init();
    let owner = principal("owner");
    ledger.create_goal(&now(), &owner, 0, "a".to_string(), 100, 11).unwrap();
    ledger.add_to_goal(&now(), &owner, 1, 1, 60).unwrap();
    let kept = ledger.goals();
    let genuine = || snapshot_of(vec![goal(1, "owner", 100, 60), goal(2, "owner", 50, 0)]);

    let mut altered = genuine();
    altered.goals[1].current_amount = 1;
    assert_eq!(
        ledger.import_snapshot(&now(), &owner, 2, altered).unwrap_err(),
        LedgerError::ChecksumMismatch
    );
    let mut altered = genuine();
    altered.goals[0].target_amount = 101;
    assert_eq!(
        ledger.import_snapshot(&now(), &owner, 2, altered).unwrap_err(),
        LedgerError::ChecksumMismatch
    );
    let mut altered = genuine();
    altered.goals[0].id = 3;
    assert_eq!(
        ledger.import_snapshot(&now(), &owner, 2, altered).unwrap_err(),
        LedgerError::ChecksumMismatch
    );
    let mut altered = genuine();
    altered.next_id = 3;
    assert_eq!(
        ledger.import_snapshot(&now(), &owner, 2, altered).unwrap_err(),
        LedgerError::ChecksumMismatch
    );
    let mut altered = genuine();
    altered.checksum ^= 1;
    assert_eq!(
        ledger.import_snapshot(&now(), &owner, 2, altered).unwrap_err(),
        LedgerError::ChecksumMismatch
    );
    let mut altered = genuine();
    altered.version = 0;
    assert_eq!(
        ledger.import_snapshot(&now(), &owner, 2, altered).unwrap_err(),
        LedgerError::UnsupportedVersion
    );
    assert_eq!(
        ledger.import_snapshot(&now(), &owner, 0, genuine()).unwrap_err(),
        LedgerError::ReplayRejected
    );
    assert_eq!(
        ledger.import_snapshot(&denied(), &owner, 2, genuine()).unwrap_err(),
        LedgerError::Unauthorized
    );
    assert_eq!(
        ledger.export_snapshot(&denied(), &owner).unwrap_err(),
        LedgerError::Unauthorized
    );
    assert_eq!(ledger.goals(), kept);
    assert_eq!(ledger.get_nonce(&owner), 2);

    ledger.import_snapshot(&now(), &owner, 2, genuine()).unwrap();
    assert_eq!(ledger.goals().len(), 2);
}

#[test]
fn savings_snapshot_must_number_its_goals() {
    let mut ledger = SavingsGoalContract::init();
    let owner = principal("owner");
    let malformed = LedgerError::ValidationFailed(ValidationError::MalformedSnapshot);

    let swapped_goals = vec![goal(2, "owner", 100, 60), goal(1, "owner", 50, 0)];
    assert_eq!(
        ledger.import_snapshot(&now(), &owner, 0, snapshot_of(swapped_goals)).unwrap_err(),
        malformed
    );
    let gap = vec![goal(1, "owner", 100, 60), goal(3, "owner", 50, 0)];
    assert_eq!(ledger.import_snapshot(&now(), &owner, 0, snapshot_of(gap)).unwrap_err(), malformed);
    let twice = vec![goal(1, "owner", 100, 60), goal(1, "owner", 50, 0)];
    assert_eq!(
        ledger.import_snapshot(&now(), &owner, 0, snapshot_of(twice)).unwrap_err(),
        malformed
    );
    let goals = vec![goal(1, "owner", 100, 60)];
    let checksum = SavingsGoalContract::compute_goals_checksum(1, 5, &goals);
    let counter_ahead = GoalsExportSnapshot { version: 1, checksum, next_id: 5, goals };
    assert_eq!(ledger.import_snapshot(&now(), &owner, 0, counter_ahead).unwrap_err(), malformed);
    assert!(ledger.goals().is_empty());

    ledger.import_snapshot(&now(), &owner, 0, snapshot_of(vec![])).unwrap();
    assert!(ledger.goals().is_empty());
    assert_eq!(ledger.get_audit_log(0, 10).len(), 5);
}

#[test]
fn savings_ledger_survives_being_taken_apart() {
    let mut ledger = SavingsGoalContract::init();
    let owner = principal("owner");
    ledger.create_goal(&now(), &owner, 0, "a".to_string(), 100, 11).unwrap();
    let goals = ledger.goals();
    let nonces = ledger.orchestrator().nonces().entries();
    let log = ledger.orchestrator().get_audit_log(0, 100);

    let nonces = ledger_core::NonceTable::from_entries(nonces).unwrap();
    let audit = ledger_core::AuditLog::from_entries(log).unwrap();
    let core = ledger_core::Orchestrator::from_parts(nonces, audit);
    let mut rebuilt = SavingsGoalContract::from_parts(goals, core).unwrap();
    assert_eq!(rebuilt.get_nonce(&owner), 1);
    assert_eq!(rebuilt.get_audit_log(0, 10).len(), 1);
    assert_eq!(rebuilt.add_to_goal(&now(), &owner, 1, 1, 7).unwrap().value, 7);

    let core = ledger_core::Orchestrator::new();
    assert!(SavingsGoalContract::from_parts(vec![goal(2, "owner", 1, 0)], core).is_none());
}
