use ledger_core::{
    Bill, BillEvent, BillPayments, CallContext, Event, LedgerError, Operation, Orchestrator, Principal,
    ValidationError,
};

fn principal(id: &str) -> Principal {
    Principal::new(id.to_string())
}

fn about_record<K>(kind: K, record_id: u32, principal: &Principal) -> Event<K> {
    Event { kind, record_id: Some(record_id), principal: Some(principal.clone()), amount: None }
}

fn now() -> CallContext {
    CallContext { authorized: true, timestamp: 1_700_000_000 }
}

fn denied() -> CallContext {
    CallContext { authorized: false, timestamp: 1_700_000_000 }
}

#[test]
fn bills_are_created_unpaid_and_numbered() {
    let mut ledger = BillPayments::new();
    let owner = principal("owner");
    let created = ledger
        .create_bill(&now(), &owner, 0, "Electricity".to_string(), 120, 5_000, false, 0)
        .unwrap();
    assert_eq!(created.value, 1);
    assert_eq!(created.events, vec![about_record(BillEvent::Created, 1, &owner)]);
    let second = ledger
        .create_bill(&now(), &owner, 1, "School Fees".to_string(), 900, 6_000, true, 30)
        .unwrap();
    assert_eq!(second.value, 2);
    assert_eq!(
        ledger.get_bill(2).unwrap(),
        Bill {
            id: 2,
            owner: owner.clone(),
            name: "School Fees".to_string(),
            amount: 900,
            due_date: 6_000,
            recurring: true,
            frequency_days: 30,
            paid: false,
        }
    );
    assert!(ledger.get_bill(0).is_none());
    assert!(ledger.get_bill(3).is_none());
    assert_eq!(ledger.get_total_unpaid(&owner), Ok(1020));
    assert_eq!(ledger.get_nonce(&owner), 2);
}

#[test]
fn paying_a_recurring_bill_schedules_the_next_one() {
    let mut ledger = BillPayments::new();
    let owner = principal("owner");
    ledger.create_bill(&now(), &owner, 0, "Rent".to_string(), 700, 1_000, true, 30).unwrap();
    let paid = ledger.pay_bill(&now(), &owner, 1, 1).unwrap();
    assert!(paid.value);
    assert_eq!(paid.events, vec![about_record(BillEvent::Paid, 1, &owner)]);

    assert!(ledger.get_bill(1).unwrap().paid);
    assert_eq!(
        ledger.get_bill(2).unwrap(),
        Bill {
            id: 2,
            owner: owner.clone(),
            name: "Rent".to_string(),
            amount: 700,
            due_date: 1_000 + 30 * 86_400,
            recurring: true,
            frequency_days: 30,
            paid: false,
        }
    );
    let unpaid: Vec<u32> = ledger.get_unpaid_bills(&owner).iter().map(|b| b.id).collect();
    assert_eq!(unpaid, vec![2]);
    assert_eq!(ledger.get_total_unpaid(&owner), Ok(700));
    assert_eq!(ledger.bills().len(), 2);
}

#[test]
fn paying_a_single_bill_leaves_no_successor() {
    let mut ledger = BillPayments::new();
    let owner = principal("owner");
    ledger.create_bill(&now(), &owner, 0, "Repair".to_string(), 45, 1_000, false, 7).unwrap();
    ledger.pay_bill(&now(), &owner, 1, 1).unwrap();
    assert!(ledger.get_bill(1).unwrap().paid);
    assert!(ledger.get_bill(2).is_none());
    assert!(ledger.get_unpaid_bills(&owner).is_empty());
    assert_eq!(ledger.get_total_unpaid(&owner), Ok(0));
}

#[test]
fn bill_refusals_name_the_broken_rule() {
    let mut ledger = BillPayments::new();
    let owner = principal("owner");
    let stranger = principal("stranger");

    assert_eq!(
        ledger.create_bill(&denied(), &owner, 0, "x".to_string(), 1, 1, false, 0).unwrap_err(),
        LedgerError::Unauthorized
    );
    assert!(ledger.get_audit_log(0, 10).is_empty());
    assert_eq!(
        ledger.create_bill(&now(), &owner, 0, "x".to_string(), 0, 1, false, 0).unwrap_err(),
        LedgerError::ValidationFailed(ValidationError::NonPositiveAmount)
    );
    assert_eq!(
        ledger.create_bill(&now(), &owner, 0, "x".to_string(), 1, 1, true, 0).unwrap_err(),
        LedgerError::ValidationFailed(ValidationError::ZeroFrequency)
    );
    assert_eq!(
        ledger.create_bill(&now(), &owner, 4, "x".to_string(), 1, 1, false, 0).unwrap_err(),
        LedgerError::ReplayRejected
    );
    assert!(ledger.bills().is_empty());
    ledger.create_bill(&now(), &owner, 0, "x".to_string(), 10, u64::MAX, true, 1).unwrap();
    ledger.create_bill(&now(), &owner, 1, "y".to_string(), 10, 5, false, 0).unwrap();

    assert_eq!(
        ledger.pay_bill(&now(), &owner, 2, 3).unwrap_err(),
        LedgerError::ValidationFailed(ValidationError::RecordNotFound)
    );
    assert_eq!(
        ledger.pay_bill(&now(), &stranger, 0, 2).unwrap_err(),
        LedgerError::ValidationFailed(ValidationError::WrongOwner)
    );
    assert_eq!(ledger.pay_bill(&now(), &owner, 2, 1).unwrap_err(), LedgerError::ArithmeticOverflow);
    assert!(!ledger.get_bill(1).unwrap().paid);
    assert_eq!(ledger.pay_bill(&denied(), &owner, 2, 2).unwrap_err(), LedgerError::Unauthorized);
    ledger.pay_bill(&now(), &owner, 2, 2).unwrap();
    assert_eq!(
        ledger.pay_bill(&now(), &owner, 3, 2).unwrap_err(),
        LedgerError::ValidationFailed(ValidationError::AlreadyPaid)
    );
    assert_eq!(ledger.pay_bill(&now(), &owner, 2, 2).unwrap_err(), LedgerError::ReplayRejected);
    assert_eq!(ledger.get_nonce(&owner), 3);

    let log = ledger.get_audit_log(0, 100);
    let seen: Vec<(Operation, bool)> = log.iter().map(|e| (e.operation, e.success)).collect();
    assert_eq!(
        seen,
        vec![
            (Operation::Create, false),
            (Operation::Create, false),
            (Operation::Create, false),
            (Operation::Create, true),
            (Operation::Create, true),
            (Operation::Pay, false),
            (Operation::Pay, false),
            (Operation::Pay, false),
            (Operation::Pay, true),
            (Operation::Pay, false),
            (Operation::Pay, false),
        ]
    );
}

#[test]
fn unpaid_bills_are_listed_per_owner() {
    let mut ledger = BillPayments::new();
    let ann = principal("ann");
    let bob = principal("bob");
    ledger.create_bill(&now(), &ann, 0, "a".to_string(), 10, 1, false, 0).unwrap();
    ledger.create_bill(&now(), &bob, 0, "b".to_string(), 20, 1, false, 0).unwrap();
    ledger.create_bill(&now(), &ann, 1, "c".to_string(), 30, 1, false, 0).unwrap();
    ledger.create_bill(&now(), &ann, 2, "d".to_string(), 40, 1, false, 0).unwrap();
    ledger.pay_bill(&now(), &ann, 3, 3).unwrap();

    let of_ann: Vec<u32> = ledger.get_unpaid_bills(&ann).iter().map(|b| b.id).collect();
    assert_eq!(of_ann, vec![1, 4]);
    assert_eq!(ledger.get_total_unpaid(&ann), Ok(50));
    assert_eq!(ledger.get_total_unpaid(&bob), Ok(20));
    assert_eq!(ledger.get_total_unpaid(&principal("carol")), Ok(0));
}

#[test]
fn total_of_unpaid_bills_reports_overflow() {
    let mut ledger = BillPayments::new();
    let owner = principal("owner");
    ledger.create_bill(&now(), &owner, 0, "a".to_string(), i128::MAX, 1, false, 0).unwrap();
    assert_eq!(ledger.get_total_unpaid(&owner), Ok(i128::MAX));
    ledger.create_bill(&now(), &owner, 1, "b".to_string(), 1, 1, false, 0).unwrap();
    assert_eq!(ledger.get_total_unpaid(&owner), Err(LedgerError::ArithmeticOverflow));
    ledger.pay_bill(&now(), &owner, 2, 1).unwrap();
    assert_eq!(ledger.get_total_unpaid(&owner), Ok(1));
}

#[test]
fn bill_ledger_is_rebuilt_only_from_sound_parts() {
    let owner = principal("owner");
    let bill = |id: u32, amount: i128| Bill {
        id,
        owner: owner.clone(),
        name: "x".to_string(),
        amount,
        due_date: 1,
        recurring: false,
        frequency_days: 0,
        paid: false,
    };
    assert!(BillPayments::from_parts(vec![bill(1, 5), bill(2, 6)], Orchestrator::new()).is_some());
    assert!(BillPayments::from_parts(vec![bill(1, 5), bill(3, 6)], Orchestrator::new()).is_none());
    assert!(BillPayments::from_parts(vec![bill(1, 0)], Orchestrator::new()).is_none());
    let mut ledger = BillPayments::from_parts(vec![bill(1, 5)], Orchestrator::new()).unwrap();
    assert_eq!(
        ledger.create_bill(&now(), &owner, 0, "y".to_string(), 9, 1, false, 0).unwrap().value,
        2
    );
}
