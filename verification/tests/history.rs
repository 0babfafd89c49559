use ledger_core::{
    AuditEntry, AuditLog, CallContext, Event, LedgerError, NonceTable, Operation, Orchestrator,
    Principal, Receipt, RemittanceSplit, SplitConfig, SplitEvent, MAX_AUDIT_ENTRIES,
};

fn principal(id: &str) -> Principal {
    Principal::new(id.to_string())
}

fn entry(timestamp: u64) -> AuditEntry {
    AuditEntry { operation: Operation::Add, caller: principal("caller"), timestamp, success: true }
}

#[test]
fn principals_are_told_apart_by_their_identifier() {
    let a = principal("GABC");
    assert!(a.same(&principal("GABC")));
    assert!(!a.same(&principal("GABD")));
    assert!(!a.same(&principal("")));
    assert_eq!(a.id(), "GABC");
    assert!(a.clone().same(&a));
}

#[test]
fn nonce_table_counts_per_principal() {
    let mut table = NonceTable::new();
    let ann = principal("ann");
    let bob = principal("bob");
    assert_eq!(table.expected_nonce(&ann), 0);
    assert_eq!(table.require_nonce(&ann, 0), Ok(()));
    assert_eq!(table.require_nonce(&ann, 1), Err(LedgerError::ReplayRejected));
    assert_eq!(table.expected_nonce(&ann), 0);

    assert_eq!(table.advance_nonce(&ann), Ok(()));
    assert_eq!(table.advance_nonce(&ann), Ok(()));
    assert_eq!(table.advance_nonce(&bob), Ok(()));
    assert_eq!(table.expected_nonce(&ann), 2);
    assert_eq!(table.expected_nonce(&bob), 1);
    assert_eq!(table.require_nonce(&ann, 2), Ok(()));
    assert_eq!(table.require_nonce(&ann, 1), Err(LedgerError::ReplayRejected));
    assert_eq!(table.require_nonce(&ann, 0), Err(LedgerError::ReplayRejected));

    let mut entries = table.entries();
    entries.sort_by(|a, b| a.0.id().cmp(b.0.id()));
    assert_eq!(entries, vec![(ann, 2), (bob, 1)]);
}

#[test]
fn nonce_at_its_largest_value_cannot_advance() {
    let ann = principal("ann");
    let mut table = NonceTable::from_entries(vec![(ann.clone(), u64::MAX)]).unwrap();
    assert_eq!(table.expected_nonce(&ann), u64::MAX);
    assert_eq!(table.advance_nonce(&ann), Err(LedgerError::ArithmeticOverflow));
    assert_eq!(table.expected_nonce(&ann), u64::MAX);

    let nonces = NonceTable::from_entries(vec![(ann.clone(), u64::MAX)]).unwrap();
    let core = Orchestrator::from_parts(nonces, AuditLog::new());
    let mut split = RemittanceSplit::from_parts(None, core).unwrap();
    let ctx = CallContext { authorized: true, timestamp: 3 };
    assert_eq!(
        split.initialize_split(&ctx, &ann, u64::MAX, 50, 30, 15, 5).unwrap_err(),
        LedgerError::ArithmeticOverflow
    );
    assert!(split.get_config().is_none());
    assert_eq!(split.get_nonce(&ann), u64::MAX);
    let log = split.get_audit_log(0, 10);
    assert_eq!(log.len(), 1);
    assert!(!log[0].success);
}

#[test]
fn nonce_table_refuses_a_principal_listed_twice() {
    let ann = principal("ann");
    let bob = principal("bob");
    assert!(NonceTable::from_entries(vec![(ann.clone(), 1), (bob.clone(), 2), (ann.clone(), 3)])
        .is_none());
    assert!(NonceTable::from_entries(vec![(ann.clone(), 1), (ann.clone(), 1)]).is_none());
    let table = NonceTable::from_entries(vec![(ann.clone(), 4), (bob.clone(), 9)]).unwrap();
    assert_eq!(table.expected_nonce(&ann), 4);
    assert_eq!(table.expected_nonce(&bob), 9);
    assert_eq!(table.expected_nonce(&principal("carol")), 0);
    assert!(NonceTable::from_entries(vec![]).is_some());
}

#[test]
fn audit_log_drops_the_oldest_entry_when_full() {
    assert_eq!(MAX_AUDIT_ENTRIES, 100);
    let mut log = AuditLog::new();
    assert_eq!(log.len(), 0);
    for timestamp in 0..100 {
        log.append(entry(timestamp));
    }
    assert_eq!(log.len(), 100);
    assert_eq!(log.read(0, 1)[0].timestamp, 0);

    log.append(entry(100));
    assert_eq!(log.len(), 100);
    let page = log.read(0, 200);
    assert_eq!(page.len(), 100);
    assert_eq!(page[0].timestamp, 1);
    assert_eq!(page[99].timestamp, 100);

    log.append(entry(101));
    let page = log.read(0, 100);
    let timestamps: Vec<u64> = page.iter().map(|e| e.timestamp).collect();
    assert_eq!(timestamps, (2..=101).collect::<Vec<u64>>());
}

#[test]
fn audit_log_reads_bounded_pages() {
    let mut log = AuditLog::new();
    assert!(log.read(0, 10).is_empty());
    for timestamp in 0..5 {
        log.append(entry(timestamp));
    }
    let stamps = |page: Vec<AuditEntry>| page.iter().map(|e| e.timestamp).collect::<Vec<u64>>();
    assert_eq!(stamps(log.read(0, 10)), vec![0, 1, 2, 3, 4]);
    assert_eq!(stamps(log.read(1, 2)), vec![1, 2]);
    assert_eq!(stamps(log.read(3, 2)), vec![3, 4]);
    assert_eq!(stamps(log.read(3, 3)), vec![3, 4]);
    assert_eq!(stamps(log.read(4, u32::MAX)), vec![4]);
    assert!(log.read(5, 1).is_empty());
    assert!(log.read(6, 1).is_empty());
    assert!(log.read(2, 0).is_empty());
}

#[test]
fn audit_log_is_rebuilt_only_within_its_capacity() {
    let entries: Vec<AuditEntry> = (0..100).map(entry).collect();
    let log = AuditLog::from_entries(entries).unwrap();
    assert_eq!(log.len(), 100);
    assert_eq!(log.read(99, 1)[0].timestamp, 99);
    let too_many: Vec<AuditEntry> = (0..101).map(entry).collect();
    assert!(AuditLog::from_entries(too_many).is_none());
}

#[test]
fn operation_tags() {
    assert_eq!(Operation::Init.tag(), "init");
    assert_eq!(Operation::Update.tag(), "update");
    assert_eq!(Operation::Distribute.tag(), "distrib");
    assert_eq!(Operation::Import.tag(), "import");
    assert_eq!(Operation::Create.tag(), "create");
    assert_eq!(Operation::Add.tag(), "add");
    assert_eq!(Operation::Withdraw.tag(), "withdraw");
    assert_eq!(Operation::Lock.tag(), "lock");
    assert_eq!(Operation::Unlock.tag(), "unlock");
    assert_eq!(Operation::Pay.tag(), "pay");
    assert_eq!(Operation::Deactivate.tag(), "deactiv");
}

#[test]
fn orchestrator_decides_and_settles() {
    let mut core = Orchestrator::new();
    let ann = principal("ann");
    let ctx = CallContext { authorized: true, timestamp: 42 };
    assert_eq!(core.decide(&ann, 0, Ok::<u8, LedgerError>(7)), Ok(7));
    assert_eq!(core.decide(&ann, 1, Ok::<u8, LedgerError>(7)), Err(LedgerError::ReplayRejected));
    assert_eq!(
        core.decide(&ann, 1, Err::<u8, LedgerError>(LedgerError::NotOwner)),
        Err(LedgerError::ReplayRejected)
    );
    assert_eq!(
        core.decide(&ann, 0, Err::<u8, LedgerError>(LedgerError::NotOwner)),
        Err(LedgerError::NotOwner)
    );
    core.settle(&ctx, Operation::Lock, &ann, false);
    assert_eq!(core.get_nonce(&ann), 0);
    core.settle(&ctx, Operation::Lock, &ann, true);
    assert_eq!(core.get_nonce(&ann), 1);
    assert_eq!(
        core.get_audit_log(0, 5),
        vec![
            AuditEntry { operation: Operation::Lock, caller: ann.clone(), timestamp: 42, success: false },
            AuditEntry { operation: Operation::Lock, caller: ann.clone(), timestamp: 42, success: true },
        ]
    );
}

#[test]
fn split_ledger_is_rebuilt_only_with_a_whole_split() {
    let config = |insurance_percent| SplitConfig {
        owner: principal("owner"),
        spending_percent: 50,
        savings_percent: 30,
        bills_percent: 15,
        insurance_percent,
        initialized: true,
    };
    assert!(RemittanceSplit::from_parts(Some(config(5)), Orchestrator::new()).is_some());
    assert!(RemittanceSplit::from_parts(Some(config(6)), Orchestrator::new()).is_none());
    assert!(RemittanceSplit::from_parts(None, Orchestrator::new()).is_some());
    let split = RemittanceSplit::from_parts(Some(config(5)), Orchestrator::new()).unwrap();
    assert_eq!(split.get_split(), vec![50, 30, 15, 5]);
    assert_eq!(split.orchestrator().get_nonce(&principal("owner")), 0);
}

#[test]
fn operations_are_found_by_their_tags() {
    let all = [
        Operation::Init,
        Operation::Update,
        Operation::Distribute,
        Operation::Import,
        Operation::Create,
        Operation::Add,
        Operation::Withdraw,
        Operation::Lock,
        Operation::Unlock,
        Operation::Pay,
        Operation::Deactivate,
    ];
    for operation in all {
        assert_eq!(Operation::from_tag(&operation.tag().to_string()), Some(operation));
    }
    assert_eq!(Operation::from_tag(&"Init".to_string()), None);
    assert_eq!(Operation::from_tag(&"deactivate".to_string()), None);
    assert_eq!(Operation::from_tag(&String::new()), None);
}

#[test]
fn events_carry_their_identifiers() {
    let ann = principal("ann");
    assert_eq!(
        Event::about_principal(SplitEvent::Updated, &ann),
        Event { kind: SplitEvent::Updated, record_id: None, principal: Some(ann.clone()), amount: None }
    );
    assert_eq!(
        Event::about_amount(SplitEvent::Calculated, 12),
        Event { kind: SplitEvent::Calculated, record_id: None, principal: None, amount: Some(12) }
    );
    assert_eq!(
        Event::about_record(SplitEvent::Updated, 3, &ann),
        Event { kind: SplitEvent::Updated, record_id: Some(3), principal: Some(ann.clone()), amount: None }
    );
    assert_eq!(
        Event::about_movement(SplitEvent::Updated, 3, &ann, -4),
        Event { kind: SplitEvent::Updated, record_id: Some(3), principal: Some(ann.clone()), amount: Some(-4) }
    );

    let silent: Receipt<u8, SplitEvent> = Receipt::silent(5);
    assert_eq!(silent.value, 5);
    assert!(silent.events.is_empty());
    let one = Receipt::with_event(6u8, Event::about_amount(SplitEvent::Calculated, 1));
    assert_eq!(one.value, 6);
    assert_eq!(one.events, vec![Event::about_amount(SplitEvent::Calculated, 1)]);
    let two = Receipt::with_events(
        7u8,
        Event::about_amount(SplitEvent::Calculated, 1),
        Event::about_amount(SplitEvent::Calculated, 2),
    );
    assert_eq!(two.value, 7);
    assert_eq!(
        two.events,
        vec![
            Event::about_amount(SplitEvent::Calculated, 1),
            Event::about_amount(SplitEvent::Calculated, 2),
        ]
    );
}
