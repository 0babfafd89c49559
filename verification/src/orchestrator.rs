//! The protocol every state-changing call follows: authorization, replay
//! check, the ledger's own validation, and then, in one step, the nonce
//! advance and the audit entry.

use crate::audit::{
    entry_views, log_append, log_read, AuditEntry, AuditEntryView, AuditLog, Operation,
};
use crate::error::{failure_of, LedgerError};
use crate::nonce::{advanced, expected, NonceTable};
use crate::principal::Principal;
use vstd::prelude::*;

verus! {

/// What the host says about the call in progress.
#[derive(Clone, Copy, Debug, PartialEq, Eq, Structural)]
pub struct CallContext {
    /// Whether the host's authorization check confirmed the principal that
    /// the call designates.
    pub authorized: bool,
    /// The host's clock at the time of the call.
    pub timestamp: u64,
}

/// Something for the host to publish: what happened, and the identifiers
/// that tell an observer to which record, which principal and which amount
/// it happened.
#[derive(Debug, PartialEq, Eq)]
pub struct Event<K> {
    pub kind: K,
    pub record_id: Option<u32>,
    pub principal: Option<Principal>,
    pub amount: Option<i128>,
}

/// What an [`Event`] says, with the principal as its identifier.
pub ghost struct EventView<K> {
    pub kind: K,
    pub record_id: Option<u32>,
    pub principal: Option<Seq<char>>,
    pub amount: Option<i128>,
}

impl<K> View for Event<K> {
    type V = EventView<K>;

    open spec fn view(&self) -> EventView<K> {
        EventView {
            kind: self.kind,
            record_id: self.record_id,
            principal: match self.principal {
                Some(p) => Some(p@),
                None => None,
            },
            amount: self.amount,
        }
    }
}

/// What a sequence of events says, event by event.
pub open spec fn event_views<K>(events: Seq<Event<K>>) -> Seq<EventView<K>> {
    Seq::new(events.len(), |i: int| events[i]@)
}

/// The event about a principal alone.
pub open spec fn principal_event<K>(kind: K, principal: Seq<char>) -> EventView<K> {
    EventView { kind, record_id: None, principal: Some(principal), amount: None }
}

/// The event about an amount alone.
pub open spec fn amount_event<K>(kind: K, amount: i128) -> EventView<K> {
    EventView { kind, record_id: None, principal: None, amount: Some(amount) }
}

/// The event about a record and the principal who acted on it.
pub open spec fn record_event<K>(kind: K, record_id: u32, principal: Seq<char>) -> EventView<K> {
    EventView { kind, record_id: Some(record_id), principal: Some(principal), amount: None }
}

/// The event about an amount that a principal moved into or out of a
/// record.
pub open spec fn movement_event<K>(kind: K, record_id: u32, principal: Seq<char>, amount: i128)
    -> EventView<K> {
    EventView { kind, record_id: Some(record_id), principal: Some(principal), amount: Some(amount) }
}

impl<K> Event<K> {
    /// The event of [`principal_event`].
    pub fn about_principal(kind: K, principal: &Principal) -> (event: Event<K>)
        ensures
            event@ == principal_event(kind, principal@),
    {
        Event { kind, record_id: None, principal: Some(principal.clone()), amount: None }
    }

    /// The event of [`amount_event`].
    pub fn about_amount(kind: K, amount: i128) -> (event: Event<K>)
        ensures
            event@ == amount_event(kind, amount),
    {
        Event { kind, record_id: None, principal: None, amount: Some(amount) }
    }

    /// The event of [`record_event`].
    pub fn about_record(kind: K, record_id: u32, principal: &Principal) -> (event: Event<K>)
        ensures
            event@ == record_event(kind, record_id, principal@),
    {
        Event { kind, record_id: Some(record_id), principal: Some(principal.clone()), amount: None }
    }

    /// The event of [`movement_event`].
    pub fn about_movement(kind: K, record_id: u32, principal: &Principal, amount: i128) -> (event:
        Event<K>)
        ensures
            event@ == movement_event(kind, record_id, principal@, amount),
    {
        Event {
            kind,
            record_id: Some(record_id),
            principal: Some(principal.clone()),
            amount: Some(amount),
        }
    }
}

/// What a successful call hands back: its result, and the events the host
/// is to publish for it, in order.
#[derive(Debug)]
pub struct Receipt<T, K> {
    pub value: T,
    pub events: Vec<Event<K>>,
}

impl<T, K> Receipt<T, K> {
    /// A receipt without events.
    pub fn silent(value: T) -> (receipt: Receipt<T, K>)
        ensures
            receipt.value == value,
            event_views(receipt.events@) == Seq::<EventView<K>>::empty(),
    {
        let receipt = Receipt { value, events: Vec::new() };
        assert(event_views(receipt.events@) =~= Seq::<EventView<K>>::empty());
        receipt
    }

    /// A receipt with one event.
    pub fn with_event(value: T, event: Event<K>) -> (receipt: Receipt<T, K>)
        ensures
            receipt.value == value,
            event_views(receipt.events@) == seq![event@],
    {
        let mut events: Vec<Event<K>> = Vec::new();
        events.push(event);
        let receipt = Receipt { value, events };
        assert(event_views(receipt.events@) =~= seq![event@]);
        receipt
    }

    /// A receipt with two events.
    pub fn with_events(value: T, first: Event<K>, second: Event<K>) -> (receipt: Receipt<T, K>)
        ensures
            receipt.value == value,
            event_views(receipt.events@) == seq![first@, second@],
    {
        let mut events: Vec<Event<K>> = Vec::new();
        events.push(first);
        events.push(second);
        let receipt = Receipt { value, events };
        assert(event_views(receipt.events@) =~= seq![first@, second@]);
        receipt
    }
}

/// The nonces and the audit history of a ledger.
pub ghost struct OrchestratorView {
    pub nonces: Map<Seq<char>, u64>,
    pub audit: Seq<AuditEntryView>,
}

/// How an authorized call ends: `None` for success, else the first check it
/// fails. The replay check comes first, then the ledger's own verdict
/// (`domain`), and last the room left in the nonce counter.
pub open spec fn verdict(
    before: OrchestratorView,
    caller: Seq<char>,
    nonce: u64,
    domain: Option<LedgerError>,
) -> Option<LedgerError> {
    if nonce != expected(before.nonces, caller) {
        Some(LedgerError::ReplayRejected)
    } else if domain is Some {
        domain
    } else if nonce == u64::MAX {
        Some(LedgerError::ArithmeticOverflow)
    } else {
        None
    }
}

/// The nonces and the audit history after an authorized call: one more
/// audit entry whatever the outcome, and the caller's nonce advanced if the
/// call succeeded.
pub open spec fn settled(
    before: OrchestratorView,
    ctx: CallContext,
    operation: Operation,
    caller: Seq<char>,
    success: bool,
) -> OrchestratorView {
    OrchestratorView {
        nonces: if success {
            advanced(before.nonces, caller)
        } else {
            before.nonces
        },
        audit: log_append(
            before.audit,
            AuditEntryView { operation, caller, timestamp: ctx.timestamp, success },
        ),
    }
}

/// The whole protocol as a relation between the state before and after a
/// call and the call's outcome. An unauthorized call is refused and leaves
/// no trace; an authorized one ends as `verdict` says and is settled.
pub open spec fn follows_protocol(
    before: OrchestratorView,
    after: OrchestratorView,
    ctx: CallContext,
    operation: Operation,
    caller: Seq<char>,
    nonce: u64,
    domain: Option<LedgerError>,
    failure: Option<LedgerError>,
) -> bool {
    if !ctx.authorized {
        failure == Some(LedgerError::Unauthorized) && after == before
    } else {
        failure == verdict(before, caller, nonce, domain) && after == settled(
            before,
            ctx,
            operation,
            caller,
            failure is None,
        )
    }
}

/// The nonce guard and the audit log of one ledger.
pub struct Orchestrator {
    nonces: NonceTable,
    audit: AuditLog,
}

impl View for Orchestrator {
    type V = OrchestratorView;

    closed spec fn view(&self) -> OrchestratorView {
        OrchestratorView { nonces: self.nonces@, audit: self.audit@ }
    }
}

impl Orchestrator {
    /// Both parts are well formed.
    pub closed spec fn wf(&self) -> bool {
        self.nonces.wf() && self.audit.wf()
    }

    /// No principal seen, nothing logged.
    pub fn new() -> (core: Orchestrator)
        ensures
            core.wf(),
            core@.nonces == Map::<Seq<char>, u64>::empty(),
            core@.audit == Seq::<AuditEntryView>::empty(),
    {
        Orchestrator { nonces: NonceTable::new(), audit: AuditLog::new() }
    }

    /// Puts a nonce table and an audit log together.
    pub fn from_parts(nonces: NonceTable, audit: AuditLog) -> (core: Orchestrator)
        requires
            nonces.wf(),
            audit.wf(),
        ensures
            core.wf(),
            core@.nonces == nonces@,
            core@.audit == audit@,
    {
        Orchestrator { nonces, audit }
    }

    /// The nonce table.
    pub fn nonces(&self) -> (nonces: &NonceTable)
        requires
            self.wf(),
        ensures
            nonces.wf(),
            nonces@ == self@.nonces,
    {
        &self.nonces
    }

    /// The nonce `principal` must present with its next state-changing call.
    pub fn get_nonce(&self, principal: &Principal) -> (n: u64)
        requires
            self.wf(),
        ensures
            n == expected(self@.nonces, principal@),
    {
        self.nonces.expected_nonce(principal)
    }

    /// A page of the audit log, oldest entry first.
    pub fn get_audit_log(&self, from_index: u32, limit: u32) -> (page: Vec<AuditEntry>)
        ensures
            entry_views(page@) == log_read(self@.audit, from_index, limit),
    {
        self.audit.read(from_index, limit)
    }

    /// Decides how an authorized call ends, given the ledger's own verdict
    /// on it. Changes nothing.
    pub fn decide<T>(&self, caller: &Principal, nonce: u64, domain: Result<T, LedgerError>) -> (r:
        Result<T, LedgerError>)
        requires
            self.wf(),
        ensures
            failure_of(r) == verdict(self@, caller@, nonce, failure_of(domain)),
            r is Ok ==> r == domain,
    {
        match self.nonces.require_nonce(caller, nonce) {
            Err(e) => Err(e),
            Ok(()) => match domain {
                Err(e) => Err(e),
                Ok(value) => {
                    if nonce == u64::MAX {
                        Err(LedgerError::ArithmeticOverflow)
                    } else {
                        Ok(value)
                    }
                },
            },
        }
    }

    /// Closes an authorized call: writes its audit entry and, if it
    /// succeeded, advances the caller's nonce.
    pub fn settle(&mut self, ctx: &CallContext, operation: Operation, caller: &Principal, success: bool)
        requires
            old(self).wf(),
            success ==> expected(old(self)@.nonces, caller@) < u64::MAX,
        ensures
            final(self).wf(),
            final(self)@ == settled(old(self)@, *ctx, operation, caller@, success),
    {
        if success {
            let _ = self.nonces.advance_nonce(caller);
        }
        self.audit.append(
            AuditEntry { operation, caller: caller.clone(), timestamp: ctx.timestamp, success },
        );
    }
}

/// Where no counter is stored, as in a new ledger, every principal's nonce
/// is 0.
pub proof fn nonce_starts_at_zero(principal: Seq<char>)
    ensures
        expected(Map::<Seq<char>, u64>::empty(), principal) == 0,
{
}

/// A call that follows the protocol moves the caller's nonce on by exactly
/// one if it succeeds and leaves it alone if it fails; no call touches the
/// nonce of anyone else.
pub proof fn nonce_advances_only_on_success(
    before: OrchestratorView,
    after: OrchestratorView,
    ctx: CallContext,
    operation: Operation,
    caller: Seq<char>,
    nonce: u64,
    domain: Option<LedgerError>,
    failure: Option<LedgerError>,
    other: Seq<char>,
)
    requires
        follows_protocol(before, after, ctx, operation, caller, nonce, domain, failure),
    ensures
        failure is None ==> expected(after.nonces, caller) == expected(before.nonces, caller) + 1,
        failure is None ==> nonce == expected(before.nonces, caller),
        failure is Some ==> expected(after.nonces, caller) == expected(before.nonces, caller),
        other != caller ==> expected(after.nonces, other) == expected(before.nonces, other),
{
}

/// Once a call has succeeded, a second authorized call by the same
/// principal with the same nonce is refused as a replay, whatever the
/// ledger itself would have said to it.
pub proof fn replay_is_rejected(
    before: OrchestratorView,
    after: OrchestratorView,
    ctx: CallContext,
    operation: Operation,
    caller: Seq<char>,
    nonce: u64,
    domain: Option<LedgerError>,
    second_domain: Option<LedgerError>,
)
    requires
        follows_protocol(before, after, ctx, operation, caller, nonce, domain, None),
    ensures
        verdict(after, caller, nonce, second_domain) == Some(LedgerError::ReplayRejected),
{
}

/// A call refused because its nonce was not the expected one is refused
/// for the same reason when it is made again.
pub proof fn refused_replay_stays_refused(
    before: OrchestratorView,
    after: OrchestratorView,
    ctx: CallContext,
    operation: Operation,
    caller: Seq<char>,
    nonce: u64,
    domain: Option<LedgerError>,
    failure: Option<LedgerError>,
    second_domain: Option<LedgerError>,
)
    requires
        follows_protocol(before, after, ctx, operation, caller, nonce, domain, failure),
        nonce != expected(before.nonces, caller),
    ensures
        verdict(after, caller, nonce, second_domain) == Some(LedgerError::ReplayRejected),
{
}

/// A call that carried the expected nonce and was refused all the same
/// has not used its nonce up: made again, it passes the replay check.
pub proof fn refused_call_keeps_its_nonce(
    before: OrchestratorView,
    after: OrchestratorView,
    ctx: CallContext,
    operation: Operation,
    caller: Seq<char>,
    nonce: u64,
    domain: Option<LedgerError>,
    failure: Option<LedgerError>,
)
    requires
        follows_protocol(before, after, ctx, operation, caller, nonce, domain, failure),
        nonce == expected(before.nonces, caller),
        failure is Some,
    ensures
        nonce == expected(after.nonces, caller),
        verdict(after, caller, nonce, domain) == verdict(before, caller, nonce, domain),
{
}

} // verus!
