//! Bills: amounts owed by a due date, once or again and again.

use crate::audit::{entry_views, log_read, AuditEntry, AuditEntryView, Operation};
use crate::error::{failure_of, LedgerError, ValidationError};
use crate::nonce::expected;
use crate::orchestrator::{
    event_views, follows_protocol, record_event, CallContext, Event, Orchestrator,
    OrchestratorView, Receipt,
};
use crate::principal::Principal;
use vstd::prelude::*;

verus! {

/// The length of a day on the host's clock.
pub const SECONDS_PER_DAY: u64 = 86400;

/// What the bill ledger asks the host to publish.
#[derive(Clone, Copy, Debug, PartialEq, Eq, Structural)]
pub enum BillEvent {
    Created,
    Paid,
}

/// One bill.
#[derive(Debug, PartialEq, Eq)]
pub struct Bill {
    pub id: u32,
    pub owner: Principal,
    pub name: String,
    pub amount: i128,
    pub due_date: u64,
    pub recurring: bool,
    pub frequency_days: u32,
    pub paid: bool,
}

/// What a [`Bill`] says, with owner and name as text.
pub ghost struct BillView {
    pub id: u32,
    pub owner: Seq<char>,
    pub name: Seq<char>,
    pub amount: i128,
    pub due_date: u64,
    pub recurring: bool,
    pub frequency_days: u32,
    pub paid: bool,
}

impl View for Bill {
    type V = BillView;

    open spec fn view(&self) -> BillView {
        BillView {
            id: self.id,
            owner: self.owner@,
            name: self.name@,
            amount: self.amount,
            due_date: self.due_date,
            recurring: self.recurring,
            frequency_days: self.frequency_days,
            paid: self.paid,
        }
    }
}

impl Clone for Bill {
    fn clone(&self) -> (copy: Self)
        ensures
            copy@ == self@,
    {
        Bill {
            id: self.id,
            owner: self.owner.clone(),
            name: self.name.clone(),
            amount: self.amount,
            due_date: self.due_date,
            recurring: self.recurring,
            frequency_days: self.frequency_days,
            paid: self.paid,
        }
    }
}

/// What a sequence of bills says, bill by bill.
pub open spec fn bill_views(bills: Seq<Bill>) -> Seq<BillView> {
    Seq::new(bills.len(), |i: int| bills[i]@)
}

/// The state of the bill ledger: every bill ever created, in the order of
/// creation, and the history of the calls.
pub ghost struct BillPaymentsView {
    pub bills: Seq<BillView>,
    pub core: OrchestratorView,
}

/// The bills carry the ids 1, 2, 3, ... in order, the last id fits `u32`,
/// and every amount is positive.
pub open spec fn well_kept(bills: Seq<BillView>) -> bool {
    &&& bills.len() <= u32::MAX
    &&& forall|i: int| 0 <= i < bills.len() ==> (#[trigger] bills[i]).id == i + 1
    &&& forall|i: int| 0 <= i < bills.len() ==> (#[trigger] bills[i]).amount > 0
}

/// The bill with the given id, if there is one.
pub open spec fn bill_at(bills: Seq<BillView>, bill_id: u32) -> Option<BillView> {
    if 1 <= bill_id <= bills.len() {
        Some(bills[bill_id - 1])
    } else {
        None
    }
}

/// The test that picks the unpaid bills of one owner.
pub open spec fn unpaid_of(owner: Seq<char>) -> spec_fn(BillView) -> bool {
    |bill: BillView| !bill.paid && bill.owner == owner
}

/// The amounts of a sequence of bills, added up.
pub open spec fn amounts_total(bills: Seq<BillView>) -> int
    decreases bills.len(),
{
    if bills.len() == 0 {
        0
    } else {
        amounts_total(bills.drop_last()) + bills.last().amount
    }
}

/// The date on which the successor of a recurring bill falls due.
pub open spec fn next_due_date(bill: BillView) -> int {
    bill.due_date + bill.frequency_days * SECONDS_PER_DAY
}

/// The bill that follows a recurring bill once that is paid.
pub open spec fn successor(bill: BillView, id: u32) -> BillView {
    BillView {
        id,
        due_date: next_due_date(bill) as u64,
        recurring: true,
        paid: false,
        ..bill
    }
}

/// The bills after the bill with the given id was paid: it is marked paid
/// and, if it recurs, followed by its successor at the end.
pub open spec fn bills_after_payment(bills: Seq<BillView>, bill_id: u32) -> Seq<BillView> {
    let bill = bills[bill_id - 1];
    let marked = bills.update(bill_id - 1, BillView { paid: true, ..bill });
    if bill.recurring {
        marked.push(successor(bill, (bills.len() + 1) as u32))
    } else {
        marked
    }
}

/// What the creation of a bill objects to, in this order: an amount that
/// is not positive, a recurring bill without a frequency, or an id counter
/// that is exhausted.
pub open spec fn create_bill_check(
    before: BillPaymentsView,
    amount: i128,
    recurring: bool,
    frequency_days: u32,
) -> Option<LedgerError> {
    if amount <= 0 {
        Some(LedgerError::ValidationFailed(ValidationError::NonPositiveAmount))
    } else if recurring && frequency_days == 0 {
        Some(LedgerError::ValidationFailed(ValidationError::ZeroFrequency))
    } else if before.bills.len() >= u32::MAX {
        Some(LedgerError::ArithmeticOverflow)
    } else {
        None
    }
}

/// What a payment objects to, in this order: a missing bill, a foreign
/// bill, a bill paid already, and for a recurring bill a next due date or a
/// next id that leaves its range.
pub open spec fn pay_bill_check(before: BillPaymentsView, caller: Seq<char>, bill_id: u32)
    -> Option<LedgerError> {
    match bill_at(before.bills, bill_id) {
        None => Some(LedgerError::ValidationFailed(ValidationError::RecordNotFound)),
        Some(bill) => if bill.owner != caller {
            Some(LedgerError::ValidationFailed(ValidationError::WrongOwner))
        } else if bill.paid {
            Some(LedgerError::ValidationFailed(ValidationError::AlreadyPaid))
        } else if bill.recurring && (next_due_date(bill) > u64::MAX || before.bills.len()
            >= u32::MAX) {
            Some(LedgerError::ArithmeticOverflow)
        } else {
            None
        },
    }
}

/// The bill ledger: the bills, numbered from 1 in the order of their
/// creation, with the nonces and the audit log of the calls that changed
/// them.
pub struct BillPayments {
    bills: Vec<Bill>,
    core: Orchestrator,
}

impl View for BillPayments {
    type V = BillPaymentsView;

    closed spec fn view(&self) -> BillPaymentsView {
        BillPaymentsView { bills: bill_views(self.bills@), core: self.core@ }
    }
}

fn are_well_kept(bills: &Vec<Bill>) -> (r: bool)
    ensures
        r == well_kept(bill_views(bills@)),
{
    if bills.len() > u32::MAX as usize {
        return false;
    }
    let mut i: usize = 0;
    while i < bills.len()
        invariant
            i <= bills.len() <= u32::MAX,
            forall|k: int| 0 <= k < i ==> (#[trigger] bill_views(bills@)[k]).id == k + 1,
            forall|k: int| 0 <= k < i ==> (#[trigger] bill_views(bills@)[k]).amount > 0,
        decreases bills.len() - i,
    {
        if bills[i].id as usize != i + 1 || bills[i].amount <= 0 {
            assert(bill_views(bills@)[i as int] == bills[i as int]@);
            return false;
        }
        i += 1;
    }
    true
}

/// Adding a bill to a sequence adds its amount to the total.
proof fn lemma_total_push(bills: Seq<BillView>, bill: BillView)
    ensures
        amounts_total(bills.push(bill)) == amounts_total(bills) + bill.amount,
{
    assert(bills.push(bill).drop_last() =~= bills);
}

/// With positive amounts, the total of the bills picked among the first
/// `i` is never negative and never more than the total of all bills picked.
proof fn lemma_partial_total(bills: Seq<BillView>, keep: spec_fn(BillView) -> bool, i: int)
    requires
        0 <= i <= bills.len(),
        forall|k: int| 0 <= k < bills.len() ==> (#[trigger] bills[k]).amount > 0,
    ensures
        0 <= amounts_total(bills.take(i).filter(keep)) <= amounts_total(bills.filter(keep)),
    decreases bills.len() + i,
{
    reveal(Seq::filter);
    if i == 0 {
        assert(bills.take(0) =~= Seq::<BillView>::empty());
        if bills.len() > 0 {
            lemma_partial_total(bills.drop_last(), keep, 0);
            assert(bills.drop_last().take(0) =~= Seq::<BillView>::empty());
            if keep(bills.last()) {
                lemma_total_push(bills.drop_last().filter(keep), bills.last());
            }
        }
    } else if i == bills.len() {
        assert(bills.take(i) =~= bills);
        lemma_partial_total(bills, keep, 0);
        assert(bills.take(0) =~= Seq::<BillView>::empty());
    } else {
        lemma_partial_total(bills.drop_last(), keep, i);
        assert(bills.drop_last().take(i) =~= bills.take(i));
        if keep(bills.last()) {
            lemma_total_push(bills.drop_last().filter(keep), bills.last());
        }
    }
}

impl BillPayments {
    /// The nonces and the audit log are well formed.
    pub closed spec fn history_wf(&self) -> bool {
        self.core.wf()
    }

    /// The history is well formed, the bills are numbered from 1 without a
    /// gap, and their amounts are positive.
    pub open spec fn wf(&self) -> bool {
        &&& self.history_wf()
        &&& well_kept(self@.bills)
    }

    /// A ledger without bills, without history.
    pub fn new() -> (ledger: BillPayments)
        ensures
            ledger.wf(),
            ledger@.bills == Seq::<BillView>::empty(),
            ledger@.core.nonces == Map::<Seq<char>, u64>::empty(),
            ledger@.core.audit == Seq::<AuditEntryView>::empty(),
    {
        let ledger = BillPayments { bills: Vec::new(), core: Orchestrator::new() };
        assert(ledger@.bills =~= Seq::<BillView>::empty());
        ledger
    }

    /// A ledger made of bills and a history, if the bills are numbered from
    /// 1 without a gap and their amounts are positive.
    pub fn from_parts(bills: Vec<Bill>, core: Orchestrator) -> (ledger: Option<BillPayments>)
        requires
            core.wf(),
        ensures
            ledger is Some <==> well_kept(bill_views(bills@)),
            ledger matches Some(l) ==> l.wf() && l@.core == core@ && l@.bills == bill_views(
                bills@,
            ),
    {
        if are_well_kept(&bills) {
            Some(BillPayments { bills, core })
        } else {
            None
        }
    }

    /// The nonces and the audit log.
    pub fn orchestrator(&self) -> (core: &Orchestrator)
        requires
            self.wf(),
        ensures
            core.wf(),
            core@ == self@.core,
    {
        &self.core
    }

    /// Every bill, in the order of the ids.
    pub fn bills(&self) -> (bills: Vec<Bill>)
        ensures
            bill_views(bills@) == self@.bills,
    {
        let mut bills: Vec<Bill> = Vec::new();
        let mut i: usize = 0;
        while i < self.bills.len()
            invariant
                i <= self.bills.len(),
                bills.len() == i,
                forall|k: int| 0 <= k < i ==> (#[trigger] bills[k])@ == self.bills[k]@,
            decreases self.bills.len() - i,
        {
            bills.push(self.bills[i].clone());
            i += 1;
        }
        assert(bill_views(bills@) =~= self@.bills);
        bills
    }

    /// The nonce `address` must present with its next state-changing call.
    pub fn get_nonce(&self, address: &Principal) -> (n: u64)
        requires
            self.wf(),
        ensures
            n == expected(self@.core.nonces, address@),
    {
        self.core.get_nonce(address)
    }

    /// A page of the audit log, oldest entry first, never longer than the
    /// log's capacity.
    pub fn get_audit_log(&self, from_index: u32, limit: u32) -> (page: Vec<AuditEntry>)
        ensures
            entry_views(page@) == log_read(self@.core.audit, from_index, limit),
    {
        self.core.get_audit_log(from_index, limit)
    }

    fn check_create(&self, amount: i128, recurring: bool, frequency_days: u32) -> (r: Result<
        u32,
        LedgerError,
    >)
        requires
            self.wf(),
        ensures
            failure_of(r) == create_bill_check(self@, amount, recurring, frequency_days),
            r matches Ok(id) ==> id == self@.bills.len() + 1,
    {
        if amount <= 0 {
            Err(LedgerError::ValidationFailed(ValidationError::NonPositiveAmount))
        } else if recurring && frequency_days == 0 {
            Err(LedgerError::ValidationFailed(ValidationError::ZeroFrequency))
        } else if self.bills.len() >= u32::MAX as usize {
            Err(LedgerError::ArithmeticOverflow)
        } else {
            Ok(self.bills.len() as u32 + 1)
        }
    }

    /// Creates an unpaid bill for `owner`. Its id is one more than the
    /// number of bills created before it.
    ///
    /// The call follows the protocol with [`create_bill_check`] as its
    /// validation. On success the new bill is the last of the ledger's
    /// bills, the answer is its id, and `Created` is to be published; on
    /// failure the bills are what they were.
    pub fn create_bill(
        &mut self,
        ctx: &CallContext,
        owner: &Principal,
        nonce: u64,
        name: String,
        amount: i128,
        due_date: u64,
        recurring: bool,
        frequency_days: u32,
    ) -> (r: Result<Receipt<u32, BillEvent>, LedgerError>)
        requires
            old(self).wf(),
        ensures
            final(self).wf(),
            follows_protocol(
                old(self)@.core,
                final(self)@.core,
                *ctx,
                Operation::Create,
                owner@,
                nonce,
                create_bill_check(old(self)@, amount, recurring, frequency_days),
                failure_of(r),
            ),
            r is Err ==> final(self)@.bills == old(self)@.bills,
            r matches Ok(receipt) ==> {
                &&& receipt.value == old(self)@.bills.len() + 1
                &&& final(self)@.bills == old(self)@.bills.push(
                    BillView {
                        id: receipt.value,
                        owner: owner@,
                        name: name@,
                        amount,
                        due_date,
                        recurring,
                        frequency_days,
                        paid: false,
                    },
                )
                &&& event_views(receipt.events@) == seq![
                    record_event(BillEvent::Created, receipt.value, owner@),
                ]
            },
    {
        if !ctx.authorized {
            return Err(LedgerError::Unauthorized);
        }
        let checked = self.check_create(amount, recurring, frequency_days);
        match self.core.decide(owner, nonce, checked) {
            Err(e) => {
                self.core.settle(ctx, Operation::Create, owner, false);
                Err(e)
            },
            Ok(id) => {
                let bill = Bill {
                    id,
                    owner: owner.clone(),
                    name,
                    amount,
                    due_date,
                    recurring,
                    frequency_days,
                    paid: false,
                };
                self.bills.push(bill);
                assert(self@.bills =~= old(self)@.bills.push(bill@));
                self.core.settle(ctx, Operation::Create, owner, true);
                Ok(Receipt::with_event(id, Event::about_record(BillEvent::Created, id, owner)))
            },
        }
    }

    fn check_pay(&self, caller: &Principal, bill_id: u32) -> (r: Result<
        (usize, Option<Bill>),
        LedgerError,
    >)
        requires
            self.wf(),
        ensures
            failure_of(r) == pay_bill_check(self@, caller@, bill_id),
            r matches Ok(found) ==> {
                &&& found.0 == bill_id - 1
                &&& found.0 < self.bills.len()
                &&& found.1 is Some <==> self@.bills[bill_id - 1].recurring
                &&& found.1 matches Some(next) ==> next@ == successor(
                    self@.bills[bill_id - 1],
                    (self@.bills.len() + 1) as u32,
                )
            },
    {
        if bill_id < 1 || bill_id as usize > self.bills.len() {
            return Err(LedgerError::ValidationFailed(ValidationError::RecordNotFound));
        }
        let at: usize = bill_id as usize - 1;
        let bill = &self.bills[at];
        if !bill.owner.same(caller) {
            return Err(LedgerError::ValidationFailed(ValidationError::WrongOwner));
        }
        if bill.paid {
            return Err(LedgerError::ValidationFailed(ValidationError::AlreadyPaid));
        }
        if !bill.recurring {
            return Ok((at, None));
        }
        let period: u64 = bill.frequency_days as u64 * SECONDS_PER_DAY;
        let due_date = match bill.due_date.checked_add(period) {
            None => {
                return Err(LedgerError::ArithmeticOverflow);
            },
            Some(date) => date,
        };
        if self.bills.len() >= u32::MAX as usize {
            return Err(LedgerError::ArithmeticOverflow);
        }
        let next = Bill {
            id: self.bills.len() as u32 + 1,
            owner: bill.owner.clone(),
            name: bill.name.clone(),
            amount: bill.amount,
            due_date,
            recurring: true,
            frequency_days: bill.frequency_days,
            paid: false,
        };
        Ok((at, Some(next)))
    }

    /// Marks a bill as paid; only its owner may. A recurring bill is
    /// followed by a new unpaid bill that falls due one period later.
    ///
    /// The call follows the protocol with [`pay_bill_check`] as its
    /// validation. On success the bills are those of
    /// [`bills_after_payment`] and `Paid` is to be published; on failure
    /// the bills are what they were.
    pub fn pay_bill(&mut self, ctx: &CallContext, caller: &Principal, nonce: u64, bill_id: u32)
        -> (r: Result<Receipt<bool, BillEvent>, LedgerError>)
        requires
            old(self).wf(),
        ensures
            final(self).wf(),
            follows_protocol(
                old(self)@.core,
                final(self)@.core,
                *ctx,
                Operation::Pay,
                caller@,
                nonce,
                pay_bill_check(old(self)@, caller@, bill_id),
                failure_of(r),
            ),
            r is Err ==> final(self)@.bills == old(self)@.bills,
            r matches Ok(receipt) ==> {
                &&& final(self)@.bills == bills_after_payment(old(self)@.bills, bill_id)
                &&& receipt.value
                &&& event_views(receipt.events@) == seq![
                    record_event(BillEvent::Paid, bill_id, caller@),
                ]
            },
    {
        if !ctx.authorized {
            return Err(LedgerError::Unauthorized);
        }
        let checked = self.check_pay(caller, bill_id);
        match self.core.decide(caller, nonce, checked) {
            Err(e) => {
                self.core.settle(ctx, Operation::Pay, caller, false);
                Err(e)
            },
            Ok((at, next)) => {
                let bill = &self.bills[at];
                let marked = Bill {
                    id: bill.id,
                    owner: bill.owner.clone(),
                    name: bill.name.clone(),
                    amount: bill.amount,
                    due_date: bill.due_date,
                    recurring: bill.recurring,
                    frequency_days: bill.frequency_days,
                    paid: true,
                };
                self.bills[at] = marked;
                assert(self@.bills =~= old(self)@.bills.update(at as int, marked@));
                match next {
                    Some(next_bill) => {
                        let ghost so_far = self@.bills;
                        self.bills.push(next_bill);
                        assert(self@.bills =~= so_far.push(next_bill@));
                    },
                    None => {},
                }
                self.core.settle(ctx, Operation::Pay, caller, true);
                Ok(Receipt::with_event(true, Event::about_record(BillEvent::Paid, bill_id, caller)))
            },
        }
    }

    /// The bill with the given id, if there is one.
    pub fn get_bill(&self, bill_id: u32) -> (bill: Option<Bill>)
        ensures
            bill is Some <==> bill_at(self@.bills, bill_id) is Some,
            bill matches Some(b) ==> Some(b@) == bill_at(self@.bills, bill_id),
    {
        if 1 <= bill_id && bill_id as usize <= self.bills.len() {
            Some(self.bills[bill_id as usize - 1].clone())
        } else {
            None
        }
    }

    /// The unpaid bills of `owner`, in the order of their ids.
    pub fn get_unpaid_bills(&self, owner: &Principal) -> (unpaid: Vec<Bill>)
        ensures
            bill_views(unpaid@) == self@.bills.filter(unpaid_of(owner@)),
    {
        let ghost all = self@.bills;
        let mut unpaid: Vec<Bill> = Vec::new();
        let mut i: usize = 0;
        proof {
            reveal(Seq::filter);
            assert(all.take(0) =~= Seq::<BillView>::empty());
            assert(bill_views(unpaid@) =~= all.take(0).filter(unpaid_of(owner@)));
        }
        while i < self.bills.len()
            invariant
                i <= self.bills.len(),
                all == self@.bills,
                all.len() == self.bills.len(),
                bill_views(unpaid@) == all.take(i as int).filter(unpaid_of(owner@)),
            decreases self.bills.len() - i,
        {
            let ghost so_far = bill_views(unpaid@);
            proof {
                reveal(Seq::filter);
                let next = all.take(i as int + 1);
                assert(next.drop_last() =~= all.take(i as int));
                assert(next.last() == self.bills[i as int]@);
            }
            if !self.bills[i].paid && self.bills[i].owner.same(owner) {
                unpaid.push(self.bills[i].clone());
                assert(bill_views(unpaid@) =~= so_far.push(self.bills[i as int]@));
            }
            i += 1;
        }
        assert(all.take(self.bills.len() as int) =~= all);
        unpaid
    }

    /// The amounts of the unpaid bills of `owner`, added up; refused with
    /// `ArithmeticOverflow` if the sum does not fit `i128`.
    pub fn get_total_unpaid(&self, owner: &Principal) -> (r: Result<i128, LedgerError>)
        requires
            self.wf(),
        ensures
            r == if amounts_total(self@.bills.filter(unpaid_of(owner@))) <= i128::MAX {
                Ok::<i128, LedgerError>(
                    amounts_total(self@.bills.filter(unpaid_of(owner@))) as i128,
                )
            } else {
                Err::<i128, LedgerError>(LedgerError::ArithmeticOverflow)
            },
    {
        let ghost all = self@.bills;
        let ghost keep = unpaid_of(owner@);
        let mut total: i128 = 0;
        let mut i: usize = 0;
        proof {
            reveal(Seq::filter);
            assert(all.take(0) =~= Seq::<BillView>::empty());
        }
        while i < self.bills.len()
            invariant
                i <= self.bills.len(),
                self.wf(),
                all == self@.bills,
                keep == unpaid_of(owner@),
                all.len() == self.bills.len(),
                total == amounts_total(all.take(i as int).filter(keep)),
            decreases self.bills.len() - i,
        {
            proof {
                reveal(Seq::filter);
                let next = all.take(i as int + 1);
                assert(next.drop_last() =~= all.take(i as int));
                assert(next.last() == self.bills[i as int]@);
                lemma_total_push(all.take(i as int).filter(keep), self.bills[i as int]@);
                lemma_partial_total(all, keep, i as int + 1);
            }
            if !self.bills[i].paid && self.bills[i].owner.same(owner) {
                total = match total.checked_add(self.bills[i].amount) {
                    None => {
                        return Err(LedgerError::ArithmeticOverflow);
                    },
                    Some(sum) => sum,
                };
            }
            i += 1;
        }
        assert(all.take(self.bills.len() as int) =~= all);
        Ok(total)
    }
}

} // verus!
