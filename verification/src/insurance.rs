//! Insurance policies: a monthly premium that keeps a coverage alive.

use crate::audit::{entry_views, log_read, AuditEntry, AuditEntryView, Operation};
use crate::error::{failure_of, LedgerError, ValidationError};
use crate::nonce::expected;
use crate::orchestrator::{
    event_views, follows_protocol, record_event, CallContext, Event, Orchestrator,
    OrchestratorView, Receipt,
};
use crate::principal::Principal;
use vstd::prelude::*;

verus! {

/// The time between two premium payments: thirty days on the host's clock.
pub const PREMIUM_PERIOD: u64 = 2592000;

/// What the insurance ledger asks the host to publish.
#[derive(Clone, Copy, Debug, PartialEq, Eq, Structural)]
pub enum InsuranceEvent {
    PolicyCreated,
    PremiumPaid,
    PolicyDeactivated,
}

/// One insurance policy.
#[derive(Debug, PartialEq, Eq)]
pub struct InsurancePolicy {
    pub id: u32,
    pub owner: Principal,
    pub name: String,
    pub coverage_type: String,
    pub monthly_premium: i128,
    pub coverage_amount: i128,
    pub active: bool,
    pub next_payment_date: u64,
}

/// What an [`InsurancePolicy`] says, with owner, name and coverage type as
/// text.
pub ghost struct InsurancePolicyView {
    pub id: u32,
    pub owner: Seq<char>,
    pub name: Seq<char>,
    pub coverage_type: Seq<char>,
    pub monthly_premium: i128,
    pub coverage_amount: i128,
    pub active: bool,
    pub next_payment_date: u64,
}

impl View for InsurancePolicy {
    type V = InsurancePolicyView;

    open spec fn view(&self) -> InsurancePolicyView {
        InsurancePolicyView {
            id: self.id,
            owner: self.owner@,
            name: self.name@,
            coverage_type: self.coverage_type@,
            monthly_premium: self.monthly_premium,
            coverage_amount: self.coverage_amount,
            active: self.active,
            next_payment_date: self.next_payment_date,
        }
    }
}

impl Clone for InsurancePolicy {
    fn clone(&self) -> (copy: Self)
        ensures
            copy@ == self@,
    {
        InsurancePolicy {
            id: self.id,
            owner: self.owner.clone(),
            name: self.name.clone(),
            coverage_type: self.coverage_type.clone(),
            monthly_premium: self.monthly_premium,
            coverage_amount: self.coverage_amount,
            active: self.active,
            next_payment_date: self.next_payment_date,
        }
    }
}

/// What a sequence of policies says, policy by policy.
pub open spec fn policy_views(policies: Seq<InsurancePolicy>) -> Seq<InsurancePolicyView> {
    Seq::new(policies.len(), |i: int| policies[i]@)
}

/// The state of the insurance ledger: every policy ever created, in the
/// order of creation, and the history of the calls.
pub ghost struct InsuranceView {
    pub policies: Seq<InsurancePolicyView>,
    pub core: OrchestratorView,
}

/// The policies carry the ids 1, 2, 3, ... in order, the last id fits
/// `u32`, and every premium is positive.
pub open spec fn well_kept(policies: Seq<InsurancePolicyView>) -> bool {
    &&& policies.len() <= u32::MAX
    &&& forall|i: int| 0 <= i < policies.len() ==> (#[trigger] policies[i]).id == i + 1
    &&& forall|i: int| 0 <= i < policies.len() ==> (#[trigger] policies[i]).monthly_premium > 0
}

/// The policy with the given id, if there is one.
pub open spec fn policy_at(policies: Seq<InsurancePolicyView>, policy_id: u32) -> Option<
    InsurancePolicyView,
> {
    if 1 <= policy_id <= policies.len() {
        Some(policies[policy_id - 1])
    } else {
        None
    }
}

/// The test that picks the active policies of one owner.
pub open spec fn active_of(owner: Seq<char>) -> spec_fn(InsurancePolicyView) -> bool {
    |policy: InsurancePolicyView| policy.active && policy.owner == owner
}

/// The monthly premiums of a sequence of policies, added up.
pub open spec fn premiums_total(policies: Seq<InsurancePolicyView>) -> int
    decreases policies.len(),
{
    if policies.len() == 0 {
        0
    } else {
        premiums_total(policies.drop_last()) + policies.last().monthly_premium
    }
}

/// What the creation of a policy objects to, in this order: a premium that
/// is not positive, a coverage that is not positive, a first payment date
/// beyond the clock's range, or an id counter that is exhausted.
pub open spec fn create_policy_check(
    before: InsuranceView,
    ctx: CallContext,
    monthly_premium: i128,
    coverage_amount: i128,
) -> Option<LedgerError> {
    if monthly_premium <= 0 {
        Some(LedgerError::ValidationFailed(ValidationError::NonPositivePremium))
    } else if coverage_amount <= 0 {
        Some(LedgerError::ValidationFailed(ValidationError::NonPositiveCoverage))
    } else if ctx.timestamp + PREMIUM_PERIOD > u64::MAX || before.policies.len() >= u32::MAX {
        Some(LedgerError::ArithmeticOverflow)
    } else {
        None
    }
}

/// What any change to a policy objects to: a policy that does not exist,
/// or a caller who does not own it.
pub open spec fn policy_owner_check(before: InsuranceView, caller: Seq<char>, policy_id: u32)
    -> Option<LedgerError> {
    match policy_at(before.policies, policy_id) {
        None => Some(LedgerError::ValidationFailed(ValidationError::RecordNotFound)),
        Some(policy) => if policy.owner != caller {
            Some(LedgerError::ValidationFailed(ValidationError::WrongOwner))
        } else {
            None
        },
    }
}

/// What a premium payment objects to, in this order: a missing policy, a
/// foreign policy, an inactive policy, or a next payment date beyond the
/// clock's range.
pub open spec fn pay_premium_check(
    before: InsuranceView,
    ctx: CallContext,
    caller: Seq<char>,
    policy_id: u32,
) -> Option<LedgerError> {
    if policy_owner_check(before, caller, policy_id) is Some {
        policy_owner_check(before, caller, policy_id)
    } else if !before.policies[policy_id - 1].active {
        Some(LedgerError::ValidationFailed(ValidationError::PolicyInactive))
    } else if ctx.timestamp + PREMIUM_PERIOD > u64::MAX {
        Some(LedgerError::ArithmeticOverflow)
    } else {
        None
    }
}

/// The insurance ledger: the policies, numbered from 1 in the order of
/// their creation, with the nonces and the audit log of the calls that
/// changed them.
pub struct Insurance {
    policies: Vec<InsurancePolicy>,
    core: Orchestrator,
}

impl View for Insurance {
    type V = InsuranceView;

    closed spec fn view(&self) -> InsuranceView {
        InsuranceView { policies: policy_views(self.policies@), core: self.core@ }
    }
}

fn are_well_kept(policies: &Vec<InsurancePolicy>) -> (r: bool)
    ensures
        r == well_kept(policy_views(policies@)),
{
    if policies.len() > u32::MAX as usize {
        return false;
    }
    let mut i: usize = 0;
    while i < policies.len()
        invariant
            i <= policies.len() <= u32::MAX,
            forall|k: int| 0 <= k < i ==> (#[trigger] policy_views(policies@)[k]).id == k + 1,
            forall|k: int|
                0 <= k < i ==> (#[trigger] policy_views(policies@)[k]).monthly_premium > 0,
        decreases policies.len() - i,
    {
        if policies[i].id as usize != i + 1 || policies[i].monthly_premium <= 0 {
            assert(policy_views(policies@)[i as int] == policies[i as int]@);
            return false;
        }
        i += 1;
    }
    true
}

/// Adding a policy to a sequence adds its premium to the total.
proof fn lemma_total_push(policies: Seq<InsurancePolicyView>, policy: InsurancePolicyView)
    ensures
        premiums_total(policies.push(policy)) == premiums_total(policies) + policy.monthly_premium,
{
    assert(policies.push(policy).drop_last() =~= policies);
}

/// With positive premiums, the total of the policies picked among the
/// first `i` is never negative and never more than the total of all
/// policies picked.
proof fn lemma_partial_total(
    policies: Seq<InsurancePolicyView>,
    keep: spec_fn(InsurancePolicyView) -> bool,
    i: int,
)
    requires
        0 <= i <= policies.len(),
        forall|k: int| 0 <= k < policies.len() ==> (#[trigger] policies[k]).monthly_premium > 0,
    ensures
        0 <= premiums_total(policies.take(i).filter(keep)) <= premiums_total(
            policies.filter(keep),
        ),
    decreases policies.len() + i,
{
    reveal(Seq::filter);
    if i == 0 {
        assert(policies.take(0) =~= Seq::<InsurancePolicyView>::empty());
        if policies.len() > 0 {
            lemma_partial_total(policies.drop_last(), keep, 0);
            assert(policies.drop_last().take(0) =~= Seq::<InsurancePolicyView>::empty());
            if keep(policies.last()) {
                lemma_total_push(policies.drop_last().filter(keep), policies.last());
            }
        }
    } else if i == policies.len() {
        assert(policies.take(i) =~= policies);
        lemma_partial_total(policies, keep, 0);
        assert(policies.take(0) =~= Seq::<InsurancePolicyView>::empty());
    } else {
        lemma_partial_total(policies.drop_last(), keep, i);
        assert(policies.drop_last().take(i) =~= policies.take(i));
        if keep(policies.last()) {
            lemma_total_push(policies.drop_last().filter(keep), policies.last());
        }
    }
}

impl Insurance {
    /// The nonces and the audit log are well formed.
    pub closed spec fn history_wf(&self) -> bool {
        self.core.wf()
    }

    /// The history is well formed, the policies are numbered from 1
    /// without a gap, and their premiums are positive.
    pub open spec fn wf(&self) -> bool {
        &&& self.history_wf()
        &&& well_kept(self@.policies)
    }

    /// A ledger without policies, without history.
    pub fn new() -> (ledger: Insurance)
        ensures
            ledger.wf(),
            ledger@.policies == Seq::<InsurancePolicyView>::empty(),
            ledger@.core.nonces == Map::<Seq<char>, u64>::empty(),
            ledger@.core.audit == Seq::<AuditEntryView>::empty(),
    {
        let ledger = Insurance { policies: Vec::new(), core: Orchestrator::new() };
        assert(ledger@.policies =~= Seq::<InsurancePolicyView>::empty());
        ledger
    }

    /// A ledger made of policies and a history, if the policies are
    /// numbered from 1 without a gap and their premiums are positive.
    pub fn from_parts(policies: Vec<InsurancePolicy>, core: Orchestrator) -> (ledger: Option<
        Insurance,
    >)
        requires
            core.wf(),
        ensures
            ledger is Some <==> well_kept(policy_views(policies@)),
            ledger matches Some(l) ==> l.wf() && l@.core == core@ && l@.policies == policy_views(
                policies@,
            ),
    {
        if are_well_kept(&policies) {
            Some(Insurance { policies, core })
        } else {
            None
        }
    }

    /// The nonces and the audit log.
    pub fn orchestrator(&self) -> (core: &Orchestrator)
        requires
            self.wf(),
        ensures
            core.wf(),
            core@ == self@.core,
    {
        &self.core
    }

    /// Every policy, in the order of the ids.
    pub fn policies(&self) -> (policies: Vec<InsurancePolicy>)
        ensures
            policy_views(policies@) == self@.policies,
    {
        let mut policies: Vec<InsurancePolicy> = Vec::new();
        let mut i: usize = 0;
        while i < self.policies.len()
            invariant
                i <= self.policies.len(),
                policies.len() == i,
                forall|k: int| 0 <= k < i ==> (#[trigger] policies[k])@ == self.policies[k]@,
            decreases self.policies.len() - i,
        {
            policies.push(self.policies[i].clone());
            i += 1;
        }
        assert(policy_views(policies@) =~= self@.policies);
        policies
    }

    /// The nonce `address` must present with its next state-changing call.
    pub fn get_nonce(&self, address: &Principal) -> (n: u64)
        requires
            self.wf(),
        ensures
            n == expected(self@.core.nonces, address@),
    {
        self.core.get_nonce(address)
    }

    /// A page of the audit log, oldest entry first, never longer than the
    /// log's capacity.
    pub fn get_audit_log(&self, from_index: u32, limit: u32) -> (page: Vec<AuditEntry>)
        ensures
            entry_views(page@) == log_read(self@.core.audit, from_index, limit),
    {
        self.core.get_audit_log(from_index, limit)
    }

    fn check_create(&self, ctx: &CallContext, monthly_premium: i128, coverage_amount: i128) -> (r:
        Result<(u32, u64), LedgerError>)
        requires
            self.wf(),
        ensures
            failure_of(r) == create_policy_check(self@, *ctx, monthly_premium, coverage_amount),
            r matches Ok(found) ==> found.0 == self@.policies.len() + 1 && found.1 == ctx.timestamp
                + PREMIUM_PERIOD,
    {
        if monthly_premium <= 0 {
            return Err(LedgerError::ValidationFailed(ValidationError::NonPositivePremium));
        }
        if coverage_amount <= 0 {
            return Err(LedgerError::ValidationFailed(ValidationError::NonPositiveCoverage));
        }
        let next_payment_date = match ctx.timestamp.checked_add(PREMIUM_PERIOD) {
            None => {
                return Err(LedgerError::ArithmeticOverflow);
            },
            Some(date) => date,
        };
        if self.policies.len() >= u32::MAX as usize {
            return Err(LedgerError::ArithmeticOverflow);
        }
        Ok((self.policies.len() as u32 + 1, next_payment_date))
    }

    /// Creates an active policy for `owner`, with its first premium due
    /// thirty days after the call. Its id is one more than the number of
    /// policies created before it.
    ///
    /// The call follows the protocol with [`create_policy_check`] as its
    /// validation. On success the new policy is the last of the ledger's
    /// policies, the answer is its id, and `PolicyCreated` is to be
    /// published; on failure the policies are what they were.
    pub fn create_policy(
        &mut self,
        ctx: &CallContext,
        owner: &Principal,
        nonce: u64,
        name: String,
        coverage_type: String,
        monthly_premium: i128,
        coverage_amount: i128,
    ) -> (r: Result<Receipt<u32, InsuranceEvent>, LedgerError>)
        requires
            old(self).wf(),
        ensures
            final(self).wf(),
            follows_protocol(
                old(self)@.core,
                final(self)@.core,
                *ctx,
                Operation::Create,
                owner@,
                nonce,
                create_policy_check(old(self)@, *ctx, monthly_premium, coverage_amount),
                failure_of(r),
            ),
            r is Err ==> final(self)@.policies == old(self)@.policies,
            r matches Ok(receipt) ==> {
                &&& receipt.value == old(self)@.policies.len() + 1
                &&& final(self)@.policies == old(self)@.policies.push(
                    InsurancePolicyView {
                        id: receipt.value,
                        owner: owner@,
                        name: name@,
                        coverage_type: coverage_type@,
                        monthly_premium,
                        coverage_amount,
                        active: true,
                        next_payment_date: (ctx.timestamp + PREMIUM_PERIOD) as u64,
                    },
                )
                &&& event_views(receipt.events@) == seq![
                    record_event(InsuranceEvent::PolicyCreated, receipt.value, owner@),
                ]
            },
    {
        if !ctx.authorized {
            return Err(LedgerError::Unauthorized);
        }
        let checked = self.check_create(ctx, monthly_premium, coverage_amount);
        match self.core.decide(owner, nonce, checked) {
            Err(e) => {
                self.core.settle(ctx, Operation::Create, owner, false);
                Err(e)
            },
            Ok((id, next_payment_date)) => {
                let policy = InsurancePolicy {
                    id,
                    owner: owner.clone(),
                    name,
                    coverage_type,
                    monthly_premium,
                    coverage_amount,
                    active: true,
                    next_payment_date,
                };
                self.policies.push(policy);
                assert(self@.policies =~= old(self)@.policies.push(policy@));
                self.core.settle(ctx, Operation::Create, owner, true);
                Ok(
                    Receipt::with_event(
                        id,
                        Event::about_record(InsuranceEvent::PolicyCreated, id, owner),
                    ),
                )
            },
        }
    }

    fn check_owner(&self, caller: &Principal, policy_id: u32) -> (r: Result<usize, LedgerError>)
        requires
            self.wf(),
        ensures
            failure_of(r) == policy_owner_check(self@, caller@, policy_id),
            r matches Ok(at) ==> at == policy_id - 1 && at < self.policies.len(),
    {
        if policy_id < 1 || policy_id as usize > self.policies.len() {
            return Err(LedgerError::ValidationFailed(ValidationError::RecordNotFound));
        }
        let at: usize = policy_id as usize - 1;
        if !self.policies[at].owner.same(caller) {
            return Err(LedgerError::ValidationFailed(ValidationError::WrongOwner));
        }
        Ok(at)
    }

    fn check_pay(&self, ctx: &CallContext, caller: &Principal, policy_id: u32) -> (r: Result<
        (usize, u64),
        LedgerError,
    >)
        requires
            self.wf(),
        ensures
            failure_of(r) == pay_premium_check(self@, *ctx, caller@, policy_id),
            r matches Ok(found) ==> found.0 == policy_id - 1 && found.0 < self.policies.len()
                && found.1 == ctx.timestamp + PREMIUM_PERIOD,
    {
        let at = match self.check_owner(caller, policy_id) {
            Err(e) => {
                return Err(e);
            },
            Ok(at) => at,
        };
        if !self.policies[at].active {
            return Err(LedgerError::ValidationFailed(ValidationError::PolicyInactive));
        }
        match ctx.timestamp.checked_add(PREMIUM_PERIOD) {
            None => Err(LedgerError::ArithmeticOverflow),
            Some(date) => Ok((at, date)),
        }
    }

    /// Pays the premium of an active policy; only its owner may. The next
    /// premium falls due thirty days after the call.
    ///
    /// The call follows the protocol with [`pay_premium_check`] as its
    /// validation. On success the policy carries the new payment date and
    /// `PremiumPaid` is to be published; on failure the policies are what
    /// they were.
    pub fn pay_premium(&mut self, ctx: &CallContext, caller: &Principal, nonce: u64, policy_id: u32)
        -> (r: Result<Receipt<bool, InsuranceEvent>, LedgerError>)
        requires
            old(self).wf(),
        ensures
            final(self).wf(),
            follows_protocol(
                old(self)@.core,
                final(self)@.core,
                *ctx,
                Operation::Pay,
                caller@,
                nonce,
                pay_premium_check(old(self)@, *ctx, caller@, policy_id),
                failure_of(r),
            ),
            r is Err ==> final(self)@.policies == old(self)@.policies,
            r matches Ok(receipt) ==> {
                &&& final(self)@.policies == old(self)@.policies.update(
                    policy_id - 1,
                    InsurancePolicyView {
                        next_payment_date: (ctx.timestamp + PREMIUM_PERIOD) as u64,
                        ..old(self)@.policies[policy_id - 1]
                    },
                )
                &&& receipt.value
                &&& event_views(receipt.events@) == seq![
                    record_event(InsuranceEvent::PremiumPaid, policy_id, caller@),
                ]
            },
    {
        if !ctx.authorized {
            return Err(LedgerError::Unauthorized);
        }
        let checked = self.check_pay(ctx, caller, policy_id);
        match self.core.decide(caller, nonce, checked) {
            Err(e) => {
                self.core.settle(ctx, Operation::Pay, caller, false);
                Err(e)
            },
            Ok((at, next_payment_date)) => {
                let policy = &self.policies[at];
                let changed = InsurancePolicy {
                    id: policy.id,
                    owner: policy.owner.clone(),
                    name: policy.name.clone(),
                    coverage_type: policy.coverage_type.clone(),
                    monthly_premium: policy.monthly_premium,
                    coverage_amount: policy.coverage_amount,
                    active: policy.active,
                    next_payment_date,
                };
                self.policies[at] = changed;
                assert(self@.policies =~= old(self)@.policies.update(at as int, changed@));
                self.core.settle(ctx, Operation::Pay, caller, true);
                Ok(
                    Receipt::with_event(
                        true,
                        Event::about_record(InsuranceEvent::PremiumPaid, policy_id, caller),
                    ),
                )
            },
        }
    }

    /// Deactivates a policy; only its owner may.
    ///
    /// The call follows the protocol with [`policy_owner_check`] as its
    /// validation. On success the policy is inactive and
    /// `PolicyDeactivated` is to be published; on failure the policies are
    /// what they were.
    pub fn deactivate_policy(
        &mut self,
        ctx: &CallContext,
        caller: &Principal,
        nonce: u64,
        policy_id: u32,
    ) -> (r: Result<Receipt<bool, InsuranceEvent>, LedgerError>)
        requires
            old(self).wf(),
        ensures
            final(self).wf(),
            follows_protocol(
                old(self)@.core,
                final(self)@.core,
                *ctx,
                Operation::Deactivate,
                caller@,
                nonce,
                policy_owner_check(old(self)@, caller@, policy_id),
                failure_of(r),
            ),
            r is Err ==> final(self)@.policies == old(self)@.policies,
            r matches Ok(receipt) ==> {
                &&& final(self)@.policies == old(self)@.policies.update(
                    policy_id - 1,
                    InsurancePolicyView { active: false, ..old(self)@.policies[policy_id - 1] },
                )
                &&& receipt.value
                &&& event_views(receipt.events@) == seq![
                    record_event(InsuranceEvent::PolicyDeactivated, policy_id, caller@),
                ]
            },
    {
        if !ctx.authorized {
            return Err(LedgerError::Unauthorized);
        }
        let checked = self.check_owner(caller, policy_id);
        match self.core.decide(caller, nonce, checked) {
            Err(e) => {
                self.core.settle(ctx, Operation::Deactivate, caller, false);
                Err(e)
            },
            Ok(at) => {
                let policy = &self.policies[at];
                let changed = InsurancePolicy {
                    id: policy.id,
                    owner: policy.owner.clone(),
                    name: policy.name.clone(),
                    coverage_type: policy.coverage_type.clone(),
                    monthly_premium: policy.monthly_premium,
                    coverage_amount: policy.coverage_amount,
                    active: false,
                    next_payment_date: policy.next_payment_date,
                };
                self.policies[at] = changed;
                assert(self@.policies =~= old(self)@.policies.update(at as int, changed@));
                self.core.settle(ctx, Operation::Deactivate, caller, true);
                Ok(
                    Receipt::with_event(
                        true,
                        Event::about_record(InsuranceEvent::PolicyDeactivated, policy_id, caller),
                    ),
                )
            },
        }
    }

    /// The policy with the given id, if there is one.
    pub fn get_policy(&self, policy_id: u32) -> (policy: Option<InsurancePolicy>)
        ensures
            policy is Some <==> policy_at(self@.policies, policy_id) is Some,
            policy matches Some(p) ==> Some(p@) == policy_at(self@.policies, policy_id),
    {
        if 1 <= policy_id && policy_id as usize <= self.policies.len() {
            Some(self.policies[policy_id as usize - 1].clone())
        } else {
            None
        }
    }

    /// The active policies of `owner`, in the order of their ids.
    pub fn get_active_policies(&self, owner: &Principal) -> (active: Vec<InsurancePolicy>)
        ensures
            policy_views(active@) == self@.policies.filter(active_of(owner@)),
    {
        let ghost all = self@.policies;
        let mut active: Vec<InsurancePolicy> = Vec::new();
        let mut i: usize = 0;
        proof {
            reveal(Seq::filter);
            assert(all.take(0) =~= Seq::<InsurancePolicyView>::empty());
            assert(policy_views(active@) =~= all.take(0).filter(active_of(owner@)));
        }
        while i < self.policies.len()
            invariant
                i <= self.policies.len(),
                all == self@.policies,
                all.len() == self.policies.len(),
                policy_views(active@) == all.take(i as int).filter(active_of(owner@)),
            decreases self.policies.len() - i,
        {
            let ghost so_far = policy_views(active@);
            proof {
                reveal(Seq::filter);
                let next = all.take(i as int + 1);
                assert(next.drop_last() =~= all.take(i as int));
                assert(next.last() == self.policies[i as int]@);
            }
            if self.policies[i].active && self.policies[i].owner.same(owner) {
                active.push(self.policies[i].clone());
                assert(policy_views(active@) =~= so_far.push(self.policies[i as int]@));
            }
            i += 1;
        }
        assert(all.take(self.policies.len() as int) =~= all);
        active
    }

    /// The monthly premiums of the active policies of `owner`, added up;
    /// refused with `ArithmeticOverflow` if the sum does not fit `i128`.
    pub fn get_total_monthly_premium(&self, owner: &Principal) -> (r: Result<i128, LedgerError>)
        requires
            self.wf(),
        ensures
            r == if premiums_total(self@.policies.filter(active_of(owner@))) <= i128::MAX {
                Ok::<i128, LedgerError>(
                    premiums_total(self@.policies.filter(active_of(owner@))) as i128,
                )
            } else {
                Err::<i128, LedgerError>(LedgerError::ArithmeticOverflow)
            },
    {
        let ghost all = self@.policies;
        let ghost keep = active_of(owner@);
        let mut total: i128 = 0;
        let mut i: usize = 0;
        proof {
            reveal(Seq::filter);
            assert(all.take(0) =~= Seq::<InsurancePolicyView>::empty());
        }
        while i < self.policies.len()
            invariant
                i <= self.policies.len(),
                self.wf(),
                all == self@.policies,
                keep == active_of(owner@),
                all.len() == self.policies.len(),
                total == premiums_total(all.take(i as int).filter(keep)),
            decreases self.policies.len() - i,
        {
            proof {
                reveal(Seq::filter);
                let next = all.take(i as int + 1);
                assert(next.drop_last() =~= all.take(i as int));
                assert(next.last() == self.policies[i as int]@);
                lemma_total_push(all.take(i as int).filter(keep), self.policies[i as int]@);
                lemma_partial_total(all, keep, i as int + 1);
            }
            if self.policies[i].active && self.policies[i].owner.same(owner) {
                total = match total.checked_add(self.policies[i].monthly_premium) {
                    None => {
                        return Err(LedgerError::ArithmeticOverflow);
                    },
                    Some(sum) => sum,
                };
            }
            i += 1;
        }
        assert(all.take(self.policies.len() as int) =~= all);
        Ok(total)
    }
}

} // verus!
