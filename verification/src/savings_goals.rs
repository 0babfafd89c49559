//! Savings goals: amounts set aside towards a target, locked against
//! withdrawal until their owner unlocks them.

use crate::audit::{entry_views, log_read, AuditEntry, AuditEntryView, Operation};
use crate::error::{failure_of, LedgerError, ValidationError};
use crate::nonce::expected;
use crate::orchestrator::{
    event_views, follows_protocol, movement_event, record_event, CallContext, Event, EventView,
    Orchestrator, OrchestratorView, Receipt,
};
use crate::principal::Principal;
use vstd::arithmetic::div_mod::lemma_mul_mod_noop_left;
use vstd::prelude::*;

verus! {

/// The snapshot format this ledger writes and accepts.
pub const GOALS_SNAPSHOT_VERSION: u32 = 1;

/// What the savings ledger asks the host to publish.
#[derive(Clone, Copy, Debug, PartialEq, Eq, Structural)]
pub enum SavingsEvent {
    GoalCreated,
    FundsAdded,
    FundsWithdrawn,
    GoalCompleted,
    GoalLocked,
    GoalUnlocked,
}

/// One savings goal.
#[derive(Debug, PartialEq, Eq)]
pub struct SavingsGoal {
    pub id: u32,
    pub owner: Principal,
    pub name: String,
    pub target_amount: i128,
    pub current_amount: i128,
    pub target_date: u64,
    pub locked: bool,
}

/// What a [`SavingsGoal`] says, with owner and name as text.
pub ghost struct SavingsGoalView {
    pub id: u32,
    pub owner: Seq<char>,
    pub name: Seq<char>,
    pub target_amount: i128,
    pub current_amount: i128,
    pub target_date: u64,
    pub locked: bool,
}

impl View for SavingsGoal {
    type V = SavingsGoalView;

    open spec fn view(&self) -> SavingsGoalView {
        SavingsGoalView {
            id: self.id,
            owner: self.owner@,
            name: self.name@,
            target_amount: self.target_amount,
            current_amount: self.current_amount,
            target_date: self.target_date,
            locked: self.locked,
        }
    }
}

impl Clone for SavingsGoal {
    fn clone(&self) -> (copy: Self)
        ensures
            copy@ == self@,
    {
        SavingsGoal {
            id: self.id,
            owner: self.owner.clone(),
            name: self.name.clone(),
            target_amount: self.target_amount,
            current_amount: self.current_amount,
            target_date: self.target_date,
            locked: self.locked,
        }
    }
}

/// What a sequence of goals says, goal by goal.
pub open spec fn goal_views(goals: Seq<SavingsGoal>) -> Seq<SavingsGoalView> {
    Seq::new(goals.len(), |i: int| goals[i]@)
}

/// All goals of a ledger with the version, the id counter and the checksum
/// that let an importer recognise them.
#[derive(Debug, PartialEq, Eq)]
pub struct GoalsExportSnapshot {
    pub version: u32,
    pub checksum: u64,
    pub next_id: u32,
    pub goals: Vec<SavingsGoal>,
}

/// What a [`GoalsExportSnapshot`] says.
pub ghost struct GoalsExportSnapshotView {
    pub version: u32,
    pub checksum: u64,
    pub next_id: u32,
    pub goals: Seq<SavingsGoalView>,
}

impl View for GoalsExportSnapshot {
    type V = GoalsExportSnapshotView;

    open spec fn view(&self) -> GoalsExportSnapshotView {
        GoalsExportSnapshotView {
            version: self.version,
            checksum: self.checksum,
            next_id: self.next_id,
            goals: goal_views(self.goals@),
        }
    }
}

/// The state of the savings ledger: every goal ever created, in the order
/// of creation, and the history of the calls.
pub ghost struct SavingsView {
    pub goals: Seq<SavingsGoalView>,
    pub core: OrchestratorView,
}

/// The goals carry the ids 1, 2, 3, ... in order, and the last id fits `u32`.
pub open spec fn numbered(goals: Seq<SavingsGoalView>) -> bool {
    &&& goals.len() <= u32::MAX
    &&& forall|i: int| 0 <= i < goals.len() ==> (#[trigger] goals[i]).id == i + 1
}

/// The goal with the given id, if there is one.
pub open spec fn goal_at(goals: Seq<SavingsGoalView>, goal_id: u32) -> Option<SavingsGoalView> {
    if 1 <= goal_id <= goals.len() {
        Some(goals[goal_id - 1])
    } else {
        None
    }
}

/// Whether a goal has reached its target.
pub open spec fn completed(goal: SavingsGoalView) -> bool {
    goal.current_amount >= goal.target_amount
}

/// The test that picks the goals of one owner.
pub open spec fn owned_by(owner: Seq<char>) -> spec_fn(SavingsGoalView) -> bool {
    |goal: SavingsGoalView| goal.owner == owner
}

/// The low 64 bits of an amount, as the checksum takes them: its remainder
/// modulo 2^64, which lies between 0 and 2^64 - 1 for negative amounts too.
pub open spec fn low64(amount: i128) -> int {
    (amount as int) % 0x1_0000_0000_0000_0000
}

/// What one goal adds to the checksum: its id and the low 64 bits of its
/// two amounts.
pub open spec fn goal_weight(goal: SavingsGoalView) -> int {
    goal.id + low64(goal.target_amount) + low64(goal.current_amount)
}

/// What a sequence of goals adds to the checksum.
pub open spec fn goals_weight(goals: Seq<SavingsGoalView>) -> int
    decreases goals.len(),
{
    if goals.len() == 0 {
        0
    } else {
        goals_weight(goals.drop_last()) + goal_weight(goals.last())
    }
}

/// The checksum of a goal list: version, counter and the weight of every
/// goal added up, times 31, reduced to 64 bits.
pub open spec fn goals_checksum_of(version: u32, next_id: u32, goals: Seq<SavingsGoalView>) -> u64 {
    (((version + next_id + goals_weight(goals)) * 31) % 0x1_0000_0000_0000_0000) as u64
}

/// The snapshot of a goal list.
pub open spec fn goals_snapshot_of(goals: Seq<SavingsGoalView>) -> GoalsExportSnapshotView {
    GoalsExportSnapshotView {
        version: GOALS_SNAPSHOT_VERSION,
        checksum: goals_checksum_of(GOALS_SNAPSHOT_VERSION, goals.len() as u32, goals),
        next_id: goals.len() as u32,
        goals,
    }
}

/// What the creation of a goal objects to: a target that is not positive,
/// or an id counter that is exhausted.
pub open spec fn create_check(before: SavingsView, target_amount: i128) -> Option<LedgerError> {
    if target_amount <= 0 {
        Some(LedgerError::ValidationFailed(ValidationError::NonPositiveAmount))
    } else if before.goals.len() >= u32::MAX {
        Some(LedgerError::ArithmeticOverflow)
    } else {
        None
    }
}

/// What any change to a goal objects to: a goal that does not exist, or a
/// caller who does not own it.
pub open spec fn owner_check(before: SavingsView, caller: Seq<char>, goal_id: u32) -> Option<
    LedgerError,
> {
    match goal_at(before.goals, goal_id) {
        None => Some(LedgerError::ValidationFailed(ValidationError::RecordNotFound)),
        Some(goal) => if goal.owner != caller {
            Some(LedgerError::ValidationFailed(ValidationError::WrongOwner))
        } else {
            None
        },
    }
}

/// What a deposit objects to, in this order: an amount that is not
/// positive, a missing goal, a foreign goal, or a balance that would leave
/// the range of `i128`.
pub open spec fn add_check(before: SavingsView, caller: Seq<char>, goal_id: u32, amount: i128)
    -> Option<LedgerError> {
    if amount <= 0 {
        Some(LedgerError::ValidationFailed(ValidationError::NonPositiveAmount))
    } else if owner_check(before, caller, goal_id) is Some {
        owner_check(before, caller, goal_id)
    } else if before.goals[goal_id - 1].current_amount + amount > i128::MAX {
        Some(LedgerError::ArithmeticOverflow)
    } else {
        None
    }
}

/// What a withdrawal objects to, in this order: an amount that is not
/// positive, a missing goal, a foreign goal, a locked goal, or an amount
/// larger than the balance.
pub open spec fn withdraw_check(
    before: SavingsView,
    caller: Seq<char>,
    goal_id: u32,
    amount: i128,
) -> Option<LedgerError> {
    if amount <= 0 {
        Some(LedgerError::ValidationFailed(ValidationError::NonPositiveAmount))
    } else if owner_check(before, caller, goal_id) is Some {
        owner_check(before, caller, goal_id)
    } else if before.goals[goal_id - 1].locked {
        Some(LedgerError::ValidationFailed(ValidationError::GoalLocked))
    } else if amount > before.goals[goal_id - 1].current_amount {
        Some(LedgerError::ValidationFailed(ValidationError::InsufficientBalance))
    } else {
        None
    }
}

/// Every goal belongs to `owner`.
pub open spec fn all_owned_by(goals: Seq<SavingsGoalView>, owner: Seq<char>) -> bool {
    forall|i: int| 0 <= i < goals.len() ==> (#[trigger] goals[i]).owner == owner
}

/// What an import objects to, in this order: a foreign format version, a
/// checksum that does not match the contents, a ledger that holds a goal
/// of someone other than the caller, or goals that are not numbered 1, 2,
/// ... up to the snapshot's counter.
pub open spec fn goals_import_check(
    before: SavingsView,
    caller: Seq<char>,
    snapshot: GoalsExportSnapshotView,
) -> Option<LedgerError> {
    if snapshot.version != GOALS_SNAPSHOT_VERSION {
        Some(LedgerError::UnsupportedVersion)
    } else if snapshot.checksum != goals_checksum_of(
        snapshot.version,
        snapshot.next_id,
        snapshot.goals,
    ) {
        Some(LedgerError::ChecksumMismatch)
    } else if !all_owned_by(before.goals, caller) {
        Some(LedgerError::NotOwner)
    } else if snapshot.next_id != snapshot.goals.len() || !numbered(snapshot.goals) {
        Some(LedgerError::ValidationFailed(ValidationError::MalformedSnapshot))
    } else {
        None
    }
}

/// The events of a deposit of `amount` that leaves `goal` as it is given
/// here: the deposit itself and, if the goal has reached its target, its
/// completion.
pub open spec fn deposit_events(goal: SavingsGoalView, amount: i128) -> Seq<
    EventView<SavingsEvent>,
> {
    let added = movement_event(SavingsEvent::FundsAdded, goal.id, goal.owner, amount);
    if completed(goal) {
        seq![added, record_event(SavingsEvent::GoalCompleted, goal.id, goal.owner)]
    } else {
        seq![added]
    }
}

/// The savings ledger: the goals, numbered from 1 in the order of their
/// creation, with the nonces and the audit log of the calls that changed
/// them.
pub struct SavingsGoalContract {
    goals: Vec<SavingsGoal>,
    core: Orchestrator,
}

impl View for SavingsGoalContract {
    type V = SavingsView;

    closed spec fn view(&self) -> SavingsView {
        SavingsView { goals: goal_views(self.goals@), core: self.core@ }
    }
}

fn are_numbered(goals: &Vec<SavingsGoal>) -> (r: bool)
    ensures
        r == numbered(goal_views(goals@)),
{
    if goals.len() > u32::MAX as usize {
        return false;
    }
    let mut i: usize = 0;
    while i < goals.len()
        invariant
            i <= goals.len() <= u32::MAX,
            forall|k: int| 0 <= k < i ==> (#[trigger] goal_views(goals@)[k]).id == k + 1,
        decreases goals.len() - i,
    {
        if goals[i].id as usize != i + 1 {
            assert(goal_views(goals@)[i as int].id != i + 1);
            return false;
        }
        i += 1;
    }
    true
}

fn with_balance(goal: &SavingsGoal, current_amount: i128) -> (changed: SavingsGoal)
    ensures
        changed@ == (SavingsGoalView { current_amount, ..goal@ }),
{
    SavingsGoal {
        id: goal.id,
        owner: goal.owner.clone(),
        name: goal.name.clone(),
        target_amount: goal.target_amount,
        current_amount,
        target_date: goal.target_date,
        locked: goal.locked,
    }
}

fn with_lock(goal: &SavingsGoal, locked: bool) -> (changed: SavingsGoal)
    ensures
        changed@ == (SavingsGoalView { locked, ..goal@ }),
{
    SavingsGoal {
        id: goal.id,
        owner: goal.owner.clone(),
        name: goal.name.clone(),
        target_amount: goal.target_amount,
        current_amount: goal.current_amount,
        target_date: goal.target_date,
        locked,
    }
}

impl SavingsGoalContract {
    /// The nonces and the audit log are well formed.
    pub closed spec fn history_wf(&self) -> bool {
        self.core.wf()
    }

    /// The history is well formed, and the goals are numbered from 1
    /// without a gap.
    pub open spec fn wf(&self) -> bool {
        &&& self.history_wf()
        &&& numbered(self@.goals)
    }

    /// A ledger without goals, without history.
    pub fn init() -> (ledger: SavingsGoalContract)
        ensures
            ledger.wf(),
            ledger@.goals == Seq::<SavingsGoalView>::empty(),
            ledger@.core.nonces == Map::<Seq<char>, u64>::empty(),
            ledger@.core.audit == Seq::<AuditEntryView>::empty(),
    {
        let ledger = SavingsGoalContract { goals: Vec::new(), core: Orchestrator::new() };
        assert(ledger@.goals =~= Seq::<SavingsGoalView>::empty());
        ledger
    }

    /// A ledger made of goals and a history, if the goals are numbered from
    /// 1 without a gap.
    pub fn from_parts(goals: Vec<SavingsGoal>, core: Orchestrator) -> (ledger: Option<
        SavingsGoalContract,
    >)
        requires
            core.wf(),
        ensures
            ledger is Some <==> numbered(goal_views(goals@)),
            ledger matches Some(l) ==> l.wf() && l@.core == core@ && l@.goals == goal_views(
                goals@,
            ),
    {
        if are_numbered(&goals) {
            Some(SavingsGoalContract { goals, core })
        } else {
            None
        }
    }

    /// The nonces and the audit log.
    pub fn orchestrator(&self) -> (core: &Orchestrator)
        requires
            self.wf(),
        ensures
            core.wf(),
            core@ == self@.core,
    {
        &self.core
    }

    /// Every goal, in the order of the ids.
    pub fn goals(&self) -> (goals: Vec<SavingsGoal>)
        ensures
            goal_views(goals@) == self@.goals,
    {
        let mut goals: Vec<SavingsGoal> = Vec::new();
        let mut i: usize = 0;
        while i < self.goals.len()
            invariant
                i <= self.goals.len(),
                goals.len() == i,
                forall|k: int| 0 <= k < i ==> (#[trigger] goals[k])@ == self.goals[k]@,
            decreases self.goals.len() - i,
        {
            goals.push(self.goals[i].clone());
            i += 1;
        }
        assert(goal_views(goals@) =~= self@.goals);
        goals
    }

    /// The checksum of a goal list under a version and an id counter.
    pub fn compute_goals_checksum(version: u32, next_id: u32, goals: &Vec<SavingsGoal>) -> (checksum:
        u64)
        ensures
            checksum == goals_checksum_of(version, next_id, goal_views(goals@)),
    {
        let ghost views = goal_views(goals@);
        let mut c: u64 = version as u64 + next_id as u64;
        let mut i: usize = 0;
        assert(views.take(0) =~= Seq::<SavingsGoalView>::empty());
        while i < goals.len()
            invariant
                i <= goals.len(),
                views == goal_views(goals@),
                c == (version + next_id + goals_weight(views.take(i as int)))
                    % 0x1_0000_0000_0000_0000,
            decreases goals.len() - i,
        {
            let goal = &goals[i];
            let target: u64 = #[verifier::truncate]
            (goal.target_amount as u64);
            let current: u64 = #[verifier::truncate]
            (goal.current_amount as u64);
            proof {
                lemma_low64(goal.target_amount);
                lemma_low64(goal.current_amount);
                let next = views.take(i as int + 1);
                assert(next.drop_last() =~= views.take(i as int));
                assert(next.last() == goal@);
            }
            c = c.wrapping_add(goal.id as u64).wrapping_add(target).wrapping_add(current);
            i += 1;
        }
        proof {
            assert(views.take(goals.len() as int) =~= views);
            lemma_mul_mod_noop_left(
                version + next_id + goals_weight(views),
                31,
                0x1_0000_0000_0000_0000,
            );
        }
        c.wrapping_mul(31)
    }

    /// The goal with the given id, if there is one.
    pub fn get_goal(&self, goal_id: u32) -> (goal: Option<SavingsGoal>)
        ensures
            goal is Some <==> goal_at(self@.goals, goal_id) is Some,
            goal matches Some(g) ==> Some(g@) == goal_at(self@.goals, goal_id),
    {
        if 1 <= goal_id && goal_id as usize <= self.goals.len() {
            Some(self.goals[goal_id as usize - 1].clone())
        } else {
            None
        }
    }

    /// The goals of `owner`, in the order of their ids.
    pub fn get_all_goals(&self, owner: &Principal) -> (owned: Vec<SavingsGoal>)
        ensures
            goal_views(owned@) == self@.goals.filter(owned_by(owner@)),
    {
        let ghost all = self@.goals;
        let mut owned: Vec<SavingsGoal> = Vec::new();
        let mut i: usize = 0;
        proof {
            reveal(Seq::filter);
            assert(all.take(0) =~= Seq::<SavingsGoalView>::empty());
            assert(goal_views(owned@) =~= all.take(0).filter(owned_by(owner@)));
        }
        while i < self.goals.len()
            invariant
                i <= self.goals.len(),
                all == self@.goals,
                all.len() == self.goals.len(),
                goal_views(owned@) == all.take(i as int).filter(owned_by(owner@)),
            decreases self.goals.len() - i,
        {
            let ghost so_far = goal_views(owned@);
            proof {
                reveal(Seq::filter);
                let next = all.take(i as int + 1);
                assert(next.drop_last() =~= all.take(i as int));
                assert(next.last() == self.goals[i as int]@);
            }
            if self.goals[i].owner.same(owner) {
                owned.push(self.goals[i].clone());
                assert(goal_views(owned@) =~= so_far.push(self.goals[i as int]@));
            }
            i += 1;
        }
        assert(all.take(self.goals.len() as int) =~= all);
        owned
    }

    /// Whether the goal exists and has reached its target.
    pub fn is_goal_completed(&self, goal_id: u32) -> (done: bool)
        ensures
            done == match goal_at(self@.goals, goal_id) {
                Some(goal) => completed(goal),
                None => false,
            },
    {
        if 1 <= goal_id && goal_id as usize <= self.goals.len() {
            let goal = &self.goals[goal_id as usize - 1];
            goal.current_amount >= goal.target_amount
        } else {
            false
        }
    }

    /// The nonce `address` must present with its next state-changing call.
    pub fn get_nonce(&self, address: &Principal) -> (n: u64)
        requires
            self.wf(),
        ensures
            n == expected(self@.core.nonces, address@),
    {
        self.core.get_nonce(address)
    }

    /// A page of the audit log, oldest entry first, never longer than the
    /// log's capacity.
    pub fn get_audit_log(&self, from_index: u32, limit: u32) -> (page: Vec<AuditEntry>)
        ensures
            entry_views(page@) == log_read(self@.core.audit, from_index, limit),
    {
        self.core.get_audit_log(from_index, limit)
    }

    fn check_create(&self, target_amount: i128) -> (r: Result<u32, LedgerError>)
        requires
            self.wf(),
        ensures
            failure_of(r) == create_check(self@, target_amount),
            r matches Ok(id) ==> id == self@.goals.len() + 1,
    {
        if target_amount <= 0 {
            Err(LedgerError::ValidationFailed(ValidationError::NonPositiveAmount))
        } else if self.goals.len() >= u32::MAX as usize {
            Err(LedgerError::ArithmeticOverflow)
        } else {
            Ok(self.goals.len() as u32 + 1)
        }
    }

    /// Creates a goal for `owner`. It starts empty and locked, and its id is
    /// one more than the number of goals created before it.
    ///
    /// The call follows the protocol with [`create_check`] as its
    /// validation. On success the new goal is the last of the ledger's
    /// goals, the answer is its id, and `GoalCreated` is to be published; on
    /// failure the goals are what they were.
    pub fn create_goal(
        &mut self,
        ctx: &CallContext,
        owner: &Principal,
        nonce: u64,
        name: String,
        target_amount: i128,
        target_date: u64,
    ) -> (r: Result<Receipt<u32, SavingsEvent>, LedgerError>)
        requires
            old(self).wf(),
        ensures
            final(self).wf(),
            follows_protocol(
                old(self)@.core,
                final(self)@.core,
                *ctx,
                Operation::Create,
                owner@,
                nonce,
                create_check(old(self)@, target_amount),
                failure_of(r),
            ),
            r is Err ==> final(self)@.goals == old(self)@.goals,
            r matches Ok(receipt) ==> {
                &&& receipt.value == old(self)@.goals.len() + 1
                &&& final(self)@.goals == old(self)@.goals.push(
                    SavingsGoalView {
                        id: receipt.value,
                        owner: owner@,
                        name: name@,
                        target_amount,
                        current_amount: 0,
                        target_date,
                        locked: true,
                    },
                )
                &&& event_views(receipt.events@) == seq![
                    record_event(SavingsEvent::GoalCreated, receipt.value, owner@),
                ]
            },
    {
        if !ctx.authorized {
            return Err(LedgerError::Unauthorized);
        }
        let checked = self.check_create(target_amount);
        match self.core.decide(owner, nonce, checked) {
            Err(e) => {
                self.core.settle(ctx, Operation::Create, owner, false);
                Err(e)
            },
            Ok(id) => {
                let goal = SavingsGoal {
                    id,
                    owner: owner.clone(),
                    name,
                    target_amount,
                    current_amount: 0,
                    target_date,
                    locked: true,
                };
                self.goals.push(goal);
                assert(self@.goals =~= old(self)@.goals.push(goal@));
                self.core.settle(ctx, Operation::Create, owner, true);
                Ok(Receipt::with_event(id, Event::about_record(SavingsEvent::GoalCreated, id, owner)))
            },
        }
    }

    fn check_owner(&self, caller: &Principal, goal_id: u32) -> (r: Result<usize, LedgerError>)
        requires
            self.wf(),
        ensures
            failure_of(r) == owner_check(self@, caller@, goal_id),
            r matches Ok(at) ==> at == goal_id - 1 && at < self.goals.len(),
    {
        if goal_id < 1 || goal_id as usize > self.goals.len() {
            return Err(LedgerError::ValidationFailed(ValidationError::RecordNotFound));
        }
        let at: usize = goal_id as usize - 1;
        if !self.goals[at].owner.same(caller) {
            return Err(LedgerError::ValidationFailed(ValidationError::WrongOwner));
        }
        Ok(at)
    }

    fn check_add(&self, caller: &Principal, goal_id: u32, amount: i128) -> (r: Result<
        (usize, i128),
        LedgerError,
    >)
        requires
            self.wf(),
        ensures
            failure_of(r) == add_check(self@, caller@, goal_id, amount),
            r matches Ok(found) ==> found.0 == goal_id - 1 && found.0 < self.goals.len() && found.1
                == self@.goals[goal_id - 1].current_amount + amount,
    {
        if amount <= 0 {
            return Err(LedgerError::ValidationFailed(ValidationError::NonPositiveAmount));
        }
        let at = match self.check_owner(caller, goal_id) {
            Err(e) => {
                return Err(e);
            },
            Ok(at) => at,
        };
        match self.goals[at].current_amount.checked_add(amount) {
            None => Err(LedgerError::ArithmeticOverflow),
            Some(new_amount) => Ok((at, new_amount)),
        }
    }

    /// Adds `amount` to a goal; only its owner may.
    ///
    /// The call follows the protocol with [`add_check`] as its validation.
    /// On success the goal's balance has grown by `amount`, the answer is
    /// the new balance, and `FundsAdded` is to be published, followed by
    /// `GoalCompleted` if the balance has reached the target. On failure the
    /// goals are what they were.
    pub fn add_to_goal(
        &mut self,
        ctx: &CallContext,
        caller: &Principal,
        nonce: u64,
        goal_id: u32,
        amount: i128,
    ) -> (r: Result<Receipt<i128, SavingsEvent>, LedgerError>)
        requires
            old(self).wf(),
        ensures
            final(self).wf(),
            follows_protocol(
                old(self)@.core,
                final(self)@.core,
                *ctx,
                Operation::Add,
                caller@,
                nonce,
                add_check(old(self)@, caller@, goal_id, amount),
                failure_of(r),
            ),
            r is Err ==> final(self)@.goals == old(self)@.goals,
            r matches Ok(receipt) ==> {
                &&& receipt.value == old(self)@.goals[goal_id - 1].current_amount + amount
                &&& final(self)@.goals == old(self)@.goals.update(
                    goal_id - 1,
                    SavingsGoalView {
                        current_amount: receipt.value,
                        ..old(self)@.goals[goal_id - 1]
                    },
                )
                &&& event_views(receipt.events@) == deposit_events(
                    final(self)@.goals[goal_id - 1],
                    amount,
                )
            },
    {
        if !ctx.authorized {
            return Err(LedgerError::Unauthorized);
        }
        let checked = self.check_add(caller, goal_id, amount);
        match self.core.decide(caller, nonce, checked) {
            Err(e) => {
                self.core.settle(ctx, Operation::Add, caller, false);
                Err(e)
            },
            Ok((at, new_amount)) => {
                let changed = with_balance(&self.goals[at], new_amount);
                let is_completed = new_amount >= changed.target_amount;
                self.goals[at] = changed;
                assert(self@.goals =~= old(self)@.goals.update(at as int, changed@));
                self.core.settle(ctx, Operation::Add, caller, true);
                let added = Event::about_movement(SavingsEvent::FundsAdded, goal_id, caller, amount);
                if is_completed {
                    Ok(
                        Receipt::with_events(
                            new_amount,
                            added,
                            Event::about_record(SavingsEvent::GoalCompleted, goal_id, caller),
                        ),
                    )
                } else {
                    Ok(Receipt::with_event(new_amount, added))
                }
            },
        }
    }

    fn check_withdraw(&self, caller: &Principal, goal_id: u32, amount: i128) -> (r: Result<
        (usize, i128),
        LedgerError,
    >)
        requires
            self.wf(),
        ensures
            failure_of(r) == withdraw_check(self@, caller@, goal_id, amount),
            r matches Ok(found) ==> found.0 == goal_id - 1 && found.0 < self.goals.len() && found.1
                == self@.goals[goal_id - 1].current_amount - amount,
    {
        if amount <= 0 {
            return Err(LedgerError::ValidationFailed(ValidationError::NonPositiveAmount));
        }
        let at = match self.check_owner(caller, goal_id) {
            Err(e) => {
                return Err(e);
            },
            Ok(at) => at,
        };
        let goal = &self.goals[at];
        if goal.locked {
            return Err(LedgerError::ValidationFailed(ValidationError::GoalLocked));
        }
        if amount > goal.current_amount {
            return Err(LedgerError::ValidationFailed(ValidationError::InsufficientBalance));
        }
        Ok((at, goal.current_amount - amount))
    }

    /// Takes `amount` out of an unlocked goal; only its owner may.
    ///
    /// The call follows the protocol with [`withdraw_check`] as its
    /// validation. On success the goal's balance has shrunk by `amount`,
    /// the answer is the new balance, and `FundsWithdrawn` is to be
    /// published. On failure the goals are what they were.
    pub fn withdraw_from_goal(
        &mut self,
        ctx: &CallContext,
        caller: &Principal,
        nonce: u64,
        goal_id: u32,
        amount: i128,
    ) -> (r: Result<Receipt<i128, SavingsEvent>, LedgerError>)
        requires
            old(self).wf(),
        ensures
            final(self).wf(),
            follows_protocol(
                old(self)@.core,
                final(self)@.core,
                *ctx,
                Operation::Withdraw,
                caller@,
                nonce,
                withdraw_check(old(self)@, caller@, goal_id, amount),
                failure_of(r),
            ),
            r is Err ==> final(self)@.goals == old(self)@.goals,
            r matches Ok(receipt) ==> {
                &&& receipt.value == old(self)@.goals[goal_id - 1].current_amount - amount
                &&& final(self)@.goals == old(self)@.goals.update(
                    goal_id - 1,
                    SavingsGoalView {
                        current_amount: receipt.value,
                        ..old(self)@.goals[goal_id - 1]
                    },
                )
                &&& event_views(receipt.events@) == seq![
                    movement_event(SavingsEvent::FundsWithdrawn, goal_id, caller@, amount),
                ]
            },
    {
        if !ctx.authorized {
            return Err(LedgerError::Unauthorized);
        }
        let checked = self.check_withdraw(caller, goal_id, amount);
        match self.core.decide(caller, nonce, checked) {
            Err(e) => {
                self.core.settle(ctx, Operation::Withdraw, caller, false);
                Err(e)
            },
            Ok((at, new_amount)) => {
                let changed = with_balance(&self.goals[at], new_amount);
                self.goals[at] = changed;
                assert(self@.goals =~= old(self)@.goals.update(at as int, changed@));
                self.core.settle(ctx, Operation::Withdraw, caller, true);
                Ok(
                    Receipt::with_event(
                        new_amount,
                        Event::about_movement(SavingsEvent::FundsWithdrawn, goal_id, caller, amount),
                    ),
                )
            },
        }
    }

    fn set_lock(
        &mut self,
        ctx: &CallContext,
        caller: &Principal,
        nonce: u64,
        goal_id: u32,
        locked: bool,
    ) -> (r: Result<(), LedgerError>)
        requires
            old(self).wf(),
        ensures
            final(self).wf(),
            follows_protocol(
                old(self)@.core,
                final(self)@.core,
                *ctx,
                if locked {
                    Operation::Lock
                } else {
                    Operation::Unlock
                },
                caller@,
                nonce,
                owner_check(old(self)@, caller@, goal_id),
                failure_of(r),
            ),
            r is Err ==> final(self)@.goals == old(self)@.goals,
            r is Ok ==> final(self)@.goals == old(self)@.goals.update(
                goal_id - 1,
                SavingsGoalView { locked, ..old(self)@.goals[goal_id - 1] },
            ),
    {
        let operation = if locked {
            Operation::Lock
        } else {
            Operation::Unlock
        };
        if !ctx.authorized {
            return Err(LedgerError::Unauthorized);
        }
        let checked = self.check_owner(caller, goal_id);
        match self.core.decide(caller, nonce, checked) {
            Err(e) => {
                self.core.settle(ctx, operation, caller, false);
                Err(e)
            },
            Ok(at) => {
                let changed = with_lock(&self.goals[at], locked);
                self.goals[at] = changed;
                assert(self@.goals =~= old(self)@.goals.update(at as int, changed@));
                self.core.settle(ctx, operation, caller, true);
                Ok(())
            },
        }
    }

    /// Locks a goal against withdrawal; only its owner may.
    ///
    /// The call follows the protocol with [`owner_check`] as its
    /// validation. On success the goal is locked and `GoalLocked` is to be
    /// published; on failure the goals are what they were.
    pub fn lock_goal(&mut self, ctx: &CallContext, caller: &Principal, nonce: u64, goal_id: u32)
        -> (r: Result<Receipt<bool, SavingsEvent>, LedgerError>)
        requires
            old(self).wf(),
        ensures
            final(self).wf(),
            follows_protocol(
                old(self)@.core,
                final(self)@.core,
                *ctx,
                Operation::Lock,
                caller@,
                nonce,
                owner_check(old(self)@, caller@, goal_id),
                failure_of(r),
            ),
            r is Err ==> final(self)@.goals == old(self)@.goals,
            r matches Ok(receipt) ==> {
                &&& final(self)@.goals == old(self)@.goals.update(
                    goal_id - 1,
                    SavingsGoalView { locked: true, ..old(self)@.goals[goal_id - 1] },
                )
                &&& receipt.value
                &&& event_views(receipt.events@) == seq![
                    record_event(SavingsEvent::GoalLocked, goal_id, caller@),
                ]
            },
    {
        match self.set_lock(ctx, caller, nonce, goal_id, true) {
            Err(e) => Err(e),
            Ok(()) => Ok(
                Receipt::with_event(
                    true,
                    Event::about_record(SavingsEvent::GoalLocked, goal_id, caller),
                ),
            ),
        }
    }

    /// Opens a goal for withdrawal; only its owner may.
    ///
    /// The call follows the protocol with [`owner_check`] as its
    /// validation. On success the goal is unlocked and `GoalUnlocked` is to
    /// be published; on failure the goals are what they were.
    pub fn unlock_goal(&mut self, ctx: &CallContext, caller: &Principal, nonce: u64, goal_id: u32)
        -> (r: Result<Receipt<bool, SavingsEvent>, LedgerError>)
        requires
            old(self).wf(),
        ensures
            final(self).wf(),
            follows_protocol(
                old(self)@.core,
                final(self)@.core,
                *ctx,
                Operation::Unlock,
                caller@,
                nonce,
                owner_check(old(self)@, caller@, goal_id),
                failure_of(r),
            ),
            r is Err ==> final(self)@.goals == old(self)@.goals,
            r matches Ok(receipt) ==> {
                &&& final(self)@.goals == old(self)@.goals.update(
                    goal_id - 1,
                    SavingsGoalView { locked: false, ..old(self)@.goals[goal_id - 1] },
                )
                &&& receipt.value
                &&& event_views(receipt.events@) == seq![
                    record_event(SavingsEvent::GoalUnlocked, goal_id, caller@),
                ]
            },
    {
        match self.set_lock(ctx, caller, nonce, goal_id, false) {
            Err(e) => Err(e),
            Ok(()) => Ok(
                Receipt::with_event(
                    true,
                    Event::about_record(SavingsEvent::GoalUnlocked, goal_id, caller),
                ),
            ),
        }
    }

    /// All goals as a snapshot.
    ///
    /// An unauthorized caller is refused with `Unauthorized`; anyone else
    /// gets the snapshot of [`goals_snapshot_of`]. Nothing changes.
    pub fn export_snapshot(&self, ctx: &CallContext, caller: &Principal) -> (r: Result<
        GoalsExportSnapshot,
        LedgerError,
    >)
        requires
            self.wf(),
        ensures
            failure_of(r) == if ctx.authorized {
                None
            } else {
                Some(LedgerError::Unauthorized)
            },
            r matches Ok(snapshot) ==> snapshot@ == goals_snapshot_of(self@.goals),
    {
        if !ctx.authorized {
            return Err(LedgerError::Unauthorized);
        }
        let list = self.goals();
        let next_id: u32 = self.goals.len() as u32;
        let checksum = Self::compute_goals_checksum(GOALS_SNAPSHOT_VERSION, next_id, &list);
        Ok(GoalsExportSnapshot { version: GOALS_SNAPSHOT_VERSION, checksum, next_id, goals: list })
    }

    fn owns_all(&self, caller: &Principal) -> (r: bool)
        ensures
            r == all_owned_by(self@.goals, caller@),
    {
        let mut i: usize = 0;
        while i < self.goals.len()
            invariant
                i <= self.goals.len(),
                forall|k: int| 0 <= k < i ==> (#[trigger] self@.goals[k]).owner == caller@,
            decreases self.goals.len() - i,
        {
            if !self.goals[i].owner.same(caller) {
                assert(self@.goals[i as int].owner != caller@);
                return false;
            }
            i += 1;
        }
        true
    }

    fn check_import(&self, caller: &Principal, snapshot: &GoalsExportSnapshot) -> (r: Result<
        (),
        LedgerError,
    >)
        ensures
            failure_of(r) == goals_import_check(self@, caller@, snapshot@),
    {
        if snapshot.version != GOALS_SNAPSHOT_VERSION {
            return Err(LedgerError::UnsupportedVersion);
        }
        if snapshot.checksum != Self::compute_goals_checksum(
            snapshot.version,
            snapshot.next_id,
            &snapshot.goals,
        ) {
            return Err(LedgerError::ChecksumMismatch);
        }
        if !self.owns_all(caller) {
            return Err(LedgerError::NotOwner);
        }
        if snapshot.next_id as usize != snapshot.goals.len() || !are_numbered(&snapshot.goals) {
            return Err(LedgerError::ValidationFailed(ValidationError::MalformedSnapshot));
        }
        Ok(())
    }

    /// Replaces all goals by those of `snapshot`; only a caller who owns
    /// every goal the ledger holds may.
    ///
    /// The call follows the protocol with [`goals_import_check`] as its
    /// validation. On success the ledger's goals are the snapshot's, whole;
    /// on failure they are what they were. Nothing is published.
    pub fn import_snapshot(
        &mut self,
        ctx: &CallContext,
        caller: &Principal,
        nonce: u64,
        snapshot: GoalsExportSnapshot,
    ) -> (r: Result<Receipt<bool, SavingsEvent>, LedgerError>)
        requires
            old(self).wf(),
        ensures
            final(self).wf(),
            follows_protocol(
                old(self)@.core,
                final(self)@.core,
                *ctx,
                Operation::Import,
                caller@,
                nonce,
                goals_import_check(old(self)@, caller@, snapshot@),
                failure_of(r),
            ),
            r is Err ==> final(self)@.goals == old(self)@.goals,
            r matches Ok(receipt) ==> {
                &&& final(self)@.goals == snapshot@.goals
                &&& receipt.value
                &&& event_views(receipt.events@) == Seq::<EventView<SavingsEvent>>::empty()
            },
    {
        if !ctx.authorized {
            return Err(LedgerError::Unauthorized);
        }
        let checked = self.check_import(caller, &snapshot);
        match self.core.decide(caller, nonce, checked) {
            Err(e) => {
                self.core.settle(ctx, Operation::Import, caller, false);
                Err(e)
            },
            Ok(()) => {
                self.goals = snapshot.goals;
                self.core.settle(ctx, Operation::Import, caller, true);
                Ok(Receipt::silent(true))
            },
        }
    }
}

/// Cutting an amount down to 64 bits leaves its remainder modulo 2^64.
proof fn lemma_low64(amount: i128)
    ensures
        (amount as u64) as int == low64(amount),
{
    assert((amount as u64) as int == (amount as int) % 0x1_0000_0000_0000_0000) by (bit_vector);
}

/// Replacing one goal changes the weight of the list by the difference
/// between the two goals' weights.
proof fn lemma_weight_update(goals: Seq<SavingsGoalView>, k: int, altered: SavingsGoalView)
    requires
        0 <= k < goals.len(),
    ensures
        goals_weight(goals.update(k, altered)) == goals_weight(goals) - goal_weight(goals[k])
            + goal_weight(altered),
    decreases goals.len(),
{
    let changed = goals.update(k, altered);
    if k == goals.len() - 1 {
        assert(changed.drop_last() =~= goals.drop_last());
    } else {
        lemma_weight_update(goals.drop_last(), k, altered);
        assert(changed.drop_last() =~= goals.drop_last().update(k, altered));
    }
}

/// Multiplying by 31 loses nothing in 64 bits: two sums whose products
/// agree in their low 64 bits agree in their low 64 bits themselves.
proof fn lemma_times_31_is_one_to_one(a: int, b: int)
    requires
        (a * 31) % 0x1_0000_0000_0000_0000 == (b * 31) % 0x1_0000_0000_0000_0000,
    ensures
        a % 0x1_0000_0000_0000_0000 == b % 0x1_0000_0000_0000_0000,
{
    let range: int = 0x1_0000_0000_0000_0000;
    let inverse: int = 17256631552825064415;
    let q = (a * 31) / range - (b * 31) / range;
    let d = a - b;
    assert(31 * inverse == 1 + 29 * range);
    assert(31 * d == range * q);
    assert(d == range * (inverse * q - 29 * d));
}

/// A snapshot taken of goals that are numbered from 1 without a gap
/// carries those very goals and passes every check of an import by a
/// caller who owns all goals of the ledger that takes it in.
pub proof fn exported_goals_are_accepted(
    before: SavingsView,
    caller: Seq<char>,
    goals: Seq<SavingsGoalView>,
)
    requires
        numbered(goals),
        all_owned_by(before.goals, caller),
    ensures
        goals_import_check(before, caller, goals_snapshot_of(goals)) is None,
        goals_snapshot_of(goals).goals == goals,
{
}

/// A snapshot in which one goal was replaced by one of a different weight
/// after the checksum was computed is refused with `ChecksumMismatch`.
pub proof fn altered_weight_is_detected(
    before: SavingsView,
    caller: Seq<char>,
    goals: Seq<SavingsGoalView>,
    k: int,
    altered: SavingsGoalView,
)
    requires
        0 <= k < goals.len() <= u32::MAX,
        goal_weight(altered) != goal_weight(goals[k]),
        -0x1_0000_0000_0000_0000 < goal_weight(altered) - goal_weight(goals[k])
            < 0x1_0000_0000_0000_0000,
    ensures
        goals_import_check(
            before,
            caller,
            GoalsExportSnapshotView { goals: goals.update(k, altered), ..goals_snapshot_of(goals) },
        ) == Some(LedgerError::ChecksumMismatch),
{
    let snapshot = goals_snapshot_of(goals);
    let tampered = GoalsExportSnapshotView { goals: goals.update(k, altered), ..snapshot };
    let genuine = snapshot.version + snapshot.next_id + goals_weight(goals);
    let forged = snapshot.version + snapshot.next_id + goals_weight(tampered.goals);
    lemma_weight_update(goals, k, altered);
    if (genuine * 31) % 0x1_0000_0000_0000_0000 == (forged * 31) % 0x1_0000_0000_0000_0000 {
        lemma_times_31_is_one_to_one(genuine, forged);
    }
}

/// A snapshot in which a single id, or the low 64 bits of a single amount,
/// were changed after the checksum was computed is refused with
/// `ChecksumMismatch`.
pub proof fn altered_field_is_detected(
    before: SavingsView,
    caller: Seq<char>,
    goals: Seq<SavingsGoalView>,
    k: int,
    altered: SavingsGoalView,
)
    requires
        0 <= k < goals.len() <= u32::MAX,
        ({
            ||| altered == (SavingsGoalView { id: altered.id, ..goals[k] }) && altered.id
                != goals[k].id
            ||| altered == (SavingsGoalView { target_amount: altered.target_amount, ..goals[k] })
                && low64(altered.target_amount) != low64(goals[k].target_amount)
            ||| altered == (SavingsGoalView { current_amount: altered.current_amount, ..goals[k] })
                && low64(altered.current_amount) != low64(goals[k].current_amount)
        }),
    ensures
        goals_import_check(
            before,
            caller,
            GoalsExportSnapshotView { goals: goals.update(k, altered), ..goals_snapshot_of(goals) },
        ) == Some(LedgerError::ChecksumMismatch),
{
    altered_weight_is_detected(before, caller, goals, k, altered);
}

/// A snapshot whose id counter was changed after the checksum was computed
/// is refused with `ChecksumMismatch`.
pub proof fn altered_counter_is_detected(
    before: SavingsView,
    caller: Seq<char>,
    goals: Seq<SavingsGoalView>,
    next_id: u32,
)
    requires
        goals.len() <= u32::MAX,
        next_id != goals.len(),
    ensures
        goals_import_check(
            before,
            caller,
            GoalsExportSnapshotView { next_id, ..goals_snapshot_of(goals) },
        ) == Some(LedgerError::ChecksumMismatch),
{
    let snapshot = goals_snapshot_of(goals);
    let genuine = snapshot.version + snapshot.next_id + goals_weight(goals);
    let forged = snapshot.version + next_id + goals_weight(goals);
    if (genuine * 31) % 0x1_0000_0000_0000_0000 == (forged * 31) % 0x1_0000_0000_0000_0000 {
        lemma_times_31_is_one_to_one(genuine, forged);
    }
}

/// A snapshot whose checksum was changed is refused with
/// `ChecksumMismatch`.
pub proof fn altered_goals_checksum_is_detected(
    before: SavingsView,
    caller: Seq<char>,
    goals: Seq<SavingsGoalView>,
    checksum: u64,
)
    requires
        goals.len() <= u32::MAX,
        checksum != goals_snapshot_of(goals).checksum,
    ensures
        goals_import_check(
            before,
            caller,
            GoalsExportSnapshotView { checksum, ..goals_snapshot_of(goals) },
        ) == Some(LedgerError::ChecksumMismatch),
{
}

} // verus!
