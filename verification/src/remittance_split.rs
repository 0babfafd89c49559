//! The remittance split: four percentages that divide every incoming amount
//! between spending, savings, bills and insurance.

use crate::audit::{entry_views, log_read, AuditEntry, Operation};
use crate::error::{failure_of, LedgerError, ValidationError};
use crate::nonce::expected;
use crate::orchestrator::{
    amount_event, event_views, follows_protocol, principal_event, CallContext, Event, EventView,
    Orchestrator, OrchestratorView, Receipt,
};
use crate::principal::Principal;
use vstd::prelude::*;

verus! {

/// The snapshot format this ledger writes and accepts.
pub const SNAPSHOT_VERSION: u32 = 1;

/// What the split ledger asks the host to publish.
#[derive(Clone, Copy, Debug, PartialEq, Eq, Structural)]
pub enum SplitEvent {
    Initialized,
    Updated,
    Calculated,
}

/// The four destinations of a remittance.
#[derive(Clone, Copy, Debug, PartialEq, Eq, Structural)]
pub enum Category {
    Spending,
    Savings,
    Bills,
    Insurance,
}

impl Category {
    /// The name under which the category is reported.
    pub fn name(&self) -> (n: &'static str)
        ensures
            n@ == self.name_text(),
    {
        match self {
            Category::Spending => "SPENDING",
            Category::Savings => "SAVINGS",
            Category::Bills => "BILLS",
            Category::Insurance => "INSURANCE",
        }
    }

    /// The text of [`Category::name`].
    pub open spec fn name_text(&self) -> Seq<char> {
        match self {
            Category::Spending => "SPENDING"@,
            Category::Savings => "SAVINGS"@,
            Category::Bills => "BILLS"@,
            Category::Insurance => "INSURANCE"@,
        }
    }
}

/// One category's share of an amount.
#[derive(Clone, Copy, Debug, PartialEq, Eq, Structural)]
pub struct Allocation {
    pub category: Category,
    pub amount: i128,
}

/// The accounts that receive the four shares.
#[derive(Debug, PartialEq, Eq)]
pub struct AccountGroup {
    pub spending: Principal,
    pub savings: Principal,
    pub bills: Principal,
    pub insurance: Principal,
}

/// A payment the host is to make out of the sender's balance.
#[derive(Debug, PartialEq, Eq)]
pub struct Transfer {
    pub to: Principal,
    pub amount: i128,
}

/// What a [`Transfer`] says, with the recipient as its identifier.
pub ghost struct TransferView {
    pub to: Seq<char>,
    pub amount: i128,
}

impl View for Transfer {
    type V = TransferView;

    open spec fn view(&self) -> TransferView {
        TransferView { to: self.to@, amount: self.amount }
    }
}

/// What a sequence of transfers says, transfer by transfer.
pub open spec fn transfer_views(transfers: Seq<Transfer>) -> Seq<TransferView> {
    Seq::new(transfers.len(), |i: int| transfers[i]@)
}

/// The split and the principal who may change it.
#[derive(Debug, PartialEq, Eq)]
pub struct SplitConfig {
    pub owner: Principal,
    pub spending_percent: u32,
    pub savings_percent: u32,
    pub bills_percent: u32,
    pub insurance_percent: u32,
    pub initialized: bool,
}

/// What a [`SplitConfig`] says, with the owner as its identifier.
pub ghost struct SplitConfigView {
    pub owner: Seq<char>,
    pub spending_percent: u32,
    pub savings_percent: u32,
    pub bills_percent: u32,
    pub insurance_percent: u32,
    pub initialized: bool,
}

impl View for SplitConfig {
    type V = SplitConfigView;

    open spec fn view(&self) -> SplitConfigView {
        SplitConfigView {
            owner: self.owner@,
            spending_percent: self.spending_percent,
            savings_percent: self.savings_percent,
            bills_percent: self.bills_percent,
            insurance_percent: self.insurance_percent,
            initialized: self.initialized,
        }
    }
}

impl Clone for SplitConfig {
    fn clone(&self) -> (copy: Self)
        ensures
            copy@ == self@,
    {
        SplitConfig {
            owner: self.owner.clone(),
            spending_percent: self.spending_percent,
            savings_percent: self.savings_percent,
            bills_percent: self.bills_percent,
            insurance_percent: self.insurance_percent,
            initialized: self.initialized,
        }
    }
}

/// A configuration together with the version and checksum that let an
/// importer recognise it.
#[derive(Debug, PartialEq, Eq)]
pub struct ExportSnapshot {
    pub version: u32,
    pub checksum: u64,
    pub config: SplitConfig,
}

/// What an [`ExportSnapshot`] says.
pub ghost struct ExportSnapshotView {
    pub version: u32,
    pub checksum: u64,
    pub config: SplitConfigView,
}

impl View for ExportSnapshot {
    type V = ExportSnapshotView;

    open spec fn view(&self) -> ExportSnapshotView {
        ExportSnapshotView { version: self.version, checksum: self.checksum, config: self.config@ }
    }
}

impl Clone for ExportSnapshot {
    fn clone(&self) -> (copy: Self)
        ensures
            copy@ == self@,
    {
        ExportSnapshot {
            version: self.version,
            checksum: self.checksum,
            config: self.config.clone(),
        }
    }
}

/// The state of the split ledger.
pub ghost struct RemittanceSplitView {
    pub config: Option<SplitConfigView>,
    pub core: OrchestratorView,
}

/// The sum of four percentages.
pub open spec fn percent_sum(spending: u32, savings: u32, bills: u32, insurance: u32) -> int {
    spending + savings + bills + insurance
}

/// The sum of a configuration's percentages.
pub open spec fn config_sum(config: SplitConfigView) -> int {
    percent_sum(
        config.spending_percent,
        config.savings_percent,
        config.bills_percent,
        config.insurance_percent,
    )
}

/// The percentages in force: those of the configuration, or 50, 30, 15 and
/// 5 while there is none. The order is spending, savings, bills, insurance.
pub open spec fn split_of(config: Option<SplitConfigView>) -> Seq<u32> {
    match config {
        Some(c) => seq![
            c.spending_percent,
            c.savings_percent,
            c.bills_percent,
            c.insurance_percent,
        ],
        None => seq![50u32, 30u32, 15u32, 5u32],
    }
}

/// `percent` hundredths of `total`, rounded down.
pub open spec fn share(total: int, percent: int) -> int {
    (total * percent) / 100
}

/// The four shares of `total`: the first three by their percentages, the
/// last one whatever is left, so that rounding never loses anything.
pub open spec fn shares(total: int, split: Seq<u32>) -> Seq<int> {
    let spending = share(total, split[0] as int);
    let savings = share(total, split[1] as int);
    let bills = share(total, split[2] as int);
    seq![spending, savings, bills, total - spending - savings - bills]
}

/// Why an amount cannot be split, if it cannot: it is not positive, or one
/// of the first three products leaves the range of `i128`.
pub open spec fn calculate_check(config: Option<SplitConfigView>, total: i128) -> Option<
    LedgerError,
> {
    let split = split_of(config);
    if total <= 0 {
        Some(LedgerError::ValidationFailed(ValidationError::NonPositiveAmount))
    } else if total * split[0] > i128::MAX || total * split[1] > i128::MAX || total * split[2]
        > i128::MAX {
        Some(LedgerError::ArithmeticOverflow)
    } else {
        None
    }
}

/// The checksum of a configuration under a format version: the version and
/// the four percentages added up, times 31.
pub open spec fn checksum_of(version: u32, config: SplitConfigView) -> u64 {
    ((version + config_sum(config)) * 31) as u64
}

/// The snapshot of a configuration.
pub open spec fn snapshot_of(config: SplitConfigView) -> ExportSnapshotView {
    ExportSnapshotView {
        version: SNAPSHOT_VERSION,
        checksum: checksum_of(SNAPSHOT_VERSION, config),
        config,
    }
}

/// The payment of one share: nothing if the share is not positive.
pub open spec fn payment(to: Seq<char>, amount: int) -> Seq<TransferView> {
    if amount > 0 {
        seq![TransferView { to, amount: amount as i128 }]
    } else {
        Seq::empty()
    }
}

/// The payments that distribute `total`: one per positive share, in the
/// order spending, savings, bills, insurance.
pub open spec fn payments(
    total: int,
    split: Seq<u32>,
    spending: Seq<char>,
    savings: Seq<char>,
    bills: Seq<char>,
    insurance: Seq<char>,
) -> Seq<TransferView> {
    let amounts = shares(total, split);
    payment(spending, amounts[0]) + payment(savings, amounts[1]) + payment(bills, amounts[2])
        + payment(insurance, amounts[3])
}

/// The shares of `total` as allocations, in the order of the categories.
pub open spec fn allocations(total: int, split: Seq<u32>) -> Seq<Allocation> {
    let amounts = shares(total, split);
    seq![
        Allocation { category: Category::Spending, amount: amounts[0] as i128 },
        Allocation { category: Category::Savings, amount: amounts[1] as i128 },
        Allocation { category: Category::Bills, amount: amounts[2] as i128 },
        Allocation { category: Category::Insurance, amount: amounts[3] as i128 },
    ]
}

/// What initialization objects to: a split that exists already, or
/// percentages that do not add up to 100.
pub open spec fn initialize_check(
    before: RemittanceSplitView,
    spending: u32,
    savings: u32,
    bills: u32,
    insurance: u32,
) -> Option<LedgerError> {
    if before.config is Some {
        Some(LedgerError::ValidationFailed(ValidationError::AlreadyInitialized))
    } else if percent_sum(spending, savings, bills, insurance) != 100 {
        Some(LedgerError::ValidationFailed(ValidationError::PercentagesNotHundred))
    } else {
        None
    }
}

/// What an update objects to: no split yet, a caller who is not its owner,
/// or percentages that do not add up to 100.
pub open spec fn update_check(
    before: RemittanceSplitView,
    caller: Seq<char>,
    spending: u32,
    savings: u32,
    bills: u32,
    insurance: u32,
) -> Option<LedgerError> {
    if before.config is None {
        Some(LedgerError::ValidationFailed(ValidationError::NotInitialized))
    } else if before.config->0.owner != caller {
        Some(LedgerError::ValidationFailed(ValidationError::WrongOwner))
    } else if percent_sum(spending, savings, bills, insurance) != 100 {
        Some(LedgerError::ValidationFailed(ValidationError::PercentagesNotHundred))
    } else {
        None
    }
}

/// What an import objects to, in this order: a foreign format version, a
/// checksum that does not match the configuration, an existing split owned
/// by someone else, or percentages that do not add up to 100.
pub open spec fn import_check(
    before: RemittanceSplitView,
    caller: Seq<char>,
    snapshot: ExportSnapshotView,
) -> Option<LedgerError> {
    if snapshot.version != SNAPSHOT_VERSION {
        Some(LedgerError::UnsupportedVersion)
    } else if snapshot.checksum != checksum_of(snapshot.version, snapshot.config) {
        Some(LedgerError::ChecksumMismatch)
    } else if before.config is Some && before.config->0.owner != caller {
        Some(LedgerError::NotOwner)
    } else if config_sum(snapshot.config) != 100 {
        Some(LedgerError::ValidationFailed(ValidationError::PercentagesNotHundred))
    } else {
        None
    }
}

/// The split ledger: the configuration, if there is one, with the nonces
/// and the audit log of the calls that changed it.
pub struct RemittanceSplit {
    config: Option<SplitConfig>,
    core: Orchestrator,
}

impl View for RemittanceSplit {
    type V = RemittanceSplitView;

    closed spec fn view(&self) -> RemittanceSplitView {
        RemittanceSplitView {
            config: match self.config {
                Some(c) => Some(c@),
                None => None,
            },
            core: self.core@,
        }
    }
}

fn sum_of_percentages(spending: u32, savings: u32, bills: u32, insurance: u32) -> (sum: u64)
    ensures
        sum == percent_sum(spending, savings, bills, insurance),
{
    spending as u64 + savings as u64 + bills as u64 + insurance as u64
}

impl RemittanceSplit {
    /// The nonces and the audit log are well formed.
    pub closed spec fn history_wf(&self) -> bool {
        self.core.wf()
    }

    /// The history is well formed, and the percentages of a stored
    /// configuration add up to 100.
    pub open spec fn wf(&self) -> bool {
        &&& self.history_wf()
        &&& self@.config matches Some(c) ==> config_sum(c) == 100
    }

    /// A ledger without a configuration, without history.
    pub fn new() -> (ledger: RemittanceSplit)
        ensures
            ledger.wf(),
            ledger@.config is None,
            ledger@.core.nonces == Map::<Seq<char>, u64>::empty(),
            ledger@.core.audit == Seq::<crate::audit::AuditEntryView>::empty(),
    {
        RemittanceSplit { config: None, core: Orchestrator::new() }
    }

    /// A ledger made of a configuration and a history, if the configuration's
    /// percentages add up to 100.
    pub fn from_parts(config: Option<SplitConfig>, core: Orchestrator) -> (ledger: Option<
        RemittanceSplit,
    >)
        requires
            core.wf(),
        ensures
            ledger is Some <==> (config matches Some(c) ==> config_sum(c@) == 100),
            ledger matches Some(l) ==> l.wf() && l@.core == core@ && l@.config == match config {
                Some(c) => Some(c@),
                None => None,
            },
    {
        let valid = match &config {
            Some(c) => sum_of_percentages(
                c.spending_percent,
                c.savings_percent,
                c.bills_percent,
                c.insurance_percent,
            ) == 100,
            None => true,
        };
        if valid {
            Some(RemittanceSplit { config, core })
        } else {
            None
        }
    }

    /// The nonces and the audit log.
    pub fn orchestrator(&self) -> (core: &Orchestrator)
        requires
            self.wf(),
        ensures
            core.wf(),
            core@ == self@.core,
    {
        &self.core
    }

    /// The checksum of `config` under `version`.
    pub fn compute_checksum(version: u32, config: &SplitConfig) -> (checksum: u64)
        ensures
            checksum == checksum_of(version, config@),
    {
        let v: u64 = version as u64;
        let s: u64 = config.spending_percent as u64;
        let g: u64 = config.savings_percent as u64;
        let b: u64 = config.bills_percent as u64;
        let i: u64 = config.insurance_percent as u64;
        v.wrapping_add(s).wrapping_add(g).wrapping_add(b).wrapping_add(i).wrapping_mul(31)
    }

    fn check_initialize(&self, spending: u32, savings: u32, bills: u32, insurance: u32) -> (r:
        Result<(), LedgerError>)
        ensures
            failure_of(r) == initialize_check(self@, spending, savings, bills, insurance),
    {
        if self.config.is_some() {
            Err(LedgerError::ValidationFailed(ValidationError::AlreadyInitialized))
        } else if sum_of_percentages(spending, savings, bills, insurance) != 100 {
            Err(LedgerError::ValidationFailed(ValidationError::PercentagesNotHundred))
        } else {
            Ok(())
        }
    }

    /// Sets the split up for `owner`.
    ///
    /// The call follows the protocol of [`follows_protocol`] with
    /// [`initialize_check`] as its validation. On success the ledger holds
    /// the new configuration and asks for `Initialized` to be published; on
    /// failure the configuration is what it was.
    pub fn initialize_split(
        &mut self,
        ctx: &CallContext,
        owner: &Principal,
        nonce: u64,
        spending_percent: u32,
        savings_percent: u32,
        bills_percent: u32,
        insurance_percent: u32,
    ) -> (r: Result<Receipt<bool, SplitEvent>, LedgerError>)
        requires
            old(self).wf(),
        ensures
            final(self).wf(),
            follows_protocol(
                old(self)@.core,
                final(self)@.core,
                *ctx,
                Operation::Init,
                owner@,
                nonce,
                initialize_check(
                    old(self)@,
                    spending_percent,
                    savings_percent,
                    bills_percent,
                    insurance_percent,
                ),
                failure_of(r),
            ),
            r is Err ==> final(self)@.config == old(self)@.config,
            r matches Ok(receipt) ==> {
                &&& final(self)@.config == Some(
                    SplitConfigView {
                        owner: owner@,
                        spending_percent,
                        savings_percent,
                        bills_percent,
                        insurance_percent,
                        initialized: true,
                    },
                )
                &&& receipt.value
                &&& event_views(receipt.events@) == seq![
                    principal_event(SplitEvent::Initialized, owner@),
                ]
            },
    {
        if !ctx.authorized {
            return Err(LedgerError::Unauthorized);
        }
        let checked = self.check_initialize(
            spending_percent,
            savings_percent,
            bills_percent,
            insurance_percent,
        );
        match self.core.decide(owner, nonce, checked) {
            Err(e) => {
                self.core.settle(ctx, Operation::Init, owner, false);
                Err(e)
            },
            Ok(()) => {
                self.config = Some(
                    SplitConfig {
                        owner: owner.clone(),
                        spending_percent,
                        savings_percent,
                        bills_percent,
                        insurance_percent,
                        initialized: true,
                    },
                );
                self.core.settle(ctx, Operation::Init, owner, true);
                Ok(
                    Receipt::with_event(
                        true,
                        Event::about_principal(SplitEvent::Initialized, owner),
                    ),
                )
            },
        }
    }

    fn check_update(
        &self,
        caller: &Principal,
        spending: u32,
        savings: u32,
        bills: u32,
        insurance: u32,
    ) -> (r: Result<(), LedgerError>)
        ensures
            failure_of(r) == update_check(self@, caller@, spending, savings, bills, insurance),
    {
        match &self.config {
            None => Err(LedgerError::ValidationFailed(ValidationError::NotInitialized)),
            Some(config) => {
                if !config.owner.same(caller) {
                    Err(LedgerError::ValidationFailed(ValidationError::WrongOwner))
                } else if sum_of_percentages(spending, savings, bills, insurance) != 100 {
                    Err(LedgerError::ValidationFailed(ValidationError::PercentagesNotHundred))
                } else {
                    Ok(())
                }
            },
        }
    }

    /// Replaces the four percentages; only the owner may.
    ///
    /// The call follows the protocol with [`update_check`] as its
    /// validation. On success the configuration keeps its owner and carries
    /// the new percentages, and `Updated` is to be published; on failure the
    /// configuration is what it was.
    pub fn update_split(
        &mut self,
        ctx: &CallContext,
        caller: &Principal,
        nonce: u64,
        spending_percent: u32,
        savings_percent: u32,
        bills_percent: u32,
        insurance_percent: u32,
    ) -> (r: Result<Receipt<bool, SplitEvent>, LedgerError>)
        requires
            old(self).wf(),
        ensures
            final(self).wf(),
            follows_protocol(
                old(self)@.core,
                final(self)@.core,
                *ctx,
                Operation::Update,
                caller@,
                nonce,
                update_check(
                    old(self)@,
                    caller@,
                    spending_percent,
                    savings_percent,
                    bills_percent,
                    insurance_percent,
                ),
                failure_of(r),
            ),
            r is Err ==> final(self)@.config == old(self)@.config,
            r matches Ok(receipt) ==> {
                &&& final(self)@.config == Some(
                    SplitConfigView {
                        spending_percent,
                        savings_percent,
                        bills_percent,
                        insurance_percent,
                        ..old(self)@.config->0
                    },
                )
                &&& receipt.value
                &&& event_views(receipt.events@) == seq![
                    principal_event(SplitEvent::Updated, caller@),
                ]
            },
    {
        if !ctx.authorized {
            return Err(LedgerError::Unauthorized);
        }
        let checked = self.check_update(
            caller,
            spending_percent,
            savings_percent,
            bills_percent,
            insurance_percent,
        );
        match self.core.decide(caller, nonce, checked) {
            Err(e) => {
                self.core.settle(ctx, Operation::Update, caller, false);
                Err(e)
            },
            Ok(()) => {
                let initialized = match &self.config {
                    Some(config) => config.initialized,
                    None => true,
                };
                self.config = Some(
                    SplitConfig {
                        owner: caller.clone(),
                        spending_percent,
                        savings_percent,
                        bills_percent,
                        insurance_percent,
                        initialized,
                    },
                );
                self.core.settle(ctx, Operation::Update, caller, true);
                Ok(Receipt::with_event(true, Event::about_principal(SplitEvent::Updated, caller)))
            },
        }
    }

    fn check_import(&self, caller: &Principal, snapshot: &ExportSnapshot) -> (r: Result<
        (),
        LedgerError,
    >)
        ensures
            failure_of(r) == import_check(self@, caller@, snapshot@),
    {
        if snapshot.version != SNAPSHOT_VERSION {
            return Err(LedgerError::UnsupportedVersion);
        }
        if snapshot.checksum != Self::compute_checksum(snapshot.version, &snapshot.config) {
            return Err(LedgerError::ChecksumMismatch);
        }
        let foreign = match &self.config {
            Some(existing) => !existing.owner.same(caller),
            None => false,
        };
        if foreign {
            return Err(LedgerError::NotOwner);
        }
        if sum_of_percentages(
            snapshot.config.spending_percent,
            snapshot.config.savings_percent,
            snapshot.config.bills_percent,
            snapshot.config.insurance_percent,
        ) != 100 {
            return Err(LedgerError::ValidationFailed(ValidationError::PercentagesNotHundred));
        }
        Ok(())
    }

    /// Restores the configuration held in `snapshot`.
    ///
    /// The call follows the protocol with [`import_check`] as its
    /// validation. On success the ledger's configuration is the snapshot's,
    /// whole; on failure it is what it was. Nothing is published.
    pub fn import_snapshot(
        &mut self,
        ctx: &CallContext,
        caller: &Principal,
        nonce: u64,
        snapshot: ExportSnapshot,
    ) -> (r: Result<Receipt<bool, SplitEvent>, LedgerError>)
        requires
            old(self).wf(),
        ensures
            final(self).wf(),
            follows_protocol(
                old(self)@.core,
                final(self)@.core,
                *ctx,
                Operation::Import,
                caller@,
                nonce,
                import_check(old(self)@, caller@, snapshot@),
                failure_of(r),
            ),
            r is Err ==> final(self)@.config == old(self)@.config,
            r matches Ok(receipt) ==> {
                &&& final(self)@.config == Some(snapshot@.config)
                &&& receipt.value
                &&& event_views(receipt.events@) == Seq::<EventView<SplitEvent>>::empty()
            },
    {
        if !ctx.authorized {
            return Err(LedgerError::Unauthorized);
        }
        let checked = self.check_import(caller, &snapshot);
        match self.core.decide(caller, nonce, checked) {
            Err(e) => {
                self.core.settle(ctx, Operation::Import, caller, false);
                Err(e)
            },
            Ok(()) => {
                self.config = Some(snapshot.config);
                self.core.settle(ctx, Operation::Import, caller, true);
                Ok(Receipt::silent(true))
            },
        }
    }

    /// The configuration as a snapshot, for its owner.
    ///
    /// An unauthorized caller is refused with `Unauthorized`. Before the
    /// split is initialized there is nothing to export and the answer is
    /// `None`. A caller other than the owner is refused with `NotOwner`.
    /// Nothing changes.
    pub fn export_snapshot(&self, ctx: &CallContext, caller: &Principal) -> (r: Result<
        Option<ExportSnapshot>,
        LedgerError,
    >)
        ensures
            failure_of(r) == if !ctx.authorized {
                Some(LedgerError::Unauthorized)
            } else if self@.config is Some && self@.config->0.owner != caller@ {
                Some(LedgerError::NotOwner)
            } else {
                None
            },
            r matches Ok(exported) ==> match exported {
                Some(snapshot) => self@.config is Some && snapshot@ == snapshot_of(
                    self@.config->0,
                ),
                None => self@.config is None,
            },
    {
        if !ctx.authorized {
            return Err(LedgerError::Unauthorized);
        }
        match &self.config {
            None => Ok(None),
            Some(config) => {
                if !config.owner.same(caller) {
                    return Err(LedgerError::NotOwner);
                }
                let checksum = Self::compute_checksum(SNAPSHOT_VERSION, config);
                Ok(Some(ExportSnapshot { version: SNAPSHOT_VERSION, checksum, config: config.clone() }))
            },
        }
    }

    /// Divides `total_amount` by the percentages in force.
    ///
    /// The amount must be positive and its products with the first three
    /// percentages must fit `i128`; see [`calculate_check`]. The answer holds
    /// the four shares of [`shares`] and asks for `Calculated` to be
    /// published. Nothing changes.
    pub fn calculate_split(&self, total_amount: i128) -> (r: Result<
        Receipt<Vec<i128>, SplitEvent>,
        LedgerError,
    >)
        requires
            self.wf(),
        ensures
            failure_of(r) == calculate_check(self@.config, total_amount),
            r matches Ok(receipt) ==> {
                &&& receipt.value@.len() == 4
                &&& forall|k: int|
                    0 <= k < 4 ==> 0 <= #[trigger] receipt.value@[k] == shares(
                        total_amount as int,
                        split_of(self@.config),
                    )[k]
                &&& event_views(receipt.events@) == seq![
                    amount_event(SplitEvent::Calculated, total_amount),
                ]
            },
    {
        if total_amount <= 0 {
            return Err(LedgerError::ValidationFailed(ValidationError::NonPositiveAmount));
        }
        let split = self.get_split();
        let s0: i128 = split[0] as i128;
        let s1: i128 = split[1] as i128;
        let s2: i128 = split[2] as i128;
        let spending: i128 = match total_amount.checked_mul(s0) {
            Some(product) => product / 100,
            None => {
                return Err(LedgerError::ArithmeticOverflow);
            },
        };
        let savings: i128 = match total_amount.checked_mul(s1) {
            Some(product) => product / 100,
            None => {
                return Err(LedgerError::ArithmeticOverflow);
            },
        };
        let bills: i128 = match total_amount.checked_mul(s2) {
            Some(product) => product / 100,
            None => {
                return Err(LedgerError::ArithmeticOverflow);
            },
        };
        proof {
            lemma_shares_are_whole(
                total_amount as int,
                split@[0] as int,
                split@[1] as int,
                split@[2] as int,
            );
        }
        let insurance: i128 = total_amount - spending - savings - bills;
        Ok(
            Receipt::with_event(
                vec![spending, savings, bills, insurance],
                Event::about_amount(SplitEvent::Calculated, total_amount),
            ),
        )
    }

    /// Plans the distribution of `total_amount` out of `from`'s balance to
    /// the four accounts.
    ///
    /// The call follows the protocol with [`calculate_check`] as its
    /// validation. On success the answer lists the transfers the host is to
    /// make, one per positive share, and asks for `Calculated` to be
    /// published. The configuration never changes.
    pub fn distribute_usdc(
        &mut self,
        ctx: &CallContext,
        from: &Principal,
        nonce: u64,
        accounts: &AccountGroup,
        total_amount: i128,
    ) -> (r: Result<Receipt<Vec<Transfer>, SplitEvent>, LedgerError>)
        requires
            old(self).wf(),
        ensures
            final(self).wf(),
            follows_protocol(
                old(self)@.core,
                final(self)@.core,
                *ctx,
                Operation::Distribute,
                from@,
                nonce,
                calculate_check(old(self)@.config, total_amount),
                failure_of(r),
            ),
            final(self)@.config == old(self)@.config,
            r matches Ok(receipt) ==> {
                &&& transfer_views(receipt.value@) == payments(
                    total_amount as int,
                    split_of(old(self)@.config),
                    accounts.spending@,
                    accounts.savings@,
                    accounts.bills@,
                    accounts.insurance@,
                )
                &&& event_views(receipt.events@) == seq![
                    amount_event(SplitEvent::Calculated, total_amount),
                ]
            },
    {
        if !ctx.authorized {
            return Err(LedgerError::Unauthorized);
        }
        let calculated = self.calculate_split(total_amount);
        match self.core.decide(from, nonce, calculated) {
            Err(e) => {
                self.core.settle(ctx, Operation::Distribute, from, false);
                Err(e)
            },
            Ok(receipt) => {
                let amounts = receipt.value;
                let mut transfers: Vec<Transfer> = Vec::new();
                if amounts[0] > 0 {
                    transfers.push(Transfer { to: accounts.spending.clone(), amount: amounts[0] });
                }
                if amounts[1] > 0 {
                    transfers.push(Transfer { to: accounts.savings.clone(), amount: amounts[1] });
                }
                if amounts[2] > 0 {
                    transfers.push(Transfer { to: accounts.bills.clone(), amount: amounts[2] });
                }
                if amounts[3] > 0 {
                    transfers.push(Transfer { to: accounts.insurance.clone(), amount: amounts[3] });
                }
                assert(transfer_views(transfers@) =~= payments(
                    total_amount as int,
                    split_of(old(self)@.config),
                    accounts.spending@,
                    accounts.savings@,
                    accounts.bills@,
                    accounts.insurance@,
                ));
                self.core.settle(ctx, Operation::Distribute, from, true);
                Ok(Receipt { value: transfers, events: receipt.events })
            },
        }
    }

    /// The four shares of `total_amount`, each with its category.
    ///
    /// Fails as [`RemittanceSplit::calculate_split`] does, and like it asks
    /// for `Calculated` to be published. Nothing changes.
    pub fn get_split_allocations(&self, total_amount: i128) -> (r: Result<
        Receipt<Vec<Allocation>, SplitEvent>,
        LedgerError,
    >)
        requires
            self.wf(),
        ensures
            failure_of(r) == calculate_check(self@.config, total_amount),
            r matches Ok(receipt) ==> {
                &&& receipt.value@ == allocations(total_amount as int, split_of(self@.config))
                &&& event_views(receipt.events@) == seq![
                    amount_event(SplitEvent::Calculated, total_amount),
                ]
            },
    {
        match self.calculate_split(total_amount) {
            Err(e) => Err(e),
            Ok(receipt) => {
                let amounts = receipt.value;
                let result = vec![
                    Allocation { category: Category::Spending, amount: amounts[0] },
                    Allocation { category: Category::Savings, amount: amounts[1] },
                    Allocation { category: Category::Bills, amount: amounts[2] },
                    Allocation { category: Category::Insurance, amount: amounts[3] },
                ];
                assert(result@ =~= allocations(total_amount as int, split_of(self@.config)));
                Ok(Receipt { value: result, events: receipt.events })
            },
        }
    }

    /// The percentages in force, in the order spending, savings, bills,
    /// insurance.
    pub fn get_split(&self) -> (split: Vec<u32>)
        ensures
            split@ == split_of(self@.config),
    {
        let split = match &self.config {
            Some(c) => vec![
                c.spending_percent,
                c.savings_percent,
                c.bills_percent,
                c.insurance_percent,
            ],
            None => vec![50u32, 30u32, 15u32, 5u32],
        };
        assert(split@ =~= split_of(self@.config));
        split
    }

    /// The configuration, if the split was initialized.
    pub fn get_config(&self) -> (config: Option<SplitConfig>)
        ensures
            config is Some <==> self@.config is Some,
            config matches Some(c) ==> c@ == self@.config->0,
    {
        match &self.config {
            Some(c) => Some(c.clone()),
            None => None,
        }
    }

    /// The nonce `address` must present with its next state-changing call.
    pub fn get_nonce(&self, address: &Principal) -> (n: u64)
        requires
            self.wf(),
        ensures
            n == expected(self@.core.nonces, address@),
    {
        self.core.get_nonce(address)
    }

    /// A page of the audit log, oldest entry first, never longer than the
    /// log's capacity.
    pub fn get_audit_log(&self, from_index: u32, limit: u32) -> (page: Vec<AuditEntry>)
        ensures
            entry_views(page@) == log_read(self@.core.audit, from_index, limit),
    {
        self.core.get_audit_log(from_index, limit)
    }
}

/// With percentages that add up to at most 100, the first three shares of
/// a positive amount are not negative and leave a remainder that is not
/// negative either.
proof fn lemma_shares_are_whole(total: int, spending: int, savings: int, bills: int)
    requires
        total > 0,
        0 <= spending,
        0 <= savings,
        0 <= bills,
        spending + savings + bills <= 100,
    ensures
        0 <= share(total, spending) <= total * spending,
        0 <= share(total, savings) <= total * savings,
        0 <= share(total, bills) <= total * bills,
        share(total, spending) + share(total, savings) + share(total, bills) <= total,
{
    assert(total * spending >= 0 && total * savings >= 0 && total * bills >= 0
        && total * spending + total * savings + total * bills <= total * 100)
        by (nonlinear_arith)
        requires
            total > 0,
            0 <= spending,
            0 <= savings,
            0 <= bills,
            spending + savings + bills <= 100,
    ;
}

/// The four shares of any amount add up to the amount, whatever the
/// percentages; rounding is absorbed by the last share.
pub proof fn shares_sum_to_total(total: int, split: Seq<u32>)
    requires
        split.len() == 4,
    ensures
        shares(total, split)[0] + shares(total, split)[1] + shares(total, split)[2] + shares(
            total,
            split,
        )[3] == total,
{
}

/// With percentages that add up to 100, no share of a positive amount is
/// negative.
pub proof fn shares_are_not_negative(total: int, split: Seq<u32>)
    requires
        split.len() == 4,
        split[0] + split[1] + split[2] + split[3] == 100,
        total >= 1,
    ensures
        forall|k: int| 0 <= k < 4 ==> #[trigger] shares(total, split)[k] >= 0,
{
    lemma_shares_are_whole(total, split[0] as int, split[1] as int, split[2] as int);
}

/// A snapshot taken of a configuration passes every check of an import by
/// the configuration's owner into the ledger it was taken from, or into a
/// ledger without a configuration.
pub proof fn exported_snapshot_is_accepted(before: RemittanceSplitView, config: SplitConfigView)
    requires
        config_sum(config) == 100,
        before.config is Some ==> before.config->0.owner == config.owner,
    ensures
        import_check(before, config.owner, snapshot_of(config)) is None,
{
}

/// A snapshot in which one percentage was changed after the checksum was
/// computed is refused with `ChecksumMismatch`.
pub proof fn altered_percentage_is_detected(
    before: RemittanceSplitView,
    caller: Seq<char>,
    genuine: SplitConfigView,
    altered: SplitConfigView,
)
    requires
        config_sum(altered) != config_sum(genuine),
    ensures
        import_check(
            before,
            caller,
            ExportSnapshotView { config: altered, ..snapshot_of(genuine) },
        ) == Some(LedgerError::ChecksumMismatch),
{
}

/// A snapshot whose checksum was changed is refused with
/// `ChecksumMismatch`.
pub proof fn altered_checksum_is_detected(
    before: RemittanceSplitView,
    caller: Seq<char>,
    genuine: SplitConfigView,
    checksum: u64,
)
    requires
        checksum != checksum_of(SNAPSHOT_VERSION, genuine),
    ensures
        import_check(
            before,
            caller,
            ExportSnapshotView { checksum, ..snapshot_of(genuine) },
        ) == Some(LedgerError::ChecksumMismatch),
{
}

} // verus!
