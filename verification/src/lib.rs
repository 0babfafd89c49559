//! Owned, replay-protected ledgers with an audited history.
//!
//! Four small ledgers (a remittance split, savings goals, bills and insurance
//! policies) share one discipline for every state-changing call: the caller
//! must be authorized, must present the nonce the ledger expects next, and
//! must pass the ledger's own validation; only then is the state changed, the
//! nonce advanced and a successful entry written to a bounded audit log. A
//! call that passes authorization but fails later leaves a failed audit entry
//! and nothing else.
//!
//! The ledgers hold plain values only. Whatever the host supplies for one call
//! (the verdict of its authorization check and its clock) arrives in a
//! [`CallContext`]; whatever the host must do after a call (publish events,
//! move tokens) is handed back in a [`Receipt`].

pub mod audit;
pub mod bill_payments;
pub mod error;
pub mod insurance;
pub mod nonce;
pub mod orchestrator;
pub mod principal;
pub mod remittance_split;
pub mod savings_goals;

pub use audit::{AuditEntry, AuditEntryView, AuditLog, Operation, MAX_AUDIT_ENTRIES};
pub use bill_payments::{Bill, BillEvent, BillPayments};
pub use error::{LedgerError, ValidationError};
pub use insurance::{Insurance, InsuranceEvent, InsurancePolicy};
pub use nonce::NonceTable;
pub use orchestrator::{CallContext, Event, Orchestrator, Receipt};
pub use principal::Principal;
pub use remittance_split::{
    AccountGroup, Allocation, Category, ExportSnapshot, RemittanceSplit, SplitConfig, SplitEvent,
    Transfer,
};
pub use savings_goals::{GoalsExportSnapshot, SavingsEvent, SavingsGoal, SavingsGoalContract};
