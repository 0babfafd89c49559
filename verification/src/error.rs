//! The conditions under which a call is refused.

use vstd::prelude::*;

verus! {

/// A domain rule that an operation's arguments or target broke.
#[derive(Clone, Copy, Debug, PartialEq, Eq, Structural)]
pub enum ValidationError {
    /// An amount that must be strictly positive was zero or negative.
    NonPositiveAmount,
    /// Four percentages did not add up to exactly 100.
    PercentagesNotHundred,
    /// No record carries the given id.
    RecordNotFound,
    /// The caller does not own the record or configuration it tried to change.
    WrongOwner,
    /// A withdrawal was attempted on a locked goal.
    GoalLocked,
    /// A withdrawal asked for more than the goal holds.
    InsufficientBalance,
    /// The split was already initialized.
    AlreadyInitialized,
    /// The split has not been initialized yet.
    NotInitialized,
    /// The bill was already paid.
    AlreadyPaid,
    /// A recurring bill was given a frequency of zero days.
    ZeroFrequency,
    /// The policy is no longer active.
    PolicyInactive,
    /// A monthly premium that must be strictly positive was zero or negative.
    NonPositivePremium,
    /// A coverage amount that must be strictly positive was zero or negative.
    NonPositiveCoverage,
    /// A snapshot's records are not numbered 1, 2, ... up to its counter.
    MalformedSnapshot,
}

/// Why a call was refused. Every refusal names the violated condition.
#[derive(Clone, Copy, Debug, PartialEq, Eq, Structural)]
pub enum LedgerError {
    /// The authorization check did not confirm the designated principal.
    Unauthorized,
    /// The supplied nonce is not the one expected next for the principal.
    ReplayRejected,
    /// A domain rule was violated.
    ValidationFailed(ValidationError),
    /// A checked addition or multiplication left the representable range.
    ArithmeticOverflow,
    /// A checked subtraction left the representable range. Every
    /// subtraction these ledgers make follows a validation that rules this
    /// out, so none of their operations reports it.
    ArithmeticUnderflow,
    /// A snapshot carries a format version other than the current one.
    UnsupportedVersion,
    /// A snapshot's checksum does not match its contents.
    ChecksumMismatch,
    /// A snapshot operation was attempted by someone other than the owner.
    NotOwner,
}

/// The error of a result, if it is one.
pub open spec fn failure_of<T>(r: Result<T, LedgerError>) -> Option<LedgerError> {
    match r {
        Ok(_) => None,
        Err(e) => Some(e),
    }
}

} // verus!
