//! What the engine reports: statuses, failures, and the events it appends to
//! the sink handed to each operation.

use vstd::prelude::*;
use crate::account::AccountId;

verus! {

/// Identifies a proposal. Ids are handed out in increasing order and never reused.
pub type TransactionId = u32;

/// Whether a proposal has reached the quorum, or how many confirmations it lacks.
#[derive(Clone, Copy, Debug, PartialEq, Eq, Structural)]
pub enum ConfirmationStatus {
    Confirmed,
    ConfirmationsNeeded(u32),
}

/// Why an operation was refused, or that the dispatched call failed.
#[derive(Clone, Copy, Debug, PartialEq, Eq, Structural)]
pub enum MultiSigError {
    CallerNotOwner,
    CallerNotSelf,
    OwnerAlreadyExists,
    OwnerNotFound,
    InvalidRequirement,
    TransactionNotFound,
    NotConfirmed,
    ValueMismatch,
    CallExecutionFailed,
    IdSpaceExhausted,
}

/// An owner confirmed a proposal; `status` is the proposal's status right after.
#[derive(Clone, Copy, Debug, PartialEq, Eq)]
pub struct Confirmation {
    pub transaction: TransactionId,
    pub from: AccountId,
    pub status: ConfirmationStatus,
}

/// An owner withdrew a confirmation.
#[derive(Clone, Copy, Debug, PartialEq, Eq)]
pub struct Revocation {
    pub transaction: TransactionId,
    pub from: AccountId,
}

/// A proposal was stored.
#[derive(Clone, Copy, Debug, PartialEq, Eq)]
pub struct Submission {
    pub transaction: TransactionId,
}

/// A proposal was cancelled.
#[derive(Clone, Copy, Debug, PartialEq, Eq)]
pub struct Cancellation {
    pub transaction: TransactionId,
}

/// A proposal was dispatched. `Ok(None)` is a successful call whose output was
/// discarded, `Ok(Some(bytes))` one whose output was kept.
#[derive(Debug, PartialEq, Eq)]
pub struct Execution {
    pub transaction: TransactionId,
    pub result: Result<Option<Vec<u8>>, MultiSigError>,
}

/// An owner joined.
#[derive(Clone, Copy, Debug, PartialEq, Eq)]
pub struct OwnerAddition {
    pub owner: AccountId,
}

/// An owner left.
#[derive(Clone, Copy, Debug, PartialEq, Eq)]
pub struct OwnerRemoval {
    pub owner: AccountId,
}

/// The quorum changed.
#[derive(Clone, Copy, Debug, PartialEq, Eq)]
pub struct RequirementChange {
    pub new_requirement: u32,
}

/// One entry of the engine's event stream.
#[derive(Debug, PartialEq, Eq)]
pub enum Event {
    Confirmation(Confirmation),
    Revocation(Revocation),
    Submission(Submission),
    Cancellation(Cancellation),
    Execution(Execution),
    OwnerAddition(OwnerAddition),
    OwnerRemoval(OwnerRemoval),
    RequirementChange(RequirementChange),
}

/// The status that `count` confirmations give under a quorum of `requirement`.
pub open spec fn status_of(count: nat, requirement: nat) -> ConfirmationStatus {
    if count >= requirement {
        ConfirmationStatus::Confirmed
    } else {
        ConfirmationStatus::ConfirmationsNeeded((requirement - count) as u32)
    }
}

/// Derives a status from a confirmation count and the quorum.
pub fn confirmation_status(count: u32, requirement: u32) -> (status: ConfirmationStatus)
    ensures
        status == status_of(count as nat, requirement as nat),
{
    if count >= requirement {
        ConfirmationStatus::Confirmed
    } else {
        ConfirmationStatus::ConfirmationsNeeded(requirement - count)
    }
}

} // verus!
