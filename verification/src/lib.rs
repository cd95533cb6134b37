//! A multi-party approval engine: a fixed set of owners jointly authorises
//! external actions, each of which runs only after a quorum of confirmations.
//!
//! The engine is a pure state machine. The host supplies the facts about each
//! call (who calls, the engine's own address, the value attached) and consumes
//! the events that the engine appends to a sink; the engine decides.

pub mod account;
pub mod engine;
pub mod events;
pub mod laws;
pub mod ledger;
pub mod owners;

pub use account::{AccountId, Balance, Rank};
pub use engine::{CallContext, Multisig, MultisigView};
pub use events::{
    Cancellation, Confirmation, ConfirmationStatus, Event, Execution, MultiSigError,
    OwnerAddition, OwnerRemoval, RequirementChange, Revocation, Submission, TransactionId,
    confirmation_status,
};
pub use ledger::{PendingTransaction, PendingView, Transaction, Transactions};
pub use owners::{MAX_OWNERS, ensure_requirement_is_valid, normalize_owners, position_of};
