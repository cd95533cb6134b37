//! What holds of the engine across operations, proved over the state model
//! that the operations' contracts are written in.

use vstd::prelude::*;
use crate::account::AccountId;
use crate::events::{ConfirmationStatus, Event, MultiSigError, TransactionId};
use crate::ledger::Transaction;
use crate::engine::{CallContext, Multisig, MultisigView, from_wallet, lemma_swap_removed};
use crate::owners::MAX_OWNERS;

verus! {

/// In every state that an engine can be in, the quorum is at least one and at
/// most the number of owners, and there are at most `MAX_OWNERS` owners.
pub proof fn law_quorum_within_owners(engine: Multisig)
    requires
        engine.wf(),
    ensures
        1 <= engine@.requirement <= engine@.owners.len() <= MAX_OWNERS,
        engine@.valid(),
{
    engine.lemma_valid();
}

/// Confirming, revoking, removing a proposal and withdrawing an owner's
/// confirmations each lead from a valid state to a valid state.
pub proof fn law_validity_is_kept(s: MultisigView, id: TransactionId, owner: AccountId)
    requires
        s.valid(),
    ensures
        s.is_live(id) && s.is_owner(owner) ==> s.confirmed(id, owner).valid(),
        s.revoked(id, owner).valid(),
        s.without_transaction(id).valid(),
        s.without_confirmations_of(owner).valid(),
{
    if s.is_live(id) && s.is_owner(owner) {
        assert(s.owners.to_set().contains(owner));
    }
}

/// Confirming twice is confirming once: the second confirmation by the same
/// owner leaves the state, and so the count, as it is and announces nothing.
pub proof fn law_confirm_idempotent(s: MultisigView, id: TransactionId, owner: AccountId)
    requires
        s.is_live(id),
    ensures
        s.confirmed(id, owner).confirmed(id, owner) == s.confirmed(id, owner),
        s.confirmed(id, owner).confirmed(id, owner).pending[id].confirmation_count == s.confirmed(
            id,
            owner,
        ).pending[id].confirmation_count,
        s.confirmed(id, owner).confirmation_events(id, owner) == Seq::<Event>::empty(),
{
    let once = s.confirmed(id, owner);
    assert(once.pending[id].confirmed_by.contains(owner));
    assert(once.confirmed(id, owner).pending =~= once.pending);
}

/// A proposal's status is `Confirmed` exactly when its count has reached the
/// quorum, after a confirmation as at any other time; and a revocation that
/// takes the count below the quorum leaves the proposal needing the difference.
pub proof fn law_status_follows_count(s: MultisigView, id: TransactionId, owner: AccountId)
    requires
        s.valid(),
        s.is_live(id),
    ensures
        s.status(id) == ConfirmationStatus::Confirmed <==> s.pending[id].confirmation_count
            >= s.requirement,
        s.confirmed(id, owner).status(id) == ConfirmationStatus::Confirmed <==> s.confirmed(
            id,
            owner,
        ).pending[id].confirmation_count >= s.requirement,
        s.has_confirmed(id, owner) && s.pending[id].confirmation_count - 1 < s.requirement
            ==> s.revoked(id, owner).status(id) == ConfirmationStatus::ConfirmationsNeeded(
            (s.requirement - (s.pending[id].confirmation_count - 1)) as u32,
        ),
{
    if s.has_confirmed(id, owner) {
        assert(s.pending[id].confirmed_by.len() > 0);
    }
}

/// Once a proposal was removed, which is what a successful invocation,
/// evaluation or cancellation does, it is not live, and invoking or
/// evaluating it again, or cancelling it again from the engine itself, fails
/// with `TransactionNotFound`.
pub proof fn law_single_destruction(s: MultisigView, id: TransactionId, ctx: CallContext)
    ensures
        !s.without_transaction(id).is_live(id),
        s.without_transaction(id).invoke_outcome(ctx, id) == Err::<Transaction, MultiSigError>(
            MultiSigError::TransactionNotFound,
        ),
        s.without_transaction(id).eval_outcome(id) == Err::<Transaction, MultiSigError>(
            MultiSigError::TransactionNotFound,
        ),
        from_wallet(ctx) ==> s.without_transaction(id).cancel_outcome(ctx, id) == Err::<
            (),
            MultiSigError,
        >(MultiSigError::TransactionNotFound),
{
}

/// Removing an owner leaves a valid state in which that owner is no owner and
/// has no confirmation on any proposal; every other confirmation stays, and a
/// proposal's count goes down by one exactly where the owner had confirmed.
pub proof fn law_owner_removal_cleans_up(s: MultisigView, owner: AccountId)
    requires
        s.valid(),
        s.is_owner(owner),
        s.owners.len() > 1,
    ensures
        s.without_owner(owner).valid(),
        !s.without_owner(owner).is_owner(owner),
        forall|id: TransactionId| s.without_owner(owner).is_live(id) == s.is_live(id),
        forall|id: TransactionId| #[trigger]
            s.is_live(id) ==> {
                &&& !s.without_owner(owner).has_confirmed(id, owner)
                &&& s.without_owner(owner).pending[id].confirmed_by
                    == s.pending[id].confirmed_by.remove(owner)
                &&& s.without_owner(owner).pending[id].confirmation_count
                    == s.pending[id].confirmation_count - if s.has_confirmed(id, owner) {
                    1int
                } else {
                    0int
                }
            },
{
    let t = s.without_owner(owner);
    let i = s.owners.index_of(owner);
    lemma_swap_removed(s.owners, i);
    assert(t.owners.to_set().contains(owner) == t.owners.contains(owner));
    assert forall|id: TransactionId| #[trigger] s.is_live(id) implies t.pending[id].confirmed_by
        == s.pending[id].confirmed_by.remove(owner) by {
        assert(s.pending.contains_key(id));
        if !s.pending[id].confirmed_by.contains(owner) {
            assert(s.pending[id].confirmed_by.remove(owner) =~= s.pending[id].confirmed_by);
        }
    }
    assert forall|id: TransactionId| #[trigger] t.pending.contains_key(id) implies {
        &&& id < t.next_id
        &&& t.pending[id].confirmed_by.finite()
        &&& t.pending[id].confirmed_by.len() == t.pending[id].confirmation_count
        &&& t.pending[id].confirmed_by.subset_of(t.owners.to_set())
    } by {
        assert(s.pending.contains_key(id));
        assert(s.is_live(id));
    }
}

} // verus!
