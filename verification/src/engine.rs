//! The approval engine: owner registry, quorum, and the operations that move
//! a proposal from submission to execution or cancellation.

use vstd::prelude::*;
use vstd::set_lib::lemma_len_subset;
use crate::account::{AccountId, Balance};
use crate::events::{
    Cancellation, Confirmation, ConfirmationStatus, Event, Execution, MultiSigError,
    OwnerAddition, OwnerRemoval, Revocation, RequirementChange, Submission, TransactionId,
    confirmation_status, status_of,
};
use crate::ledger::{
    PendingView, Transaction, Transactions, lemma_ledger_counts, lemma_push_to_set,
};
use crate::owners::{
    MAX_OWNERS, ensure_requirement_is_valid, has_no_duplicates, normalize_owners, position_of,
    requirement_is_valid, strictly_ascending,
};

verus! {

/// What the host reports about the call that is being served.
#[derive(Clone, Copy, Debug, PartialEq, Eq)]
pub struct CallContext {
    /// Who makes the call.
    pub caller: AccountId,
    /// The engine's own address.
    pub account_id: AccountId,
    /// The value attached to the call.
    pub transferred_value: Balance,
}

/// The engine's state as mathematics.
pub struct MultisigView {
    pub owners: Seq<AccountId>,
    pub requirement: u32,
    pub next_id: TransactionId,
    pub pending: Map<TransactionId, PendingView>,
}

impl MultisigView {
    /// The quorum is at least one and at most the number of owners, which is
    /// within the bound; owners are distinct; every live id was handed out;
    /// every confirmation is an owner's, and each count is their number.
    pub open spec fn valid(self) -> bool {
        &&& requirement_is_valid(self.owners.len() as int, self.requirement as int)
        &&& self.owners.no_duplicates()
        &&& forall|id: TransactionId| #[trigger]
            self.pending.contains_key(id) ==> {
                &&& id < self.next_id
                &&& self.pending[id].confirmed_by.finite()
                &&& self.pending[id].confirmed_by.len() == self.pending[id].confirmation_count
                &&& self.pending[id].confirmed_by.subset_of(self.owners.to_set())
            }
    }

    pub open spec fn is_owner(self, account: AccountId) -> bool {
        self.owners.contains(account)
    }

    pub open spec fn is_live(self, id: TransactionId) -> bool {
        self.pending.contains_key(id)
    }

    /// The status of a live proposal.
    pub open spec fn status(self, id: TransactionId) -> ConfirmationStatus {
        status_of(self.pending[id].confirmation_count, self.requirement as nat)
    }

    pub open spec fn is_confirmed(self, id: TransactionId) -> bool {
        self.pending[id].confirmation_count >= self.requirement
    }

    /// The state after `owner` has confirmed the live proposal `id`.
    pub open spec fn confirmed(self, id: TransactionId, owner: AccountId) -> MultisigView {
        MultisigView { pending: self.pending.insert(id, self.pending[id].confirm(owner)), ..self }
    }

    /// What is announced when `owner` confirms the live proposal `id`:
    /// the confirmation with the status it leads to if it is new, else nothing.
    pub open spec fn confirmation_events(self, id: TransactionId, owner: AccountId) -> Seq<Event> {
        if self.pending[id].confirmed_by.contains(owner) {
            Seq::<Event>::empty()
        } else {
            seq![
                Event::Confirmation(
                    Confirmation {
                        transaction: id,
                        from: owner,
                        status: self.confirmed(id, owner).status(id),
                    },
                ),
            ]
        }
    }

    /// `owner` has a confirmation recorded for the live proposal `id`.
    pub open spec fn has_confirmed(self, id: TransactionId, owner: AccountId) -> bool {
        self.is_live(id) && self.pending[id].confirmed_by.contains(owner)
    }

    /// The state after `owner` has revoked a confirmation of `id`.
    pub open spec fn revoked(self, id: TransactionId, owner: AccountId) -> MultisigView {
        if self.has_confirmed(id, owner) {
            MultisigView {
                pending: self.pending.insert(id, self.pending[id].revoke(owner)),
                ..self
            }
        } else {
            self
        }
    }

    /// What is announced when `owner` revokes a confirmation of `id`.
    pub open spec fn revocation_events(self, id: TransactionId, owner: AccountId) -> Seq<Event> {
        if self.has_confirmed(id, owner) {
            seq![Event::Revocation(Revocation { transaction: id, from: owner })]
        } else {
            Seq::<Event>::empty()
        }
    }

    /// The state after `id` and its confirmations were removed.
    pub open spec fn without_transaction(self, id: TransactionId) -> MultisigView {
        MultisigView { pending: self.pending.remove(id), ..self }
    }

    /// The state with every confirmation of `owner` withdrawn.
    pub open spec fn without_confirmations_of(self, owner: AccountId) -> MultisigView {
        MultisigView {
            pending: self.pending.map_values(|p: PendingView| p.revoke(owner)),
            ..self
        }
    }

    /// The state after `owner` was removed: the last owner takes the place of
    /// `owner`, the quorum is capped by the number of owners left, and the
    /// confirmations of `owner` are withdrawn.
    pub open spec fn without_owner(self, owner: AccountId) -> MultisigView {
        MultisigView {
            owners: swap_removed(self.owners, self.owners.index_of(owner)),
            requirement: if self.requirement < self.owners.len() - 1 {
                self.requirement
            } else {
                (self.owners.len() - 1) as u32
            },
            ..self.without_confirmations_of(owner)
        }
    }

    /// What cancelling `id` returns.
    pub open spec fn cancel_outcome(self, ctx: CallContext, id: TransactionId) -> Result<
        (),
        MultiSigError,
    > {
        if !from_wallet(ctx) {
            Err(MultiSigError::CallerNotSelf)
        } else if !self.is_live(id) {
            Err(MultiSigError::TransactionNotFound)
        } else {
            Ok(())
        }
    }

    /// What evaluating `id` returns: the proposal to dispatch, or the refusal.
    pub open spec fn eval_outcome(self, id: TransactionId) -> Result<Transaction, MultiSigError> {
        if !self.is_live(id) {
            Err(MultiSigError::TransactionNotFound)
        } else if !self.is_confirmed(id) {
            Err(MultiSigError::NotConfirmed)
        } else {
            Ok(self.pending[id].transaction)
        }
    }

    /// What invoking `id` returns: the proposal to dispatch, or the refusal.
    pub open spec fn invoke_outcome(self, ctx: CallContext, id: TransactionId) -> Result<
        Transaction,
        MultiSigError,
    > {
        if !self.is_live(id) {
            Err(MultiSigError::TransactionNotFound)
        } else if !self.is_confirmed(id) {
            Err(MultiSigError::NotConfirmed)
        } else if ctx.transferred_value != self.pending[id].transaction.transferred_value {
            Err(MultiSigError::ValueMismatch)
        } else {
            Ok(self.pending[id].transaction)
        }
    }
}

/// The call comes from the engine itself.
pub open spec fn from_wallet(ctx: CallContext) -> bool {
    ctx.caller == ctx.account_id
}

/// The owner list with the entry at `i` replaced by the last one, which is dropped.
pub open spec fn swap_removed(owners: Seq<AccountId>, i: int) -> Seq<AccountId> {
    owners.update(i, owners.last()).drop_last()
}

/// The engine.
pub struct Multisig {
    owners: Vec<AccountId>,
    requirement: u32,
    transaction_list: Transactions,
}

impl View for Multisig {
    type V = MultisigView;

    closed spec fn view(&self) -> MultisigView {
        MultisigView {
            owners: self.owners@,
            requirement: self.requirement,
            next_id: self.transaction_list.upcoming(),
            pending: self.transaction_list@,
        }
    }
}

/// Owners, quorum and proposals fit together: the quorum is at least one and
/// at most the number of owners, which is within the bound; no owner is listed
/// twice; every confirmation is an owner's.
pub open spec fn restorable(
    owners: Seq<AccountId>,
    requirement: u32,
    pending: Map<TransactionId, PendingView>,
) -> bool {
    &&& requirement_is_valid(owners.len() as int, requirement as int)
    &&& owners.no_duplicates()
    &&& forall|id: TransactionId| #[trigger]
        pending.contains_key(id) ==> pending[id].confirmed_by.subset_of(owners.to_set())
}

impl Multisig {
    /// The representation is sound; every operation keeps it so.
    pub closed spec fn wf(&self) -> bool {
        &&& self.transaction_list.wf()
        &&& requirement_is_valid(self.owners@.len() as int, self.requirement as int)
        &&& self.owners@.no_duplicates()
        &&& forall|id: TransactionId| #[trigger]
            self.transaction_list@.contains_key(id)
                ==> self.transaction_list@[id].confirmed_by.subset_of(self.owners@.to_set())
    }

    /// A well-formed engine is in a valid state.
    pub proof fn lemma_valid(&self)
        requires
            self.wf(),
        ensures
            self@.valid(),
    {
        lemma_ledger_counts(self.transaction_list);
    }

    /// An engine with the given quorum and owners, the owners sorted and
    /// repeated entries dropped, and no proposal.
    pub fn new(requirement: u32, owners: Vec<AccountId>) -> (engine: Multisig)
        requires
            requirement_is_valid(owners@.to_set().len() as int, requirement as int),
        ensures
            engine.wf(),
            strictly_ascending(engine@.owners),
            engine@.owners.to_set() == owners@.to_set(),
            engine@.requirement == requirement,
            engine@.next_id == 0,
            engine@.pending == Map::<TransactionId, PendingView>::empty(),
    {
        let owners = normalize_owners(owners);
        Multisig { owners, requirement, transaction_list: Transactions::new() }
    }

    /// An engine made of what was stored for one: `None` unless the quorum
    /// fits the owners, no owner is listed twice and every confirmation on
    /// record is an owner's.
    pub fn restore(owners: Vec<AccountId>, requirement: u32, ledger: Transactions) -> (r: Option<
        Multisig,
    >)
        requires
            ledger.wf(),
        ensures
            r.is_some() == restorable(owners@, requirement, ledger@),
            r.is_some() ==> r.unwrap().wf() && r.unwrap()@ == (MultisigView {
                owners: owners@,
                requirement,
                next_id: ledger.upcoming(),
                pending: ledger@,
            }),
    {
        if owners.len() > MAX_OWNERS as usize {
            return None;
        }
        if ensure_requirement_is_valid(owners.len() as u32, requirement).is_err() {
            return None;
        }
        if !has_no_duplicates(&owners) {
            return None;
        }
        if !ledger.confirmers_within(&owners) {
            return None;
        }
        Some(Multisig { owners, requirement, transaction_list: ledger })
    }

    /// What is to be stored for the engine: the owners, the quorum and the
    /// ledger.
    pub fn into_parts(self) -> (parts: (Vec<AccountId>, u32, Transactions))
        requires
            self.wf(),
        ensures
            parts.2.wf(),
            restorable(parts.0@, parts.1, parts.2@),
            self@ == (MultisigView {
                owners: parts.0@,
                requirement: parts.1,
                next_id: parts.2.upcoming(),
                pending: parts.2@,
            }),
    {
        (self.owners, self.requirement, self.transaction_list)
    }

    pub fn owners(&self) -> (r: &Vec<AccountId>)
        ensures
            r@ == self@.owners,
    {
        &self.owners
    }

    pub fn requirement(&self) -> (r: u32)
        ensures
            r == self@.requirement,
    {
        self.requirement
    }

    pub fn is_owner(&self, account: &AccountId) -> (r: bool)
        ensures
            r == self@.is_owner(*account),
    {
        position_of(&self.owners, account).is_some()
    }

    /// Where `owner` stands in the owner list.
    pub fn owner_index(&self, owner: &AccountId) -> (r: Option<usize>)
        requires
            self.wf(),
        ensures
            r.is_some() == self@.is_owner(*owner),
            r.is_some() ==> r.unwrap() as int == self@.owners.index_of(*owner),
    {
        let r = position_of(&self.owners, owner);
        proof {
            if r.is_some() {
                let i = self.owners@.index_of(*owner);
                assert(self.owners@[r.unwrap() as int] == *owner);
                assert(self.owners@[i] == *owner);
            }
        }
        r
    }

    /// How many owners have confirmed `id`.
    pub fn confirmation_count(&self, id: TransactionId) -> (r: Option<u32>)
        requires
            self.wf(),
        ensures
            r.is_some() == self@.is_live(id),
            r.is_some() ==> r.unwrap() as nat == self@.pending[id].confirmation_count,
    {
        self.transaction_list.confirmation_count(id)
    }

    /// Whether `owner` has confirmed `id`.
    pub fn has_confirmed(&self, id: TransactionId, owner: &AccountId) -> (r: bool)
        requires
            self.wf(),
        ensures
            r == (self@.is_live(id) && self@.pending[id].confirmed_by.contains(*owner)),
    {
        self.transaction_list.has_confirmed(id, owner)
    }

    /// The status of `id`: confirmed once the count reaches the quorum,
    /// otherwise the number of confirmations still needed.
    pub fn status(&self, id: TransactionId) -> (r: Result<ConfirmationStatus, MultiSigError>)
        requires
            self.wf(),
        ensures
            r == if self@.is_live(id) {
                Ok::<ConfirmationStatus, MultiSigError>(self@.status(id))
            } else {
                Err::<ConfirmationStatus, MultiSigError>(MultiSigError::TransactionNotFound)
            },
    {
        match self.transaction_list.confirmation_count(id) {
            Some(count) => Ok(confirmation_status(count, self.requirement)),
            None => Err(MultiSigError::TransactionNotFound),
        }
    }

    /// Admits only calls that the engine makes to itself.
    pub fn ensure_from_wallet(ctx: &CallContext) -> (r: Result<(), MultiSigError>)
        ensures
            r == if from_wallet(*ctx) {
                Ok::<(), MultiSigError>(())
            } else {
                Err::<(), MultiSigError>(MultiSigError::CallerNotSelf)
            },
    {
        if ctx.caller.same(&ctx.account_id) {
            Ok(())
        } else {
            Err(MultiSigError::CallerNotSelf)
        }
    }

    /// Admits only calls made by an owner.
    pub fn ensure_caller_is_owner(&self, ctx: &CallContext) -> (r: Result<(), MultiSigError>)
        ensures
            r == if self@.is_owner(ctx.caller) {
                Ok::<(), MultiSigError>(())
            } else {
                Err::<(), MultiSigError>(MultiSigError::CallerNotOwner)
            },
    {
        if self.is_owner(&ctx.caller) {
            Ok(())
        } else {
            Err(MultiSigError::CallerNotOwner)
        }
    }

    pub fn ensure_owner(&self, owner: &AccountId) -> (r: Result<(), MultiSigError>)
        ensures
            r == if self@.is_owner(*owner) {
                Ok::<(), MultiSigError>(())
            } else {
                Err::<(), MultiSigError>(MultiSigError::OwnerNotFound)
            },
    {
        if self.is_owner(owner) {
            Ok(())
        } else {
            Err(MultiSigError::OwnerNotFound)
        }
    }

    pub fn ensure_not_owner(&self, owner: &AccountId) -> (r: Result<(), MultiSigError>)
        ensures
            r == if self@.is_owner(*owner) {
                Err::<(), MultiSigError>(MultiSigError::OwnerAlreadyExists)
            } else {
                Ok::<(), MultiSigError>(())
            },
    {
        if self.is_owner(owner) {
            Err(MultiSigError::OwnerAlreadyExists)
        } else {
            Ok(())
        }
    }

    pub fn ensure_transaction_exists(&self, trans_id: TransactionId) -> (r: Result<
        (),
        MultiSigError,
    >)
        requires
            self.wf(),
        ensures
            r == if self@.is_live(trans_id) {
                Ok::<(), MultiSigError>(())
            } else {
                Err::<(), MultiSigError>(MultiSigError::TransactionNotFound)
            },
    {
        if self.transaction_list.contains(trans_id) {
            Ok(())
        } else {
            Err(MultiSigError::TransactionNotFound)
        }
    }

    /// Admits only a live proposal that has reached the quorum.
    pub fn ensure_confirmed(&self, trans_id: TransactionId) -> (r: Result<(), MultiSigError>)
        requires
            self.wf(),
        ensures
            r == if !self@.is_live(trans_id) {
                Err::<(), MultiSigError>(MultiSigError::TransactionNotFound)
            } else if !self@.is_confirmed(trans_id) {
                Err::<(), MultiSigError>(MultiSigError::NotConfirmed)
            } else {
                Ok::<(), MultiSigError>(())
            },
    {
        match self.transaction_list.confirmation_count(trans_id) {
            None => Err(MultiSigError::TransactionNotFound),
            Some(count) => if count >= self.requirement {
                Ok(())
            } else {
                Err(MultiSigError::NotConfirmed)
            },
        }
    }
}

/// Removing one entry of a duplicate-free owner list leaves the others, once each.
pub proof fn lemma_swap_removed(owners: Seq<AccountId>, i: int)
    requires
        owners.no_duplicates(),
        0 <= i < owners.len(),
    ensures
        swap_removed(owners, i).no_duplicates(),
        swap_removed(owners, i).to_set() == owners.to_set().remove(owners[i]),
{
    let r = swap_removed(owners, i);
    let last = owners.len() - 1;
    assert forall|x: AccountId| #[trigger] r.contains(x) <==> (owners.contains(x) && x != owners[i]) by {
        if r.contains(x) {
            let k = choose|k: int| 0 <= k < r.len() && r[k] == x;
            if k == i {
                assert(owners[last] == x);
            } else {
                assert(owners[k] == x);
            }
        }
        if owners.contains(x) && x != owners[i] {
            let k = choose|k: int| 0 <= k < owners.len() && owners[k] == x;
            if k == last {
                assert(r[i] == x);
            } else {
                assert(r[k] == x);
            }
        }
    }
    assert(r.to_set() =~= owners.to_set().remove(owners[i]));
}

/// Replacing one entry of a duplicate-free owner list by a newcomer leaves a
/// duplicate-free list: the others and the newcomer.
pub proof fn lemma_replaced(owners: Seq<AccountId>, i: int, new_owner: AccountId)
    requires
        owners.no_duplicates(),
        0 <= i < owners.len(),
        !owners.contains(new_owner),
    ensures
        owners.update(i, new_owner).no_duplicates(),
        owners.update(i, new_owner).to_set() == owners.to_set().remove(owners[i]).insert(
            new_owner,
        ),
{
    let r = owners.update(i, new_owner);
    assert forall|x: AccountId| #[trigger] r.contains(x) <==> ((owners.contains(x) && x != owners[i]) || x == new_owner) by {
        if r.contains(x) {
            let k = choose|k: int| 0 <= k < r.len() && r[k] == x;
            if k != i {
                assert(owners[k] == x);
            }
        }
        if owners.contains(x) && x != owners[i] {
            let k = choose|k: int| 0 <= k < owners.len() && owners[k] == x;
            assert(r[k] == x);
        }
        if x == new_owner {
            assert(r[i] == x);
        }
    }
    assert(r.to_set() =~= owners.to_set().remove(owners[i]).insert(new_owner));
    assert forall|a: int, b: int| 0 <= a < r.len() && 0 <= b < r.len() && a != b implies r[a]
        != r[b] by {
        if a != i {
            assert(owners.contains(owners[a]));
        }
        if b != i {
            assert(owners.contains(owners[b]));
        }
    }
}

impl Multisig {
    /// Adds an owner. Only the engine itself may ask for this.
    pub fn add_owner(
        &mut self,
        ctx: &CallContext,
        new_owner: AccountId,
        events: &mut Vec<Event>,
    ) -> (r: Result<(), MultiSigError>)
        requires
            old(self).wf(),
        ensures
            final(self).wf(),
            r == if !from_wallet(*ctx) {
                Err::<(), MultiSigError>(MultiSigError::CallerNotSelf)
            } else if old(self)@.is_owner(new_owner) {
                Err::<(), MultiSigError>(MultiSigError::OwnerAlreadyExists)
            } else if !requirement_is_valid(
                old(self)@.owners.len() as int + 1,
                old(self)@.requirement as int,
            ) {
                Err::<(), MultiSigError>(MultiSigError::InvalidRequirement)
            } else {
                Ok::<(), MultiSigError>(())
            },
            r.is_err() ==> final(self)@ == old(self)@ && final(events)@ == old(events)@,
            r.is_ok() ==> final(self)@ == (MultisigView {
                owners: old(self)@.owners.push(new_owner),
                ..old(self)@
            }) && final(events)@ == old(events)@.push(
                Event::OwnerAddition(OwnerAddition { owner: new_owner }),
            ),
    {
        match Self::ensure_from_wallet(ctx) {
            Err(e) => {
                return Err(e);
            },
            Ok(()) => {},
        }
        match self.ensure_not_owner(&new_owner) {
            Err(e) => {
                return Err(e);
            },
            Ok(()) => {},
        }
        match ensure_requirement_is_valid(self.owners.len() as u32 + 1, self.requirement) {
            Err(e) => {
                return Err(e);
            },
            Ok(()) => {},
        }
        proof {
            lemma_push_to_set(self.owners@, new_owner);
        }
        self.owners.push(new_owner);
        events.push(Event::OwnerAddition(OwnerAddition { owner: new_owner }));
        Ok(())
    }

    /// Removes an owner together with every confirmation the owner gave, and
    /// lowers the quorum to the number of owners left where it was higher.
    /// Only the engine itself may ask for this.
    pub fn remove_owner(
        &mut self,
        ctx: &CallContext,
        owner: AccountId,
        events: &mut Vec<Event>,
    ) -> (r: Result<(), MultiSigError>)
        requires
            old(self).wf(),
        ensures
            final(self).wf(),
            r == if !from_wallet(*ctx) {
                Err::<(), MultiSigError>(MultiSigError::CallerNotSelf)
            } else if !old(self)@.is_owner(owner) {
                Err::<(), MultiSigError>(MultiSigError::OwnerNotFound)
            } else if old(self)@.owners.len() == 1 {
                Err::<(), MultiSigError>(MultiSigError::InvalidRequirement)
            } else {
                Ok::<(), MultiSigError>(())
            },
            r.is_err() ==> final(self)@ == old(self)@ && final(events)@ == old(events)@,
            r.is_ok() ==> final(self)@ == old(self)@.without_owner(owner) && final(events)@ == old(events)@.push(
                Event::OwnerRemoval(OwnerRemoval { owner }),
            ),
    {
        match Self::ensure_from_wallet(ctx) {
            Err(e) => {
                return Err(e);
            },
            Ok(()) => {},
        }
        let index = match self.owner_index(&owner) {
            None => {
                return Err(MultiSigError::OwnerNotFound);
            },
            Some(index) => index,
        };
        let len: u32 = (self.owners.len() - 1) as u32;
        let requirement: u32 = if len < self.requirement {
            len
        } else {
            self.requirement
        };
        match ensure_requirement_is_valid(len, requirement) {
            Err(e) => {
                return Err(e);
            },
            Ok(()) => {},
        }
        self.clean_owner_confirmations(owner);
        proof {
            lemma_swap_removed(self.owners@, index as int);
        }
        self.owners.swap_remove(index);
        self.requirement = requirement;
        events.push(Event::OwnerRemoval(OwnerRemoval { owner }));
        Ok(())
    }

    /// Puts `new_owner` in `old_owner`'s place and drops every confirmation
    /// that `old_owner` gave. Only the engine itself may ask for this.
    pub fn replace_owner(
        &mut self,
        ctx: &CallContext,
        old_owner: AccountId,
        new_owner: AccountId,
        events: &mut Vec<Event>,
    ) -> (r: Result<(), MultiSigError>)
        requires
            old(self).wf(),
        ensures
            final(self).wf(),
            r == if !from_wallet(*ctx) {
                Err::<(), MultiSigError>(MultiSigError::CallerNotSelf)
            } else if !old(self)@.is_owner(old_owner) {
                Err::<(), MultiSigError>(MultiSigError::OwnerNotFound)
            } else if old(self)@.is_owner(new_owner) {
                Err::<(), MultiSigError>(MultiSigError::OwnerAlreadyExists)
            } else {
                Ok::<(), MultiSigError>(())
            },
            r.is_err() ==> final(self)@ == old(self)@ && final(events)@ == old(events)@,
            r.is_ok() ==> final(self)@ == (MultisigView {
                owners: old(self)@.owners.update(
                    old(self)@.owners.index_of(old_owner),
                    new_owner,
                ),
                ..old(self)@.without_confirmations_of(old_owner)
            }) && final(events)@ == old(events)@.push(
                Event::OwnerRemoval(OwnerRemoval { owner: old_owner }),
            ).push(Event::OwnerAddition(OwnerAddition { owner: new_owner })),
    {
        match Self::ensure_from_wallet(ctx) {
            Err(e) => {
                return Err(e);
            },
            Ok(()) => {},
        }
        let index = match self.owner_index(&old_owner) {
            None => {
                return Err(MultiSigError::OwnerNotFound);
            },
            Some(index) => index,
        };
        match self.ensure_not_owner(&new_owner) {
            Err(e) => {
                return Err(e);
            },
            Ok(()) => {},
        }
        self.clean_owner_confirmations(old_owner);
        proof {
            lemma_replaced(self.owners@, index as int, new_owner);
        }
        self.owners[index] = new_owner;
        events.push(Event::OwnerRemoval(OwnerRemoval { owner: old_owner }));
        events.push(Event::OwnerAddition(OwnerAddition { owner: new_owner }));
        Ok(())
    }

    /// Sets the quorum. Only the engine itself may ask for this.
    pub fn change_requirement(
        &mut self,
        ctx: &CallContext,
        new_requirement: u32,
        events: &mut Vec<Event>,
    ) -> (r: Result<(), MultiSigError>)
        requires
            old(self).wf(),
        ensures
            final(self).wf(),
            r == if !from_wallet(*ctx) {
                Err::<(), MultiSigError>(MultiSigError::CallerNotSelf)
            } else if !requirement_is_valid(
                old(self)@.owners.len() as int,
                new_requirement as int,
            ) {
                Err::<(), MultiSigError>(MultiSigError::InvalidRequirement)
            } else {
                Ok::<(), MultiSigError>(())
            },
            r.is_err() ==> final(self)@ == old(self)@ && final(events)@ == old(events)@,
            r.is_ok() ==> final(self)@ == (MultisigView {
                requirement: new_requirement,
                ..old(self)@
            }) && final(events)@ == old(events)@.push(
                Event::RequirementChange(RequirementChange { new_requirement }),
            ),
    {
        match Self::ensure_from_wallet(ctx) {
            Err(e) => {
                return Err(e);
            },
            Ok(()) => {},
        }
        match ensure_requirement_is_valid(self.owners.len() as u32, new_requirement) {
            Err(e) => {
                return Err(e);
            },
            Ok(()) => {},
        }
        self.requirement = new_requirement;
        events.push(Event::RequirementChange(RequirementChange { new_requirement }));
        Ok(())
    }
}

/// `event` reports that `transaction` was dispatched with the given outcome.
pub open spec fn reports_execution(
    event: Event,
    transaction: TransactionId,
    outcome: Result<Option<Seq<u8>>, MultiSigError>,
) -> bool {
    match event {
        Event::Execution(e) => e.transaction == transaction && match e.result {
            Ok(Some(bytes)) => outcome == Ok::<Option<Seq<u8>>, MultiSigError>(Some(bytes@)),
            Ok(None) => outcome == Ok::<Option<Seq<u8>>, MultiSigError>(None),
            Err(error) => outcome == Err::<Option<Seq<u8>>, MultiSigError>(error),
        },
        _ => false,
    }
}

impl Multisig {
    /// Records `confirmer`'s confirmation of a live proposal and reports the
    /// status that results. A confirmation that is new is announced; one that
    /// was there already changes nothing.
    pub fn confirm_by_caller(
        &mut self,
        confirmer: AccountId,
        transaction: TransactionId,
        events: &mut Vec<Event>,
    ) -> (status: ConfirmationStatus)
        requires
            old(self).wf(),
            old(self)@.is_owner(confirmer),
            old(self)@.is_live(transaction),
        ensures
            final(self).wf(),
            final(self)@ == old(self)@.confirmed(transaction, confirmer),
            status == final(self)@.status(transaction),
            final(events)@ == old(events)@ + old(self)@.confirmation_events(transaction, confirmer),
    {
        proof {
            self.lemma_valid();
            lemma_len_subset(
                self@.pending[transaction].confirmed_by,
                self.owners@.to_set(),
            );
            self.owners@.unique_seq_to_set();
        }
        match self.transaction_list.confirm(transaction, confirmer) {
            Some((fresh, count)) => {
                let status = confirmation_status(count, self.requirement);
                if fresh {
                    events.push(
                        Event::Confirmation(Confirmation { transaction, from: confirmer, status }),
                    );
                }
                assert(events@ =~= old(events)@ + old(self)@.confirmation_events(
                    transaction,
                    confirmer,
                ));
                status
            },
            None => {
                // A live proposal is always found.
                proof {
                    assert(false);
                }
                ConfirmationStatus::Confirmed
            },
        }
    }

    /// Removes a proposal and all confirmations associated with it.
    pub fn take_transaction(&mut self, trans_id: TransactionId) -> (r: Option<Transaction>)
        requires
            old(self).wf(),
        ensures
            final(self).wf(),
            match r {
                Some(t) => old(self)@.is_live(trans_id) && t == old(self)@.pending[trans_id].transaction && final(self)@ == old(self)@.without_transaction(trans_id),
                None => !old(self)@.is_live(trans_id) && final(self)@ == old(self)@,
            },
    {
        self.transaction_list.take(trans_id)
    }

    /// Stores a proposal and confirms it on the submitter's behalf.
    /// Only an owner may submit.
    pub fn submit_transaction(
        &mut self,
        ctx: &CallContext,
        transaction: Transaction,
        events: &mut Vec<Event>,
    ) -> (r: Result<(TransactionId, ConfirmationStatus), MultiSigError>)
        requires
            old(self).wf(),
        ensures
            final(self).wf(),
            r.is_err() ==> final(self)@ == old(self)@ && final(events)@ == old(events)@,
            !old(self)@.is_owner(ctx.caller) ==> r == Err::<
                (TransactionId, ConfirmationStatus),
                MultiSigError,
            >(MultiSigError::CallerNotOwner),
            old(self)@.is_owner(ctx.caller) && old(self)@.next_id == u32::MAX ==> r == Err::<
                (TransactionId, ConfirmationStatus),
                MultiSigError,
            >(MultiSigError::IdSpaceExhausted),
            old(self)@.is_owner(ctx.caller) && old(self)@.next_id < u32::MAX ==> {
                let id = old(self)@.next_id;
                let status = status_of(1, old(self)@.requirement as nat);
                &&& r == Ok::<(TransactionId, ConfirmationStatus), MultiSigError>((id, status))
                &&& !old(self)@.is_live(id)
                &&& final(self)@ == (MultisigView {
                    next_id: (id + 1) as u32,
                    pending: old(self)@.pending.insert(
                        id,
                        PendingView {
                            transaction,
                            confirmed_by: set![ctx.caller],
                            confirmation_count: 1,
                        },
                    ),
                    ..old(self)@
                })
                &&& final(events)@ == old(events)@.push(
                    Event::Submission(Submission { transaction: id }),
                ).push(
                    Event::Confirmation(
                        Confirmation { transaction: id, from: ctx.caller, status },
                    ),
                )
            },
    {
        match self.ensure_caller_is_owner(ctx) {
            Err(e) => {
                return Err(e);
            },
            Ok(()) => {},
        }
        proof {
            self.lemma_valid();
        }
        let trans_id = match self.transaction_list.add(transaction) {
            None => {
                return Err(MultiSigError::IdSpaceExhausted);
            },
            Some(trans_id) => trans_id,
        };
        events.push(Event::Submission(Submission { transaction: trans_id }));
        let status = self.confirm_by_caller(ctx.caller, trans_id, events);
        proof {
            assert(Set::<AccountId>::empty().insert(ctx.caller) =~= set![ctx.caller]);
            assert(self@.pending =~= old(self)@.pending.insert(
                trans_id,
                PendingView {
                    transaction,
                    confirmed_by: set![ctx.caller],
                    confirmation_count: 1,
                },
            ));
        }
        Ok((trans_id, status))
    }

    /// Removes a proposal, whatever its status. Only the engine itself may
    /// ask for this.
    pub fn cancel_transaction(
        &mut self,
        ctx: &CallContext,
        trans_id: TransactionId,
        events: &mut Vec<Event>,
    ) -> (r: Result<(), MultiSigError>)
        requires
            old(self).wf(),
        ensures
            final(self).wf(),
            r == old(self)@.cancel_outcome(*ctx, trans_id),
            r.is_err() ==> final(self)@ == old(self)@ && final(events)@ == old(events)@,
            r.is_ok() ==> final(self)@ == old(self)@.without_transaction(trans_id) && final(events)@ == old(events)@.push(
                Event::Cancellation(Cancellation { transaction: trans_id }),
            ),
    {
        match Self::ensure_from_wallet(ctx) {
            Err(e) => {
                return Err(e);
            },
            Ok(()) => {},
        }
        match self.take_transaction(trans_id) {
            Some(_) => {
                events.push(Event::Cancellation(Cancellation { transaction: trans_id }));
                Ok(())
            },
            None => Err(MultiSigError::TransactionNotFound),
        }
    }

    /// Confirms a live proposal on the caller's behalf. Only an owner may
    /// confirm.
    pub fn confirm_transaction(
        &mut self,
        ctx: &CallContext,
        trans_id: TransactionId,
        events: &mut Vec<Event>,
    ) -> (r: Result<ConfirmationStatus, MultiSigError>)
        requires
            old(self).wf(),
        ensures
            final(self).wf(),
            r == if !old(self)@.is_owner(ctx.caller) {
                Err::<ConfirmationStatus, MultiSigError>(MultiSigError::CallerNotOwner)
            } else if !old(self)@.is_live(trans_id) {
                Err::<ConfirmationStatus, MultiSigError>(MultiSigError::TransactionNotFound)
            } else {
                Ok::<ConfirmationStatus, MultiSigError>(final(self)@.status(trans_id))
            },
            r.is_err() ==> final(self)@ == old(self)@ && final(events)@ == old(events)@,
            r.is_ok() ==> final(self)@ == old(self)@.confirmed(trans_id, ctx.caller) && final(events)@ == old(events)@ + old(self)@.confirmation_events(trans_id, ctx.caller),
    {
        match self.ensure_caller_is_owner(ctx) {
            Err(e) => {
                return Err(e);
            },
            Ok(()) => {},
        }
        match self.ensure_transaction_exists(trans_id) {
            Err(e) => {
                return Err(e);
            },
            Ok(()) => {},
        }
        Ok(self.confirm_by_caller(ctx.caller, trans_id, events))
    }

    /// Withdraws the caller's confirmation of a proposal, if there is one.
    /// Only an owner may revoke.
    pub fn revoke_confirmation(
        &mut self,
        ctx: &CallContext,
        trans_id: TransactionId,
        events: &mut Vec<Event>,
    ) -> (r: Result<(), MultiSigError>)
        requires
            old(self).wf(),
        ensures
            final(self).wf(),
            r == if old(self)@.is_owner(ctx.caller) {
                Ok::<(), MultiSigError>(())
            } else {
                Err::<(), MultiSigError>(MultiSigError::CallerNotOwner)
            },
            r.is_err() ==> final(self)@ == old(self)@ && final(events)@ == old(events)@,
            r.is_ok() ==> final(self)@ == old(self)@.revoked(trans_id, ctx.caller) && final(events)@ == old(events)@ + old(self)@.revocation_events(trans_id, ctx.caller),
    {
        match self.ensure_caller_is_owner(ctx) {
            Err(e) => {
                return Err(e);
            },
            Ok(()) => {},
        }
        if self.transaction_list.revoke(trans_id, ctx.caller) {
            events.push(Event::Revocation(Revocation { transaction: trans_id, from: ctx.caller }));
        }
        proof {
            assert(events@ =~= old(events)@ + old(self)@.revocation_events(trans_id, ctx.caller));
            assert(self.transaction_list@ =~= old(self)@.revoked(trans_id, ctx.caller).pending);
        }
        Ok(())
    }

    /// Drops every confirmation that `owner` has given, lowering the count of
    /// each proposal that had one.
    pub fn clean_owner_confirmations(&mut self, owner: AccountId)
        requires
            old(self).wf(),
        ensures
            final(self).wf(),
            final(self)@ == old(self)@.without_confirmations_of(owner),
    {
        self.transaction_list.purge_owner(owner);
    }
}

impl Multisig {
    /// Releases a confirmed proposal for dispatch without keeping its output.
    /// Anyone may ask; the value attached to the call must be the value the
    /// proposal declares. The proposal and its confirmations are gone
    /// afterwards, whatever the dispatched call will do.
    pub fn invoke_transaction(&mut self, ctx: &CallContext, trans_id: TransactionId) -> (r: Result<
        Transaction,
        MultiSigError,
    >)
        requires
            old(self).wf(),
        ensures
            final(self).wf(),
            r == old(self)@.invoke_outcome(*ctx, trans_id),
            r.is_err() ==> final(self)@ == old(self)@,
            r.is_ok() ==> final(self)@ == old(self)@.without_transaction(trans_id),
    {
        match self.ensure_confirmed(trans_id) {
            Err(e) => {
                return Err(e);
            },
            Ok(()) => {},
        }
        match self.transaction_list.declared_value(trans_id) {
            Some(value) => {
                if value != ctx.transferred_value {
                    return Err(MultiSigError::ValueMismatch);
                }
            },
            None => {},
        }
        match self.take_transaction(trans_id) {
            Some(t) => Ok(t),
            None => Err(MultiSigError::TransactionNotFound),
        }
    }

    /// Releases a confirmed proposal for dispatch with its output kept.
    /// Anyone may ask. The proposal and its confirmations are gone afterwards,
    /// whatever the dispatched call will do.
    pub fn eval_transaction(&mut self, trans_id: TransactionId) -> (r: Result<
        Transaction,
        MultiSigError,
    >)
        requires
            old(self).wf(),
        ensures
            final(self).wf(),
            r == old(self)@.eval_outcome(trans_id),
            r.is_err() ==> final(self)@ == old(self)@,
            r.is_ok() ==> final(self)@ == old(self)@.without_transaction(trans_id),
    {
        match self.ensure_confirmed(trans_id) {
            Err(e) => {
                return Err(e);
            },
            Ok(()) => {},
        }
        match self.take_transaction(trans_id) {
            Some(t) => Ok(t),
            None => Err(MultiSigError::TransactionNotFound),
        }
    }

    /// Turns what the dispatched call of an invoked proposal did into the
    /// caller's result, and announces it.
    pub fn conclude_invoke(trans_id: TransactionId, succeeded: bool, events: &mut Vec<Event>) -> (r:
        Result<(), MultiSigError>)
        ensures
            r == if succeeded {
                Ok::<(), MultiSigError>(())
            } else {
                Err::<(), MultiSigError>(MultiSigError::CallExecutionFailed)
            },
            final(events)@ == old(events)@.push(
                Event::Execution(
                    Execution {
                        transaction: trans_id,
                        result: if succeeded {
                            Ok::<Option<Vec<u8>>, MultiSigError>(None)
                        } else {
                            Err::<Option<Vec<u8>>, MultiSigError>(
                                MultiSigError::CallExecutionFailed,
                            )
                        },
                    },
                ),
            ),
    {
        if succeeded {
            events.push(Event::Execution(Execution { transaction: trans_id, result: Ok(None) }));
            Ok(())
        } else {
            events.push(
                Event::Execution(
                    Execution {
                        transaction: trans_id,
                        result: Err(MultiSigError::CallExecutionFailed),
                    },
                ),
            );
            Err(MultiSigError::CallExecutionFailed)
        }
    }

    /// Turns what the dispatched call of an evaluated proposal did (`Some`
    /// with its output, `None` if it failed) into the caller's result, and
    /// announces it with a copy of the output.
    pub fn conclude_eval(
        trans_id: TransactionId,
        output: Option<Vec<u8>>,
        events: &mut Vec<Event>,
    ) -> (r: Result<Vec<u8>, MultiSigError>)
        ensures
            r == match output {
                Some(bytes) => Ok::<Vec<u8>, MultiSigError>(bytes),
                None => Err::<Vec<u8>, MultiSigError>(MultiSigError::CallExecutionFailed),
            },
            final(events)@.len() == old(events)@.len() + 1,
            final(events)@.drop_last() == old(events)@,
            reports_execution(
                final(events)@.last(),
                trans_id,
                match output {
                    Some(bytes) => Ok::<Option<Seq<u8>>, MultiSigError>(Some(bytes@)),
                    None => Err::<Option<Seq<u8>>, MultiSigError>(
                        MultiSigError::CallExecutionFailed,
                    ),
                },
            ),
    {
        match output {
            Some(bytes) => {
                let copy = bytes.clone();
                assert(copy@ =~= bytes@);
                events.push(
                    Event::Execution(Execution { transaction: trans_id, result: Ok(Some(copy)) }),
                );
                assert(events@.drop_last() =~= old(events)@);
                Ok(bytes)
            },
            None => {
                events.push(
                    Event::Execution(
                        Execution {
                            transaction: trans_id,
                            result: Err(MultiSigError::CallExecutionFailed),
                        },
                    ),
                );
                assert(events@.drop_last() =~= old(events)@);
                Err(MultiSigError::CallExecutionFailed)
            },
        }
    }
}

} // verus!
