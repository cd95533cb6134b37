use multisig::{
    AccountId, CallContext, Cancellation, Confirmation, ConfirmationStatus, Event, Execution,
    MultiSigError, Multisig, OwnerAddition, OwnerRemoval, PendingTransaction, RequirementChange,
    Revocation, Submission, Transaction, Transactions,
};

const WALLET: [u8; 32] = [7; 32];

fn account(byte: u8) -> AccountId {
    AccountId::new([byte; 32])
}

fn wallet() -> AccountId {
    AccountId::new(WALLET)
}

/// A call made by `caller` with no value attached.
fn by(caller: AccountId) -> CallContext {
    CallContext { caller, account_id: wallet(), transferred_value: 0 }
}

/// A call that the engine makes to itself.
fn by_self() -> CallContext {
    by(wallet())
}

fn transfer(value: u128) -> Transaction {
    Transaction {
        callee: account(9),
        selector: [0xde, 0xad, 0xbe, 0xef],
        input: vec![1, 2, 3],
        transferred_value: value,
        gas_limit: 1_000_000,
        allow_reentry: false,
    }
}

fn build_contract(owners: Vec<AccountId>) -> Multisig {
    Multisig::new(owners.len() as u32, owners)
}

/// Quorum 2 over the owners 1, 2 and 3.
fn two_of_three() -> Multisig {
    Multisig::new(2, vec![account(1), account(2), account(3)])
}

#[test]
fn lib_constructor_works() {
    let alice = account(1);
    let bob = account(2);
    let owners = vec![alice, bob];
    let contract = build_contract(owners);
    assert_eq!(contract.owners(), &vec![alice, bob]);
    assert_eq!(contract.requirement(), 2);
}

#[test]
fn constructor_sorts_owners_and_drops_repeats() {
    let engine = Multisig::new(2, vec![account(3), account(1), account(2), account(1), account(3)]);
    assert_eq!(engine.owners(), &vec![account(1), account(2), account(3)]);
    assert_eq!(engine.requirement(), 2);
    assert!(engine.is_owner(&account(2)));
    assert!(!engine.is_owner(&account(4)));
    assert_eq!(engine.owner_index(&account(3)), Some(2));
    assert_eq!(engine.owner_index(&account(4)), None);
}

#[test]
fn quorum_stays_within_owner_count_through_changes() {
    let mut engine = Multisig::new(2, vec![account(1), account(2)]);
    let mut events = Vec::new();
    let within = |e: &Multisig| {
        1 <= e.requirement()
            && e.requirement() as usize <= e.owners().len()
            && e.owners().len() <= multisig::MAX_OWNERS as usize
    };
    assert!(within(&engine));
    assert_eq!(engine.add_owner(&by_self(), account(3), &mut events), Ok(()));
    assert!(within(&engine));
    assert_eq!(engine.change_requirement(&by_self(), 3, &mut events), Ok(()));
    assert!(within(&engine));
    assert_eq!(engine.remove_owner(&by_self(), account(1), &mut events), Ok(()));
    assert!(within(&engine));
    assert_eq!(engine.remove_owner(&by_self(), account(2), &mut events), Ok(()));
    assert!(within(&engine));
    assert_eq!(engine.requirement(), 1);
    assert_eq!(
        engine.remove_owner(&by_self(), account(3), &mut events),
        Err(MultiSigError::InvalidRequirement)
    );
    assert!(within(&engine));
}

#[test]
fn add_owner_appends_and_announces() {
    let mut engine = Multisig::new(1, vec![account(2), account(1)]);
    let mut events = Vec::new();
    assert_eq!(engine.add_owner(&by_self(), account(0), &mut events), Ok(()));
    assert_eq!(engine.owners(), &vec![account(1), account(2), account(0)]);
    assert_eq!(engine.requirement(), 1);
    assert_eq!(events, vec![Event::OwnerAddition(OwnerAddition { owner: account(0) })]);
}

#[test]
fn add_owner_refusals() {
    let mut engine = Multisig::new(1, vec![account(1), account(2)]);
    let mut events = Vec::new();
    assert_eq!(
        engine.add_owner(&by(account(1)), account(3), &mut events),
        Err(MultiSigError::CallerNotSelf)
    );
    assert_eq!(
        engine.add_owner(&by_self(), account(2), &mut events),
        Err(MultiSigError::OwnerAlreadyExists)
    );
    assert_eq!(engine.add_owner(&by_self(), account(3), &mut events), Ok(()));
    events.clear();
    assert_eq!(
        engine.add_owner(&by_self(), account(4), &mut events),
        Err(MultiSigError::InvalidRequirement)
    );
    assert_eq!(engine.owners().len(), 3);
    assert!(events.is_empty());
}

#[test]
fn remove_owner_moves_last_owner_into_the_gap() {
    let mut engine = Multisig::new(1, vec![account(1), account(2), account(3)]);
    let mut events = Vec::new();
    assert_eq!(engine.remove_owner(&by_self(), account(1), &mut events), Ok(()));
    assert_eq!(engine.owners(), &vec![account(3), account(2)]);
    assert_eq!(engine.requirement(), 1);
    assert_eq!(events, vec![Event::OwnerRemoval(OwnerRemoval { owner: account(1) })]);
}

#[test]
fn remove_owner_refusals() {
    let mut engine = Multisig::new(1, vec![account(1)]);
    let mut events = Vec::new();
    assert_eq!(
        engine.remove_owner(&by(account(1)), account(1), &mut events),
        Err(MultiSigError::CallerNotSelf)
    );
    assert_eq!(
        engine.remove_owner(&by_self(), account(2), &mut events),
        Err(MultiSigError::OwnerNotFound)
    );
    assert_eq!(
        engine.remove_owner(&by_self(), account(1), &mut events),
        Err(MultiSigError::InvalidRequirement)
    );
    assert_eq!(engine.owners(), &vec![account(1)]);
    assert!(events.is_empty());
}

#[test]
fn remove_owner_caps_quorum_at_owners_left() {
    let mut engine = Multisig::new(3, vec![account(1), account(2), account(3)]);
    let mut events = Vec::new();
    assert_eq!(engine.remove_owner(&by_self(), account(3), &mut events), Ok(()));
    assert_eq!(engine.owners(), &vec![account(1), account(2)]);
    assert_eq!(engine.requirement(), 2);
}

#[test]
fn remove_owner_after_lowering_quorum_keeps_it() {
    let mut engine = Multisig::new(3, vec![account(1), account(2), account(3)]);
    let mut events = Vec::new();
    assert_eq!(engine.change_requirement(&by_self(), 1, &mut events), Ok(()));
    assert_eq!(engine.remove_owner(&by_self(), account(3), &mut events), Ok(()));
    assert_eq!(engine.requirement(), 1);
}

#[test]
fn remove_owner_drops_the_owners_confirmations() {
    let mut engine = Multisig::new(3, vec![account(1), account(2), account(3)]);
    let mut events = Vec::new();
    let (first, _) = engine.submit_transaction(&by(account(1)), transfer(0), &mut events).unwrap();
    let (second, _) = engine.submit_transaction(&by(account(2)), transfer(0), &mut events).unwrap();
    engine.confirm_transaction(&by(account(2)), first, &mut events).unwrap();
    assert_eq!(engine.confirmation_count(first), Some(2));
    assert_eq!(engine.confirmation_count(second), Some(1));

    assert_eq!(engine.remove_owner(&by_self(), account(2), &mut events), Ok(()));
    assert!(!engine.has_confirmed(first, &account(2)));
    assert!(!engine.has_confirmed(second, &account(2)));
    assert!(engine.has_confirmed(first, &account(1)));
    assert_eq!(engine.confirmation_count(first), Some(1));
    assert_eq!(engine.confirmation_count(second), Some(0));
    assert_eq!(engine.status(first), Ok(ConfirmationStatus::ConfirmationsNeeded(1)));
    assert_eq!(engine.status(second), Ok(ConfirmationStatus::ConfirmationsNeeded(2)));
}

#[test]
fn clean_owner_confirmations_leaves_other_owners_alone() {
    let mut engine = two_of_three();
    let mut events = Vec::new();
    let (id, _) = engine.submit_transaction(&by(account(1)), transfer(0), &mut events).unwrap();
    engine.confirm_transaction(&by(account(3)), id, &mut events).unwrap();
    engine.clean_owner_confirmations(account(2));
    assert_eq!(engine.confirmation_count(id), Some(2));
    engine.clean_owner_confirmations(account(3));
    assert_eq!(engine.confirmation_count(id), Some(1));
    assert!(engine.has_confirmed(id, &account(1)));
    assert!(!engine.has_confirmed(id, &account(3)));
}

#[test]
fn replace_owner_keeps_position_and_quorum() {
    let mut engine = two_of_three();
    let mut events = Vec::new();
    let (id, _) = engine.submit_transaction(&by(account(2)), transfer(0), &mut events).unwrap();
    events.clear();
    assert_eq!(engine.replace_owner(&by_self(), account(2), account(8), &mut events), Ok(()));
    assert_eq!(engine.owners(), &vec![account(1), account(8), account(3)]);
    assert_eq!(engine.requirement(), 2);
    assert_eq!(engine.confirmation_count(id), Some(0));
    assert!(!engine.has_confirmed(id, &account(2)));
    assert_eq!(
        events,
        vec![
            Event::OwnerRemoval(OwnerRemoval { owner: account(2) }),
            Event::OwnerAddition(OwnerAddition { owner: account(8) }),
        ]
    );
}

#[test]
fn replace_owner_refusals() {
    let mut engine = two_of_three();
    let mut events = Vec::new();
    assert_eq!(
        engine.replace_owner(&by(account(1)), account(1), account(8), &mut events),
        Err(MultiSigError::CallerNotSelf)
    );
    assert_eq!(
        engine.replace_owner(&by_self(), account(8), account(9), &mut events),
        Err(MultiSigError::OwnerNotFound)
    );
    assert_eq!(
        engine.replace_owner(&by_self(), account(1), account(2), &mut events),
        Err(MultiSigError::OwnerAlreadyExists)
    );
    assert_eq!(engine.owners(), &vec![account(1), account(2), account(3)]);
    assert!(events.is_empty());
}

#[test]
fn change_requirement_accepts_one_to_owner_count() {
    let mut engine = two_of_three();
    let mut events = Vec::new();
    assert_eq!(
        engine.change_requirement(&by(account(1)), 1, &mut events),
        Err(MultiSigError::CallerNotSelf)
    );
    assert_eq!(
        engine.change_requirement(&by_self(), 0, &mut events),
        Err(MultiSigError::InvalidRequirement)
    );
    assert_eq!(
        engine.change_requirement(&by_self(), 4, &mut events),
        Err(MultiSigError::InvalidRequirement)
    );
    assert_eq!(engine.requirement(), 2);
    assert!(events.is_empty());
    assert_eq!(engine.change_requirement(&by_self(), 3, &mut events), Ok(()));
    assert_eq!(engine.requirement(), 3);
    assert_eq!(engine.change_requirement(&by_self(), 1, &mut events), Ok(()));
    assert_eq!(engine.requirement(), 1);
    assert_eq!(
        events,
        vec![
            Event::RequirementChange(RequirementChange { new_requirement: 3 }),
            Event::RequirementChange(RequirementChange { new_requirement: 1 }),
        ]
    );
}

#[test]
fn submit_confirms_for_the_submitter() {
    let mut engine = two_of_three();
    let mut events = Vec::new();
    let r = engine.submit_transaction(&by(account(1)), transfer(5), &mut events);
    assert_eq!(r, Ok((0, ConfirmationStatus::ConfirmationsNeeded(1))));
    assert_eq!(engine.confirmation_count(0), Some(1));
    assert!(engine.has_confirmed(0, &account(1)));
    assert_eq!(
        events,
        vec![
            Event::Submission(Submission { transaction: 0 }),
            Event::Confirmation(Confirmation {
                transaction: 0,
                from: account(1),
                status: ConfirmationStatus::ConfirmationsNeeded(1),
            }),
        ]
    );
    let r = engine.submit_transaction(&by(account(3)), transfer(6), &mut events);
    assert_eq!(r, Ok((1, ConfirmationStatus::ConfirmationsNeeded(1))));
}

#[test]
fn submit_with_quorum_one_is_confirmed_at_once() {
    let mut engine = Multisig::new(1, vec![account(1), account(2)]);
    let mut events = Vec::new();
    let r = engine.submit_transaction(&by(account(2)), transfer(0), &mut events);
    assert_eq!(r, Ok((0, ConfirmationStatus::Confirmed)));
}

#[test]
fn submit_by_stranger_is_refused() {
    let mut engine = two_of_three();
    let mut events = Vec::new();
    let r = engine.submit_transaction(&by(account(4)), transfer(0), &mut events);
    assert_eq!(r, Err(MultiSigError::CallerNotOwner));
    let r = engine.submit_transaction(&by_self(), transfer(0), &mut events);
    assert_eq!(r, Err(MultiSigError::CallerNotOwner));
    assert!(events.is_empty());
    assert_eq!(engine.status(0), Err(MultiSigError::TransactionNotFound));
}

#[test]
fn submit_fails_once_ids_are_exhausted() {
    let ledger = Transactions::from_parts(Vec::new(), u32::MAX - 1).unwrap();
    let mut engine = Multisig::restore(vec![account(1)], 1, ledger).unwrap();
    let mut events = Vec::new();
    let r = engine.submit_transaction(&by(account(1)), transfer(0), &mut events);
    assert_eq!(r, Ok((u32::MAX - 1, ConfirmationStatus::Confirmed)));
    events.clear();
    let r = engine.submit_transaction(&by(account(1)), transfer(0), &mut events);
    assert_eq!(r, Err(MultiSigError::IdSpaceExhausted));
    let r = engine.submit_transaction(&by(account(1)), transfer(0), &mut events);
    assert_eq!(r, Err(MultiSigError::IdSpaceExhausted));
    assert!(events.is_empty());
    assert_eq!(engine.status(u32::MAX), Err(MultiSigError::TransactionNotFound));
}

#[test]
fn confirming_twice_counts_once() {
    let mut engine = Multisig::new(3, vec![account(1), account(2), account(3)]);
    let mut events = Vec::new();
    let (id, _) = engine.submit_transaction(&by(account(1)), transfer(0), &mut events).unwrap();
    events.clear();
    let first = engine.confirm_transaction(&by(account(2)), id, &mut events);
    assert_eq!(first, Ok(ConfirmationStatus::ConfirmationsNeeded(1)));
    assert_eq!(engine.confirmation_count(id), Some(2));
    assert_eq!(events.len(), 1);
    let second = engine.confirm_transaction(&by(account(2)), id, &mut events);
    assert_eq!(second, Ok(ConfirmationStatus::ConfirmationsNeeded(1)));
    assert_eq!(engine.confirmation_count(id), Some(2));
    assert_eq!(
        events,
        vec![Event::Confirmation(Confirmation {
            transaction: id,
            from: account(2),
            status: ConfirmationStatus::ConfirmationsNeeded(1),
        })]
    );
    // The submitter confirmed by submitting.
    let again = engine.confirm_transaction(&by(account(1)), id, &mut events);
    assert_eq!(again, Ok(ConfirmationStatus::ConfirmationsNeeded(1)));
    assert_eq!(engine.confirmation_count(id), Some(2));
    assert_eq!(events.len(), 1);
}

#[test]
fn confirm_refusals() {
    let mut engine = two_of_three();
    let mut events = Vec::new();
    let (id, _) = engine.submit_transaction(&by(account(1)), transfer(0), &mut events).unwrap();
    events.clear();
    assert_eq!(
        engine.confirm_transaction(&by(account(4)), id, &mut events),
        Err(MultiSigError::CallerNotOwner)
    );
    assert_eq!(
        engine.confirm_transaction(&by(account(2)), id + 1, &mut events),
        Err(MultiSigError::TransactionNotFound)
    );
    assert_eq!(engine.confirmation_count(id), Some(1));
    assert!(events.is_empty());
}

#[test]
fn status_turns_with_the_count() {
    let mut engine = two_of_three();
    let mut events = Vec::new();
    let (id, status) = engine.submit_transaction(&by(account(1)), transfer(0), &mut events).unwrap();
    assert_eq!(status, ConfirmationStatus::ConfirmationsNeeded(1));
    assert_eq!(engine.status(id), Ok(ConfirmationStatus::ConfirmationsNeeded(1)));
    assert_eq!(engine.ensure_confirmed(id), Err(MultiSigError::NotConfirmed));
    assert_eq!(
        engine.confirm_transaction(&by(account(2)), id, &mut events),
        Ok(ConfirmationStatus::Confirmed)
    );
    assert_eq!(engine.status(id), Ok(ConfirmationStatus::Confirmed));
    assert_eq!(engine.ensure_confirmed(id), Ok(()));
    assert_eq!(
        engine.confirm_transaction(&by(account(3)), id, &mut events),
        Ok(ConfirmationStatus::Confirmed)
    );
    assert_eq!(engine.confirmation_count(id), Some(3));
    assert_eq!(engine.revoke_confirmation(&by(account(3)), id, &mut events), Ok(()));
    assert_eq!(engine.status(id), Ok(ConfirmationStatus::Confirmed));
    events.clear();
    assert_eq!(engine.revoke_confirmation(&by(account(1)), id, &mut events), Ok(()));
    assert_eq!(engine.status(id), Ok(ConfirmationStatus::ConfirmationsNeeded(1)));
    assert_eq!(engine.confirmation_count(id), Some(1));
    assert_eq!(
        engine.invoke_transaction(&by(account(2)), id),
        Err(MultiSigError::NotConfirmed)
    );
    assert_eq!(
        events,
        vec![Event::Revocation(Revocation { transaction: id, from: account(1) })]
    );
    assert_eq!(engine.ensure_confirmed(id + 1), Err(MultiSigError::TransactionNotFound));
}

#[test]
fn raising_the_quorum_takes_confirmed_status_away() {
    let mut engine = two_of_three();
    let mut events = Vec::new();
    let (id, _) = engine.submit_transaction(&by(account(1)), transfer(0), &mut events).unwrap();
    engine.confirm_transaction(&by(account(2)), id, &mut events).unwrap();
    assert_eq!(engine.status(id), Ok(ConfirmationStatus::Confirmed));
    engine.change_requirement(&by_self(), 3, &mut events).unwrap();
    assert_eq!(engine.status(id), Ok(ConfirmationStatus::ConfirmationsNeeded(1)));
}

#[test]
fn revoking_what_was_never_given_changes_nothing() {
    let mut engine = two_of_three();
    let mut events = Vec::new();
    let (id, _) = engine.submit_transaction(&by(account(1)), transfer(0), &mut events).unwrap();
    events.clear();
    assert_eq!(engine.revoke_confirmation(&by(account(2)), id, &mut events), Ok(()));
    assert!(events.is_empty());
    assert_eq!(engine.confirmation_count(id), Some(1));
    assert!(engine.has_confirmed(id, &account(1)));
    assert_eq!(engine.status(id), Ok(ConfirmationStatus::ConfirmationsNeeded(1)));
    // Nor does revoking on an id that is not live.
    assert_eq!(engine.revoke_confirmation(&by(account(2)), id + 1, &mut events), Ok(()));
    assert!(events.is_empty());
}

#[test]
fn revoke_by_stranger_is_refused() {
    let mut engine = two_of_three();
    let mut events = Vec::new();
    let (id, _) = engine.submit_transaction(&by(account(1)), transfer(0), &mut events).unwrap();
    events.clear();
    assert_eq!(
        engine.revoke_confirmation(&by(account(4)), id, &mut events),
        Err(MultiSigError::CallerNotOwner)
    );
    assert_eq!(engine.confirmation_count(id), Some(1));
    assert!(events.is_empty());
}

#[test]
fn quorum_of_two_scenario() {
    let (a, b, c) = (account(1), account(2), account(3));
    let mut engine = Multisig::new(2, vec![a, b, c]);
    let mut events = Vec::new();
    let (id, status) = engine.submit_transaction(&by(a), transfer(0), &mut events).unwrap();
    assert_eq!(status, ConfirmationStatus::ConfirmationsNeeded(1));
    assert_eq!(engine.confirm_transaction(&by(b), id, &mut events), Ok(ConfirmationStatus::Confirmed));
    let released = engine.invoke_transaction(&by(c), id);
    assert_eq!(released, Ok(transfer(0)));
    assert_eq!(Multisig::conclude_invoke(id, true, &mut events), Ok(()));
    assert_eq!(engine.confirmation_count(id), None);
    for who in [a, b, c] {
        assert_eq!(
            engine.confirm_transaction(&by(who), id, &mut events),
            Err(MultiSigError::TransactionNotFound)
        );
    }
}

#[test]
fn invoke_refusals_leave_the_proposal() {
    let mut engine = two_of_three();
    let mut events = Vec::new();
    assert_eq!(
        engine.invoke_transaction(&by(account(1)), 0),
        Err(MultiSigError::TransactionNotFound)
    );
    let (id, _) = engine.submit_transaction(&by(account(1)), transfer(5), &mut events).unwrap();
    let paying = CallContext { caller: account(4), account_id: wallet(), transferred_value: 5 };
    assert_eq!(engine.invoke_transaction(&paying, id), Err(MultiSigError::NotConfirmed));
    engine.confirm_transaction(&by(account(2)), id, &mut events).unwrap();
    let short = CallContext { caller: account(4), account_id: wallet(), transferred_value: 4 };
    assert_eq!(engine.invoke_transaction(&short, id), Err(MultiSigError::ValueMismatch));
    assert_eq!(engine.confirmation_count(id), Some(2));
    assert_eq!(engine.status(id), Ok(ConfirmationStatus::Confirmed));
    // Anyone may invoke once the quorum is met.
    assert_eq!(engine.invoke_transaction(&paying, id), Ok(transfer(5)));
    assert_eq!(engine.status(id), Err(MultiSigError::TransactionNotFound));
}

#[test]
fn eval_ignores_attached_value() {
    let mut engine = two_of_three();
    let mut events = Vec::new();
    assert_eq!(engine.eval_transaction(0), Err(MultiSigError::TransactionNotFound));
    let (id, _) = engine.submit_transaction(&by(account(1)), transfer(5), &mut events).unwrap();
    assert_eq!(engine.eval_transaction(id), Err(MultiSigError::NotConfirmed));
    engine.confirm_transaction(&by(account(3)), id, &mut events).unwrap();
    let released = engine.eval_transaction(id).unwrap();
    assert_eq!(released, transfer(5));
    assert!(!released.allow_reentry);
    assert_eq!(engine.confirmation_count(id), None);
    assert!(!engine.has_confirmed(id, &account(1)));
}

#[test]
fn a_proposal_is_destroyed_once() {
    let mut events = Vec::new();

    let mut engine = Multisig::new(1, vec![account(1)]);
    let (id, _) = engine.submit_transaction(&by(account(1)), transfer(0), &mut events).unwrap();
    assert!(engine.invoke_transaction(&by(account(5)), id).is_ok());
    assert_eq!(engine.invoke_transaction(&by(account(5)), id), Err(MultiSigError::TransactionNotFound));
    assert_eq!(engine.eval_transaction(id), Err(MultiSigError::TransactionNotFound));
    assert_eq!(
        engine.cancel_transaction(&by_self(), id, &mut events),
        Err(MultiSigError::TransactionNotFound)
    );

    let (id, _) = engine.submit_transaction(&by(account(1)), transfer(0), &mut events).unwrap();
    assert!(engine.eval_transaction(id).is_ok());
    assert_eq!(engine.invoke_transaction(&by(account(5)), id), Err(MultiSigError::TransactionNotFound));
    assert_eq!(engine.eval_transaction(id), Err(MultiSigError::TransactionNotFound));
    assert_eq!(
        engine.cancel_transaction(&by_self(), id, &mut events),
        Err(MultiSigError::TransactionNotFound)
    );

    let (id, _) = engine.submit_transaction(&by(account(1)), transfer(0), &mut events).unwrap();
    assert_eq!(engine.cancel_transaction(&by_self(), id, &mut events), Ok(()));
    assert_eq!(engine.invoke_transaction(&by(account(5)), id), Err(MultiSigError::TransactionNotFound));
    assert_eq!(engine.eval_transaction(id), Err(MultiSigError::TransactionNotFound));
    assert_eq!(
        engine.cancel_transaction(&by_self(), id, &mut events),
        Err(MultiSigError::TransactionNotFound)
    );
    // A caller other than the engine is turned away before the id is looked at.
    assert_eq!(
        engine.cancel_transaction(&by(account(1)), id, &mut events),
        Err(MultiSigError::CallerNotSelf)
    );
}

#[test]
fn ids_are_not_reused_after_removal() {
    let mut engine = Multisig::new(1, vec![account(1)]);
    let mut events = Vec::new();
    let (first, _) = engine.submit_transaction(&by(account(1)), transfer(0), &mut events).unwrap();
    engine.cancel_transaction(&by_self(), first, &mut events).unwrap();
    let (second, _) = engine.submit_transaction(&by(account(1)), transfer(0), &mut events).unwrap();
    assert_eq!((first, second), (0, 1));
}

#[test]
fn cancel_removes_whatever_the_status() {
    let mut engine = two_of_three();
    let mut events = Vec::new();
    let (pending, _) = engine.submit_transaction(&by(account(1)), transfer(0), &mut events).unwrap();
    let (confirmed, _) = engine.submit_transaction(&by(account(1)), transfer(0), &mut events).unwrap();
    engine.confirm_transaction(&by(account(2)), confirmed, &mut events).unwrap();
    events.clear();
    assert_eq!(
        engine.cancel_transaction(&by(account(1)), pending, &mut events),
        Err(MultiSigError::CallerNotSelf)
    );
    assert_eq!(engine.confirmation_count(pending), Some(1));
    assert_eq!(engine.cancel_transaction(&by_self(), pending, &mut events), Ok(()));
    assert_eq!(engine.cancel_transaction(&by_self(), confirmed, &mut events), Ok(()));
    assert_eq!(engine.confirmation_count(pending), None);
    assert_eq!(engine.confirmation_count(confirmed), None);
    assert_eq!(
        events,
        vec![
            Event::Cancellation(Cancellation { transaction: pending }),
            Event::Cancellation(Cancellation { transaction: confirmed }),
        ]
    );
}

#[test]
fn take_transaction_hands_out_once() {
    let mut engine = two_of_three();
    let mut events = Vec::new();
    let (id, _) = engine.submit_transaction(&by(account(1)), transfer(3), &mut events).unwrap();
    assert_eq!(engine.take_transaction(id), Some(transfer(3)));
    assert_eq!(engine.take_transaction(id), None);
    assert_eq!(engine.ensure_transaction_exists(id), Err(MultiSigError::TransactionNotFound));
}

#[test]
fn conclude_invoke_reports_without_output() {
    let mut events = Vec::new();
    assert_eq!(Multisig::conclude_invoke(4, true, &mut events), Ok(()));
    assert_eq!(
        Multisig::conclude_invoke(5, false, &mut events),
        Err(MultiSigError::CallExecutionFailed)
    );
    assert_eq!(
        events,
        vec![
            Event::Execution(Execution { transaction: 4, result: Ok(None) }),
            Event::Execution(Execution {
                transaction: 5,
                result: Err(MultiSigError::CallExecutionFailed),
            }),
        ]
    );
}

#[test]
fn conclude_eval_reports_the_output() {
    let mut events = Vec::new();
    assert_eq!(Multisig::conclude_eval(4, Some(vec![9, 8]), &mut events), Ok(vec![9, 8]));
    assert_eq!(
        Multisig::conclude_eval(5, None, &mut events),
        Err(MultiSigError::CallExecutionFailed)
    );
    assert_eq!(
        events,
        vec![
            Event::Execution(Execution { transaction: 4, result: Ok(Some(vec![9, 8])) }),
            Event::Execution(Execution {
                transaction: 5,
                result: Err(MultiSigError::CallExecutionFailed),
            }),
        ]
    );
}

#[test]
fn guards_name_their_refusal() {
    let engine = two_of_three();
    assert_eq!(Multisig::ensure_from_wallet(&by_self()), Ok(()));
    assert_eq!(Multisig::ensure_from_wallet(&by(account(1))), Err(MultiSigError::CallerNotSelf));
    assert_eq!(engine.ensure_caller_is_owner(&by(account(1))), Ok(()));
    assert_eq!(engine.ensure_caller_is_owner(&by(account(4))), Err(MultiSigError::CallerNotOwner));
    assert_eq!(engine.ensure_owner(&account(3)), Ok(()));
    assert_eq!(engine.ensure_owner(&account(4)), Err(MultiSigError::OwnerNotFound));
    assert_eq!(engine.ensure_not_owner(&account(4)), Ok(()));
    assert_eq!(engine.ensure_not_owner(&account(3)), Err(MultiSigError::OwnerAlreadyExists));
}

#[test]
fn stored_state_comes_back_unchanged() {
    let mut engine = two_of_three();
    let mut events = Vec::new();
    let (id, _) = engine.submit_transaction(&by(account(1)), transfer(5), &mut events).unwrap();
    engine.confirm_transaction(&by(account(3)), id, &mut events).unwrap();

    let (owners, requirement, ledger) = engine.into_parts();
    let (rows, next_id) = ledger.into_parts();
    assert_eq!(next_id, 1);
    let stored: Vec<_> = rows.into_iter().map(PendingTransaction::into_parts).collect();
    assert_eq!(stored.len(), 1);
    assert_eq!(stored[0].0, id);
    assert_eq!(stored[0].1, transfer(5));
    assert_eq!(stored[0].2, vec![account(1), account(3)]);
    assert_eq!(stored[0].3, 2);

    let rows = stored
        .into_iter()
        .map(|(id, t, by, count)| PendingTransaction::from_parts(id, t, by, count))
        .collect();
    let ledger = Transactions::from_parts(rows, next_id).unwrap();
    let engine = Multisig::restore(owners, requirement, ledger).unwrap();
    assert_eq!(engine.owners(), &vec![account(1), account(2), account(3)]);
    assert_eq!(engine.requirement(), 2);
    assert_eq!(engine.status(id), Ok(ConfirmationStatus::Confirmed));
    assert!(engine.has_confirmed(id, &account(3)));
    assert!(!engine.has_confirmed(id, &account(2)));
}

#[test]
fn restore_rejects_what_does_not_fit() {
    let empty = || Transactions::from_parts(Vec::new(), 0).unwrap();
    assert!(Multisig::restore(vec![account(1), account(1)], 1, empty()).is_none());
    assert!(Multisig::restore(vec![account(1)], 2, empty()).is_none());
    assert!(Multisig::restore(vec![account(1)], 0, empty()).is_none());
    assert!(Multisig::restore(Vec::new(), 0, empty()).is_none());
    assert!(Multisig::restore(
        vec![account(1), account(2), account(3), account(4)],
        2,
        empty()
    )
    .is_none());
    let row = |id, by: Vec<AccountId>, count| PendingTransaction::from_parts(id, transfer(0), by, count);
    let by_stranger = Transactions::from_parts(vec![row(0, vec![account(4)], 1)], 1).unwrap();
    assert!(Multisig::restore(vec![account(1)], 1, by_stranger).is_none());
    let by_owner = Transactions::from_parts(vec![row(0, vec![account(1)], 1)], 1).unwrap();
    assert!(Multisig::restore(vec![account(1)], 1, by_owner).is_some());

    assert!(Transactions::from_parts(vec![row(0, vec![], 0), row(0, vec![], 0)], 1).is_none());
    assert!(Transactions::from_parts(vec![row(1, vec![], 0)], 1).is_none());
    assert!(Transactions::from_parts(vec![row(0, vec![account(1)], 2)], 1).is_none());
    assert!(Transactions::from_parts(vec![row(0, vec![account(1), account(1)], 2)], 1).is_none());
    assert!(Transactions::from_parts(vec![row(0, vec![], 0), row(2, vec![], 0)], 3).is_some());
}
