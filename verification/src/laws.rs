//! The laws of the account state machine, proved once and for all against
//! the transition model of [`crate::account::apply_spec`].

use vstd::prelude::*;

use crate::account::{
    apply_spec, chargeback_spec, deposit_spec, dispute_spec, resolve_spec, AccountView,
    TransactionError, TransactionState,
};
use crate::amount::Amount;
use crate::transaction::{Transaction, TransactionId, Type};

verus! {

/// A frozen account rejects every transaction, of any type, with
/// `FrozenAccount`, and is left exactly as it was — so once frozen, an
/// account stays frozen for good.
pub proof fn lemma_frozen_rejects_all(a: AccountView, tx: Transaction)
    requires
        a.frozen,
    ensures
        apply_spec(a, tx) == (a, Err::<(), TransactionError>(TransactionError::FrozenAccount)),
{
}

/// A deposit followed immediately by a dispute and then a resolve returns
/// the available and held pools to their pre-dispute values exactly, and
/// restores the transaction to its deposited state, ready to be disputed
/// again.
pub proof fn lemma_deposit_dispute_resolve_round_trip(
    a: AccountView,
    tx_id: TransactionId,
    amount: int,
)
    requires
        a.wf(),
        deposit_spec(a, tx_id, amount).1 is Ok,
        dispute_spec(deposit_spec(a, tx_id, amount).0, tx_id).1 is Ok,
        resolve_spec(dispute_spec(deposit_spec(a, tx_id, amount).0, tx_id).0, tx_id).1 is Ok,
    ensures
        ({
            let deposited = deposit_spec(a, tx_id, amount).0;
            let disputed = dispute_spec(deposited, tx_id).0;
            let resolved = resolve_spec(disputed, tx_id).0;
            &&& resolved.available.amount() == deposited.available.amount()
            &&& resolved.held.amount() == deposited.held.amount()
            &&& resolved.frozen == deposited.frozen
            &&& resolved.tx_states =~= deposited.tx_states
        }),
{
}

/// Disputing, then charging back, a deposit of amount `A` removes exactly
/// `A` from the held pool and freezes the account; after that, every
/// transaction whatsoever is rejected with `FrozenAccount`.
pub proof fn lemma_dispute_chargeback_freezes(a: AccountView, tx_id: TransactionId)
    requires
        a.wf(),
        !a.frozen,
        dispute_spec(a, tx_id).1 is Ok,
        chargeback_spec(dispute_spec(a, tx_id).0, tx_id).1 is Ok,
    ensures
        ({
            let disputed = dispute_spec(a, tx_id).0;
            let charged = chargeback_spec(disputed, tx_id).0;
            let amount = a.tx_states[tx_id].1;
            &&& charged.frozen
            &&& charged.held.amount() == disputed.held.amount() - amount
            &&& charged.available.amount() == disputed.available.amount()
            &&& forall|tx: Transaction| #[trigger] apply_spec(charged, tx) == (
                charged,
                Err::<(), TransactionError>(TransactionError::FrozenAccount),
            )
        }),
{
}

/// A deposit or withdrawal that reuses a transaction id already seen is
/// rejected with `DuplicateTransaction` and leaves the account untouched.
/// (A withdrawal must pass the funds check to reach the duplicate check.)
pub proof fn lemma_duplicate_id_rejected(a: AccountView, tx: Transaction)
    requires
        !a.frozen,
        a.tx_states.contains_key(tx.tx_id),
        tx.tx_type is Deposit || tx.tx_type is Withdrawal,
        forall|amt: Amount| tx.tx_type == Type::Withdrawal(amt) ==> amt@ <= a.available.amount(),
    ensures
        apply_spec(a, tx) == (
            a,
            Err::<(), TransactionError>(TransactionError::DuplicateTransaction),
        ),
{
}

/// A dispute, resolve or chargeback that references a transaction id never
/// seen on this account is rejected with `UnknownTransaction` and leaves
/// the account untouched.
pub proof fn lemma_unknown_id_rejected(a: AccountView, tx: Transaction)
    requires
        !a.frozen,
        !a.tx_states.contains_key(tx.tx_id),
        tx.tx_type is Dispute || tx.tx_type is Resolve || tx.tx_type is Chargeback,
    ensures
        apply_spec(a, tx) == (a, Err::<(), TransactionError>(TransactionError::UnknownTransaction)),
{
}

/// Disputing a transaction that is not in the deposited state (for
/// instance a withdrawal), or resolving or charging back one that is not
/// under dispute, is rejected with `InvalidTransaction` and leaves the
/// account untouched.
pub proof fn lemma_invalid_state_rejected(a: AccountView, tx: Transaction)
    requires
        !a.frozen,
        a.tx_states.contains_key(tx.tx_id),
        tx.tx_type is Dispute || tx.tx_type is Resolve || tx.tx_type is Chargeback,
        tx.tx_type is Dispute ==> a.tx_states[tx.tx_id].0 != TransactionState::Deposited,
        tx.tx_type is Resolve || tx.tx_type is Chargeback ==> a.tx_states[tx.tx_id].0
            != TransactionState::Disputed,
    ensures
        apply_spec(a, tx) == (a, Err::<(), TransactionError>(TransactionError::InvalidTransaction)),
{
}

} // verus!
