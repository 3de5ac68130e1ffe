//! The per-client account state machine.
//!
//! An [`Account`] holds two money pools (available and held), a frozen flag,
//! and the last known disposition of every transaction id it has seen. Its
//! single entry point, [`Account::apply`], is specified against the pure
//! transition function [`apply_spec`]: every successful transition moves
//! funds exactly as the model says, and every failed one leaves the account
//! untouched.

use std::collections::HashMap;
use vstd::prelude::*;

use crate::amount::Amount;
use crate::balance::{Balance, BalanceView};
use crate::transaction::{Transaction, TransactionId, Type};

verus! {

/// Why applying a transaction to an account failed. Every failure is local
/// to the one transaction that triggered it.
#[derive(Clone, Copy, PartialEq, Eq, Structural, Debug)]
pub enum TransactionError {
    /// The account is already frozen, so no more transactions can be applied.
    FrozenAccount,
    /// Funds are insufficient: a withdrawal beyond the available pool, or a
    /// resolve beyond the held pool.
    NotEnoughFunds,
    /// A deposit or withdrawal reuses a transaction id already seen.
    DuplicateTransaction,
    /// A dispute, resolve or chargeback references a transaction id never
    /// seen on this account.
    UnknownTransaction,
    /// A dispute, resolve or chargeback references a transaction whose
    /// current state forbids that action.
    InvalidTransaction,
    /// A balance accumulator would leave the representable range.
    Overflow,
}

/// The last known disposition of a transaction id: a finite state machine
/// per id, advanced by dispute, resolve and chargeback.
#[derive(Clone, Copy, PartialEq, Eq, Structural, Debug)]
pub enum TransactionState {
    /// An amount has been withdrawn. Terminal: withdrawals cannot be
    /// disputed.
    Withdrawn,
    /// An amount has been deposited, or a dispute on it was resolved.
    Deposited,
    /// The deposit is under dispute.
    Disputed,
    /// The disputed deposit was charged back. Terminal.
    ChargedBack,
}

/// The mathematical content of an [`Account`].
pub struct AccountView {
    pub frozen: bool,
    pub available: BalanceView,
    pub held: BalanceView,
    pub tx_states: Map<TransactionId, (TransactionState, int)>,
}

impl AccountView {
    /// A fresh account: zero balances, not frozen, no transactions seen.
    pub open spec fn init() -> AccountView {
        AccountView {
            frozen: false,
            available: BalanceView { credit: 0, debit: 0 },
            held: BalanceView { credit: 0, debit: 0 },
            tx_states: Map::empty(),
        }
    }

    /// Both pools lie within the representable range.
    pub open spec fn wf(self) -> bool {
        self.available.wf() && self.held.wf()
    }

    /// The total funds of the account: available plus held.
    pub open spec fn total(self) -> int {
        self.available.amount() + self.held.amount()
    }
}

/// The deposit transition: reject a reused id, then credit the available
/// pool and record the deposit.
pub open spec fn deposit_spec(a: AccountView, tx_id: TransactionId, amount: int) -> (AccountView,
    Result<(), TransactionError>) {
    if a.tx_states.contains_key(tx_id) {
        (a, Err(TransactionError::DuplicateTransaction))
    } else {
        let (available, r) = a.available.try_add(amount);
        if r is Err {
            (a, r)
        } else {
            (
                AccountView {
                    available,
                    tx_states: a.tx_states.insert(tx_id, (TransactionState::Deposited, amount)),
                    ..a
                },
                Ok(()),
            )
        }
    }
}

/// The withdrawal transition: the funds check precedes the duplicate check,
/// and neither failure mutates the account.
pub open spec fn withdrawal_spec(a: AccountView, tx_id: TransactionId, amount: int) -> (
    AccountView,
    Result<(), TransactionError>,
) {
    if amount > a.available.amount() {
        (a, Err(TransactionError::NotEnoughFunds))
    } else if a.tx_states.contains_key(tx_id) {
        (a, Err(TransactionError::DuplicateTransaction))
    } else {
        let (available, r) = a.available.try_subtract(amount);
        if r is Err {
            (a, r)
        } else {
            (
                AccountView {
                    available,
                    tx_states: a.tx_states.insert(tx_id, (TransactionState::Withdrawn, amount)),
                    ..a
                },
                Ok(()),
            )
        }
    }
}

/// The dispute transition: only a deposited transaction can be disputed;
/// its amount moves from available to held, or nothing moves at all.
pub open spec fn dispute_spec(a: AccountView, tx_id: TransactionId) -> (AccountView, Result<
    (),
    TransactionError,
>) {
    if !a.tx_states.contains_key(tx_id) {
        (a, Err(TransactionError::UnknownTransaction))
    } else {
        let (state, amount) = a.tx_states[tx_id];
        if state != TransactionState::Deposited {
            (a, Err(TransactionError::InvalidTransaction))
        } else {
            let (held, r1) = a.held.try_add(amount);
            if r1 is Err {
                (a, r1)
            } else {
                let (available, r2) = a.available.try_subtract(amount);
                if r2 is Err {
                    (a, r2)
                } else {
                    (
                        AccountView {
                            available,
                            held,
                            tx_states: a.tx_states.insert(
                                tx_id,
                                (TransactionState::Disputed, amount),
                            ),
                            ..a
                        },
                        Ok(()),
                    )
                }
            }
        }
    }
}

/// The resolve transition: a disputed amount returns from held to
/// available, restoring the transaction to its pre-dispute state; the held
/// pool must cover the amount, and nothing moves on any failure.
pub open spec fn resolve_spec(a: AccountView, tx_id: TransactionId) -> (AccountView, Result<
    (),
    TransactionError,
>) {
    if !a.tx_states.contains_key(tx_id) {
        (a, Err(TransactionError::UnknownTransaction))
    } else {
        let (state, amount) = a.tx_states[tx_id];
        if state != TransactionState::Disputed {
            (a, Err(TransactionError::InvalidTransaction))
        } else if a.held.amount() < amount {
            (a, Err(TransactionError::NotEnoughFunds))
        } else {
            let (available, r1) = a.available.try_add(amount);
            if r1 is Err {
                (a, r1)
            } else {
                let (held, r2) = a.held.try_subtract(amount);
                if r2 is Err {
                    (a, r2)
                } else {
                    (
                        AccountView {
                            available,
                            held,
                            tx_states: a.tx_states.insert(
                                tx_id,
                                (TransactionState::Deposited, amount),
                            ),
                            ..a
                        },
                        Ok(()),
                    )
                }
            }
        }
    }
}

/// The chargeback transition: a disputed amount leaves the held pool for
/// good and the account freezes, irreversibly.
pub open spec fn chargeback_spec(a: AccountView, tx_id: TransactionId) -> (AccountView, Result<
    (),
    TransactionError,
>) {
    if !a.tx_states.contains_key(tx_id) {
        (a, Err(TransactionError::UnknownTransaction))
    } else {
        let (state, amount) = a.tx_states[tx_id];
        if state != TransactionState::Disputed {
            (a, Err(TransactionError::InvalidTransaction))
        } else {
            let (held, r) = a.held.try_subtract(amount);
            if r is Err {
                (a, r)
            } else {
                (
                    AccountView {
                        held,
                        frozen: true,
                        tx_states: a.tx_states.insert(
                            tx_id,
                            (TransactionState::ChargedBack, amount),
                        ),
                        ..a
                    },
                    Ok(()),
                )
            }
        }
    }
}

/// The full transition function of an account: a frozen account rejects
/// everything, anything else dispatches on the transaction type.
pub open spec fn apply_spec(a: AccountView, tx: Transaction) -> (AccountView, Result<
    (),
    TransactionError,
>) {
    if a.frozen {
        (a, Err(TransactionError::FrozenAccount))
    } else {
        match tx.tx_type {
            Type::Withdrawal(amount) => withdrawal_spec(a, tx.tx_id, amount@),
            Type::Deposit(amount) => deposit_spec(a, tx.tx_id, amount@),
            Type::Dispute => dispute_spec(a, tx.tx_id),
            Type::Resolve => resolve_spec(a, tx.tx_id),
            Type::Chargeback => chargeback_spec(a, tx.tx_id),
        }
    }
}

/// The disposition map a state table stands for, with amounts read as
/// ten-thousandths.
pub open spec fn tx_map_view(m: Map<TransactionId, (TransactionState, Amount)>) -> Map<
    TransactionId,
    (TransactionState, int),
> {
    Map::new(|k: TransactionId| m.contains_key(k), |k: TransactionId| (m[k].0, m[k].1@))
}

proof fn lemma_tx_map_view_insert(
    m: Map<TransactionId, (TransactionState, Amount)>,
    k: TransactionId,
    v: (TransactionState, Amount),
)
    ensures
        tx_map_view(m.insert(k, v)) == tx_map_view(m).insert(k, (v.0, v.1@)),
{
    assert(tx_map_view(m.insert(k, v)) =~= tx_map_view(m).insert(k, (v.0, v.1@)));
}

/// The disposition map built from a sequence of seeded entries, later
/// entries overriding earlier ones with the same id.
pub open spec fn entries_view(s: Seq<(TransactionId, TransactionState, Amount)>) -> Map<
    TransactionId,
    (TransactionState, int),
>
    decreases s.len(),
{
    if s.len() == 0 {
        Map::empty()
    } else {
        entries_view(s.drop_last()).insert(s.last().0, (s.last().1, s.last().2@))
    }
}

/// A client account: a state machine to which transactions are applied.
///
/// Every application either performs the full transition of [`apply_spec`]
/// or leaves the account exactly as it was.
pub struct Account {
    pub frozen: bool,
    pub available: Balance,
    pub held: Balance,
    tx_states: HashMap<TransactionId, (TransactionState, Amount)>,
}

impl View for Account {
    type V = AccountView;

    closed spec fn view(&self) -> AccountView {
        AccountView {
            frozen: self.frozen,
            available: self.available@,
            held: self.held@,
            tx_states: tx_map_view(self.tx_states@),
        }
    }
}

impl Account {
    /// A fresh account: zero balances, not frozen, no transactions seen.
    pub fn new() -> (r: Account)
        ensures
            r@ == AccountView::init(),
            r@.wf(),
    {
        let r = Account {
            frozen: false,
            available: Balance::new(Amount::from_units(0), Amount::from_units(0)),
            held: Balance::new(Amount::from_units(0), Amount::from_units(0)),
            tx_states: HashMap::new(),
        };
        proof {
            assert(tx_map_view(r.tx_states@) =~= Map::empty());
        }
        r
    }

    /// An account seeded with the given pools, frozen flag and transaction
    /// dispositions; later entries override earlier ones with the same id.
    pub fn from_parts(
        frozen: bool,
        available: Balance,
        held: Balance,
        entries: Vec<(TransactionId, TransactionState, Amount)>,
    ) -> (r: Account)
        requires
            available@.wf(),
            held@.wf(),
        ensures
            r@ == (AccountView {
                frozen,
                available: available@,
                held: held@,
                tx_states: entries_view(entries@),
            }),
            r@.wf(),
    {
        let mut tx_states: HashMap<TransactionId, (TransactionState, Amount)> = HashMap::new();
        proof {
            assert(tx_map_view(tx_states@) =~= Map::empty());
            assert(entries@.take(0) =~= Seq::<(TransactionId, TransactionState, Amount)>::empty());
        }
        let mut i: usize = 0;
        while i < entries.len()
            invariant
                i <= entries.len(),
                tx_map_view(tx_states@) == entries_view(entries@.take(i as int)),
            decreases entries.len() - i,
        {
            let (tx_id, state, amount) = entries[i];
            proof {
                lemma_tx_map_view_insert(tx_states@, tx_id, (state, amount));
                assert(entries@.take(i + 1).drop_last() =~= entries@.take(i as int));
            }
            tx_states.insert(tx_id, (state, amount));
            i = i + 1;
        }
        proof {
            assert(entries@.take(entries@.len() as int) =~= entries@);
        }
        Account { frozen, available, held, tx_states }
    }

    /// The total funds stored in the account: available plus held.
    pub fn total_amount(&self) -> (r: Amount)
        requires
            self@.wf(),
        ensures
            r@ == self@.total(),
    {
        Amount::from_units(self.available.amount().units() + self.held.amount().units())
    }

    /// The stored disposition of a transaction id, with its amount.
    fn get_tx_state(&self, tx_id: TransactionId) -> (r: Result<
        (TransactionState, Amount),
        TransactionError,
    >)
        ensures
            match r {
                Ok(p) => self@.tx_states.contains_key(tx_id) && self@.tx_states[tx_id] == (
                    p.0,
                    p.1@,
                ),
                Err(e) => e == TransactionError::UnknownTransaction
                    && !self@.tx_states.contains_key(tx_id),
            },
    {
        match self.tx_states.get(&tx_id) {
            Some(p) => Ok((p.0, p.1)),
            None => Err(TransactionError::UnknownTransaction),
        }
    }

    /// Applies one transaction: the account either takes the exact step of
    /// [`apply_spec`] or, on failure, is left untouched with the model's
    /// error. A frozen account rejects every transaction.
    pub fn apply(&mut self, tx: &Transaction) -> (r: Result<(), TransactionError>)
        requires
            old(self)@.wf(),
        ensures
            (final(self)@, r) == apply_spec(old(self)@, *tx),
            final(self)@.wf(),
    {
        if self.frozen {
            return Err(TransactionError::FrozenAccount);
        }
        match tx.tx_type {
            Type::Withdrawal(amount) => self.apply_withdrawal(tx.tx_id, amount),
            Type::Deposit(amount) => self.apply_deposit(tx.tx_id, amount),
            Type::Dispute => self.apply_dispute(tx.tx_id),
            Type::Resolve => self.apply_resolve(tx.tx_id),
            Type::Chargeback => self.apply_chargeback(tx.tx_id),
        }
    }

    fn apply_deposit(&mut self, tx_id: TransactionId, amount: Amount) -> (r: Result<
        (),
        TransactionError,
    >)
        requires
            old(self)@.wf(),
        ensures
            (final(self)@, r) == deposit_spec(old(self)@, tx_id, amount@),
            final(self)@.wf(),
    {
        if self.tx_states.contains_key(&tx_id) {
            return Err(TransactionError::DuplicateTransaction);
        }
        match self.available.add(amount) {
            Err(e) => return Err(e),
            Ok(()) => {},
        }
        proof {
            lemma_tx_map_view_insert(self.tx_states@, tx_id, (TransactionState::Deposited, amount));
        }
        self.tx_states.insert(tx_id, (TransactionState::Deposited, amount));
        Ok(())
    }

    fn apply_withdrawal(&mut self, tx_id: TransactionId, amount: Amount) -> (r: Result<
        (),
        TransactionError,
    >)
        requires
            old(self)@.wf(),
        ensures
            (final(self)@, r) == withdrawal_spec(old(self)@, tx_id, amount@),
            final(self)@.wf(),
    {
        let available = self.available.amount();
        if amount.units() > available.units() {
            return Err(TransactionError::NotEnoughFunds);
        }
        if self.tx_states.contains_key(&tx_id) {
            return Err(TransactionError::DuplicateTransaction);
        }
        match self.available.subtract(amount) {
            Err(e) => return Err(e),
            Ok(()) => {},
        }
        proof {
            lemma_tx_map_view_insert(
                self.tx_states@,
                tx_id,
                (TransactionState::Withdrawn, amount),
            );
        }
        self.tx_states.insert(tx_id, (TransactionState::Withdrawn, amount));
        Ok(())
    }

    fn apply_dispute(&mut self, tx_id: TransactionId) -> (r: Result<(), TransactionError>)
        requires
            old(self)@.wf(),
        ensures
            (final(self)@, r) == dispute_spec(old(self)@, tx_id),
            final(self)@.wf(),
    {
        let (state, amount) = match self.get_tx_state(tx_id) {
            Ok(p) => p,
            Err(e) => return Err(e),
        };
        match state {
            TransactionState::Deposited => {
                // Two pool operations must succeed together: save the held
                // pool and restore it if the second operation fails, so the
                // pools never drift out of balance.
                let saved_held = self.held;
                match self.held.add(amount) {
                    Err(e) => return Err(e),
                    Ok(()) => {},
                }
                match self.available.subtract(amount) {
                    Err(e) => {
                        self.held = saved_held;
                        return Err(e);
                    },
                    Ok(()) => {},
                }
                proof {
                    lemma_tx_map_view_insert(
                        self.tx_states@,
                        tx_id,
                        (TransactionState::Disputed, amount),
                    );
                }
                self.tx_states.insert(tx_id, (TransactionState::Disputed, amount));
                Ok(())
            },
            _ => Err(TransactionError::InvalidTransaction),
        }
    }

    fn apply_resolve(&mut self, tx_id: TransactionId) -> (r: Result<(), TransactionError>)
        requires
            old(self)@.wf(),
        ensures
            (final(self)@, r) == resolve_spec(old(self)@, tx_id),
            final(self)@.wf(),
    {
        let (state, amount) = match self.get_tx_state(tx_id) {
            Ok(p) => p,
            Err(e) => return Err(e),
        };
        match state {
            TransactionState::Disputed => {
                let held = self.held.amount();
                if held.units() < amount.units() {
                    return Err(TransactionError::NotEnoughFunds);
                }
                // The funds check keeps the usual path free of overflow, but
                // the pools must never drift apart, so the available pool is
                // saved and restored should the subtraction still fail.
                let saved_available = self.available;
                match self.available.add(amount) {
                    Err(e) => return Err(e),
                    Ok(()) => {},
                }
                match self.held.subtract(amount) {
                    Err(e) => {
                        self.available = saved_available;
                        return Err(e);
                    },
                    Ok(()) => {},
                }
                proof {
                    lemma_tx_map_view_insert(
                        self.tx_states@,
                        tx_id,
                        (TransactionState::Deposited, amount),
                    );
                }
                self.tx_states.insert(tx_id, (TransactionState::Deposited, amount));
                Ok(())
            },
            _ => Err(TransactionError::InvalidTransaction),
        }
    }

    fn apply_chargeback(&mut self, tx_id: TransactionId) -> (r: Result<(), TransactionError>)
        requires
            old(self)@.wf(),
        ensures
            (final(self)@, r) == chargeback_spec(old(self)@, tx_id),
            final(self)@.wf(),
    {
        let (state, amount) = match self.get_tx_state(tx_id) {
            Ok(p) => p,
            Err(e) => return Err(e),
        };
        match state {
            TransactionState::Disputed => {
                match self.held.subtract(amount) {
                    Err(e) => return Err(e),
                    Ok(()) => {},
                }
                proof {
                    lemma_tx_map_view_insert(
                        self.tx_states@,
                        tx_id,
                        (TransactionState::ChargedBack, amount),
                    );
                }
                self.tx_states.insert(tx_id, (TransactionState::ChargedBack, amount));
                self.frozen = true;
                Ok(())
            },
            _ => Err(TransactionError::InvalidTransaction),
        }
    }
}

} // verus!
