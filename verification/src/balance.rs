//! A money pool kept as two one-way accumulators.
//!
//! A [`Balance`] never mutates a single signed register: `add` only grows the
//! credit side and `subtract` only grows the debit side, so a failed compound
//! operation can be rolled back without reconstructing lost information. Its
//! value is always `credit - debit`.

use vstd::prelude::*;

use crate::account::TransactionError;
use crate::amount::{in_units_range, Amount, UNITS_LIMIT};

verus! {

/// The mathematical content of a [`Balance`]: both accumulators, in
/// ten-thousandths.
pub struct BalanceView {
    pub credit: int,
    pub debit: int,
}

impl BalanceView {
    /// The value of the pool.
    pub open spec fn amount(self) -> int {
        self.credit - self.debit
    }

    /// Both accumulators lie within the representable range.
    pub open spec fn wf(self) -> bool {
        in_units_range(self.credit) && in_units_range(self.debit)
    }

    /// The balance after a successful `add`, paired with its outcome: the
    /// credit accumulator grows by `delta` unless that leaves the range.
    pub open spec fn try_add(self, delta: int) -> (BalanceView, Result<(), TransactionError>) {
        if in_units_range(self.credit + delta) {
            (BalanceView { credit: self.credit + delta, ..self }, Ok(()))
        } else {
            (self, Err(TransactionError::Overflow))
        }
    }

    /// The balance after a successful `subtract`, paired with its outcome:
    /// the debit accumulator grows by `delta` unless that leaves the range.
    pub open spec fn try_subtract(self, delta: int) -> (BalanceView, Result<(), TransactionError>) {
        if in_units_range(self.debit + delta) {
            (BalanceView { debit: self.debit + delta, ..self }, Ok(()))
        } else {
            (self, Err(TransactionError::Overflow))
        }
    }
}

/// One of an account's two money pools (available or held), as a sum of
/// credits and a sum of debits.
#[derive(Clone, Copy)]
pub struct Balance {
    credit: Amount,
    debit: Amount,
}

impl View for Balance {
    type V = BalanceView;

    closed spec fn view(&self) -> BalanceView {
        BalanceView { credit: self.credit@, debit: self.debit@ }
    }
}

impl Balance {
    /// A pool with the given starting accumulators.
    pub fn new(credit: Amount, debit: Amount) -> (r: Balance)
        requires
            in_units_range(credit@),
            in_units_range(debit@),
        ensures
            r@ == (BalanceView { credit: credit@, debit: debit@ }),
            r@.wf(),
    {
        Balance { credit, debit }
    }

    /// The current value of the pool: `credit - debit`. Pure, no failure.
    pub fn amount(&self) -> (r: Amount)
        requires
            self@.wf(),
        ensures
            r@ == self@.amount(),
    {
        Amount::from_units(self.credit.units() - self.debit.units())
    }

    /// Adds `delta` to the pool by growing the credit accumulator; fails
    /// with `Overflow`, leaving the pool unchanged, if the accumulator would
    /// leave the representable range.
    pub fn add(&mut self, delta: Amount) -> (r: Result<(), TransactionError>)
        requires
            old(self)@.wf(),
        ensures
            (final(self)@, r) == old(self)@.try_add(delta@),
            final(self)@.wf(),
    {
        let units = delta.units();
        let credit = self.credit.units();
        if units > UNITS_LIMIT - credit || units < -UNITS_LIMIT - credit {
            Err(TransactionError::Overflow)
        } else {
            self.credit = Amount::from_units(credit + units);
            Ok(())
        }
    }

    /// Removes `delta` from the pool by growing the debit accumulator; fails
    /// with `Overflow`, leaving the pool unchanged, if the accumulator would
    /// leave the representable range.
    pub fn subtract(&mut self, delta: Amount) -> (r: Result<(), TransactionError>)
        requires
            old(self)@.wf(),
        ensures
            (final(self)@, r) == old(self)@.try_subtract(delta@),
            final(self)@.wf(),
    {
        let units = delta.units();
        let debit = self.debit.units();
        if units > UNITS_LIMIT - debit || units < -UNITS_LIMIT - debit {
            Err(TransactionError::Overflow)
        } else {
            self.debit = Amount::from_units(debit + units);
            Ok(())
        }
    }
}

} // verus!
