//! The immutable transaction value handed to the engine.

use vstd::prelude::*;

use crate::amount::Amount;

verus! {

/// Identifies the client whose account a transaction addresses.
pub type ClientId = u16;

/// Identifies a transaction; dispute, resolve and chargeback reuse the id of
/// the transaction they refer back to.
pub type TransactionId = u32;

/// What a transaction does to an account.
#[derive(Clone, Copy, PartialEq, Eq, Structural, Debug)]
pub enum Type {
    /// Add a debit to the available balance.
    Withdrawal(Amount),
    /// Add a credit to the available balance.
    Deposit(Amount),
    /// Move funds of an earlier deposit from available to held.
    Dispute,
    /// Move disputed funds back from held to available.
    Resolve,
    /// Remove disputed funds from held and freeze the account.
    Chargeback,
}

/// One transaction record: its kind (with the amount it carries, already
/// normalized to four fractional digits), the client it addresses and its id.
#[derive(Clone, Copy, PartialEq, Eq, Structural, Debug)]
pub struct Transaction {
    pub tx_type: Type,
    pub client_id: ClientId,
    pub tx_id: TransactionId,
}

impl Transaction {
    /// Bundles a transaction. Amounts are normalized where they are made,
    /// by [`Amount::new`], so every constructed transaction already carries
    /// four fractional digits.
    pub fn new(tx_type: Type, client_id: ClientId, tx_id: TransactionId) -> (r: Transaction)
        ensures
            r == (Transaction { tx_type, client_id, tx_id }),
    {
        Transaction { tx_type, client_id, tx_id }
    }
}

} // verus!
