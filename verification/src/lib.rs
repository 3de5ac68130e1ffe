//! A small transaction engine: client accounts absorb deposits, withdrawals,
//! disputes, resolves and chargebacks, and report their final balances.
//!
//! Amounts are exact fixed-point decimals with four fractional digits.
//! Every state transition of an account is specified and proved against a
//! functional model, so funds can neither leak nor be applied twice.

pub mod account;
pub mod amount;
pub mod balance;
pub mod laws;
pub mod process;
pub mod transaction;
