use transaction_engine::account::{Account, TransactionError};
use transaction_engine::amount::Amount;
use transaction_engine::process::process;
use transaction_engine::transaction::{ClientId, Transaction, Type};

/// The amount `mantissa * 10^-scale`, written like a decimal literal.
fn amt(mantissa: i128, scale: u32) -> Amount {
    Amount::new(mantissa, scale)
}

fn account_of(accounts: &[(ClientId, Account)], client: ClientId) -> &Account {
    &accounts
        .iter()
        .find(|(c, _)| *c == client)
        .expect("client should have an account")
        .1
}

#[test]
fn test_process_two_clients() {
    let transactions = vec![
        Transaction::new(Type::Deposit(amt(10, 1)), 1, 1),
        Transaction::new(Type::Deposit(amt(20, 1)), 2, 2),
        Transaction::new(Type::Deposit(amt(20, 1)), 1, 3),
        Transaction::new(Type::Withdrawal(amt(15, 1)), 1, 4),
        Transaction::new(Type::Withdrawal(amt(30, 1)), 2, 5), // fails, insufficient funds
    ];

    let (accounts, errors) = process(transactions);
    assert_eq!(2, accounts.len());

    let one = account_of(&accounts, 1);
    assert_eq!(amt(15, 1), one.available.amount());
    assert_eq!(amt(0, 0), one.held.amount());
    assert_eq!(amt(15, 1), one.total_amount());
    assert_eq!(false, one.frozen);

    let two = account_of(&accounts, 2);
    assert_eq!(amt(20, 1), two.available.amount());
    assert_eq!(amt(0, 0), two.held.amount());
    assert_eq!(amt(20, 1), two.total_amount());
    assert_eq!(false, two.frozen);

    assert_eq!(vec![TransactionError::NotEnoughFunds], errors);
}

#[test]
fn test_process_chargeback_freezes() {
    let transactions = vec![
        Transaction::new(Type::Deposit(amt(5000, 0)), 1, 1),
        Transaction::new(Type::Dispute, 1, 1),
        Transaction::new(Type::Withdrawal(amt(1000, 0)), 1, 2), // fails, available is 0
        Transaction::new(Type::Chargeback, 1, 1),
    ];

    let (accounts, errors) = process(transactions);
    assert_eq!(1, accounts.len());

    let one = account_of(&accounts, 1);
    assert_eq!(amt(0, 0), one.available.amount());
    assert_eq!(amt(0, 0), one.held.amount());
    assert_eq!(amt(0, 0), one.total_amount());
    assert_eq!(true, one.frozen);

    assert_eq!(vec![TransactionError::NotEnoughFunds], errors);
}

#[test]
fn test_process_frozen_account_rejects_everything() {
    let mut transactions = vec![
        Transaction::new(Type::Deposit(amt(50, 1)), 7, 1),
        Transaction::new(Type::Dispute, 7, 1),
        Transaction::new(Type::Chargeback, 7, 1),
    ];
    // After the chargeback, every kind of transaction bounces off.
    transactions.push(Transaction::new(Type::Deposit(amt(10, 1)), 7, 2));
    transactions.push(Transaction::new(Type::Withdrawal(amt(10, 1)), 7, 3));
    transactions.push(Transaction::new(Type::Dispute, 7, 1));
    transactions.push(Transaction::new(Type::Resolve, 7, 1));
    transactions.push(Transaction::new(Type::Chargeback, 7, 1));

    let (accounts, errors) = process(transactions);
    let seven = account_of(&accounts, 7);
    assert_eq!(true, seven.frozen);
    assert_eq!(amt(0, 0), seven.total_amount());
    assert_eq!(
        vec![
            TransactionError::FrozenAccount,
            TransactionError::FrozenAccount,
            TransactionError::FrozenAccount,
            TransactionError::FrozenAccount,
            TransactionError::FrozenAccount,
        ],
        errors
    );
}

#[test]
fn test_process_dispute_resolve_round_trip() {
    let transactions = vec![
        Transaction::new(Type::Deposit(amt(80, 1)), 3, 1),
        Transaction::new(Type::Deposit(amt(15, 1)), 3, 2),
        Transaction::new(Type::Dispute, 3, 1),
        Transaction::new(Type::Resolve, 3, 1),
    ];

    let (accounts, errors) = process(transactions);
    let three = account_of(&accounts, 3);
    // Exactly the balances right after the two deposits.
    assert_eq!(amt(95, 1), three.available.amount());
    assert_eq!(amt(0, 0), three.held.amount());
    assert_eq!(false, three.frozen);
    assert!(errors.is_empty());
}

#[test]
fn test_process_keeps_per_client_order() {
    // The second withdrawal only succeeds because the deposit of the same
    // client was applied before it, in arrival order.
    let transactions = vec![
        Transaction::new(Type::Deposit(amt(10, 1)), 1, 1),
        Transaction::new(Type::Withdrawal(amt(10, 1)), 1, 2),
        Transaction::new(Type::Deposit(amt(10, 1)), 1, 3),
        Transaction::new(Type::Withdrawal(amt(10, 1)), 1, 4),
    ];

    let (accounts, errors) = process(transactions);
    let one = account_of(&accounts, 1);
    assert_eq!(amt(0, 0), one.available.amount());
    assert!(errors.is_empty());
}

#[test]
fn test_process_empty_input() {
    let (accounts, errors) = process(vec![]);
    assert!(accounts.is_empty());
    assert!(errors.is_empty());
}

#[test]
fn test_amount_normalization() {
    // Raw amount 1.23459 is stored and compared as 1.2346.
    assert_eq!(12346, amt(123459, 5).units());
    assert_eq!(amt(12346, 4), amt(123459, 5));
    // Raw amount 0.999999 is stored as 1.0000.
    assert_eq!(10000, amt(999999, 6).units());
    assert_eq!(amt(10, 1), amt(999999, 6));
}
