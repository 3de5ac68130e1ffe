use transaction_engine::amount::Amount;
use transaction_engine::transaction::{Transaction, Type};

/// The amount `mantissa * 10^-scale`, written like a decimal literal.
fn amt(mantissa: i128, scale: u32) -> Amount {
    Amount::new(mantissa, scale)
}

#[test]
// Decimal precision is 4 places. We should be unable to have more precise amounts.
fn test_transaction_decimal_precision() {
    for (raw_amount, want_amount) in vec![
        (amt(10, 1), amt(10, 1)),
        (amt(999999, 6), amt(10, 1)),
        (amt(10000001, 7), amt(10, 1)),
        (amt(12345, 4), amt(12345, 4)),
        (amt(123459, 5), amt(12346, 4)),
    ] {
        let tx = Transaction::new(Type::Withdrawal(raw_amount), 1, 1);
        assert_eq!(Type::Withdrawal(want_amount), tx.tx_type);
    }
}

#[test]
// Decimal precision is 4 places. The parsed amounts should reflect that.
fn test_transaction_record_into_transaction_decimal_places() {
    // Deposits and withdrawals whose raw amounts carry more than four
    // fractional digits are stored rounded half away from zero.
    for (raw_mantissa, raw_scale, want_units) in vec![
        (123456, 5, 12346),     // 1.23456 -> 1.2346
        (200005, 5, 20001),     // 2.00005 -> 2.0001
        (-123455, 5, -12346),   // -1.23455 -> -1.2346
        (999999, 6, 10000),     // 0.999999 -> 1.0000
        (15, 1, 15000),         // 1.5 -> 1.5000
    ] {
        let deposit = Transaction::new(Type::Deposit(amt(raw_mantissa, raw_scale)), 1, 1);
        assert_eq!(Type::Deposit(Amount::from_units(want_units)), deposit.tx_type);

        let withdrawal = Transaction::new(Type::Withdrawal(amt(raw_mantissa, raw_scale)), 1, 2);
        assert_eq!(
            Type::Withdrawal(Amount::from_units(want_units)),
            withdrawal.tx_type
        );
    }
}

#[test]
fn test_transaction_new_keeps_fields() {
    let tx = Transaction::new(Type::Dispute, 33, 333);
    assert_eq!(Type::Dispute, tx.tx_type);
    assert_eq!(33, tx.client_id);
    assert_eq!(333, tx.tx_id);
}
