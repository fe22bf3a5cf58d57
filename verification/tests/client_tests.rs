use payments_engine::amount::Amount;
use payments_engine::client::Client;
use payments_engine::errors::TransactionError;
use payments_engine::transaction::TransactionType;

fn dec(num: i64, scale: u32) -> Amount {
    Amount::new(num, scale)
}

fn client() -> Client {
    Client::new(1)
}

// --- DEPOSIT TESTS ---
#[test]
fn test_deposit_success() {
    for amount in [dec(10_000, 4), dec(100_000, 4), dec(1_005_00, 4), dec(100, 2)] {
        let mut client = client();
        let result = client.deposit(amount);

        assert!(result.is_ok());
        assert_eq!(client.available(), amount);
        assert_eq!(client.total(), amount);
        assert_eq!(client.held(), Amount::zero());
    }
}

#[test]
fn test_deposit_multiple_times() {
    let mut client = client();
    client.deposit(dec(100_000, 4)).unwrap();
    client.deposit(dec(50_000, 4)).unwrap();
    client.deposit(dec(25_000, 4)).unwrap();

    assert_eq!(client.available(), dec(175_000, 4));
    assert_eq!(client.total(), dec(175_000, 4));
}

// --- WITHDRAWAL TESTS ---
#[test]
fn test_withdrawal_success() {
    let cases = [
        ((100_000, 4), (50_000, 4), (50_000, 4)),
        ((1_000_000, 4), (500_000, 4), (500_000, 4)),
        ((100_000, 4), (100_000, 4), (0, 4)),
        ((1_005_000, 4), (5_000, 4), (1_000_000, 4)),
    ];
    for (deposit, withdraw, rest) in cases {
        let mut client = client();
        client.deposit(dec(deposit.0, deposit.1)).unwrap();
        let result = client.withdrawal(dec(withdraw.0, withdraw.1));

        assert!(result.is_ok());
        assert_eq!(client.available(), dec(rest.0, rest.1));
        assert_eq!(client.total(), dec(rest.0, rest.1));
    }
}

#[test]
fn test_withdrawal_insufficient_funds_copy() {
    let cases = [
        (dec(100_000, 4), dec(150_000, 4)),
        (dec(50_000, 4), dec(100_000, 4)),
        (dec(10_000, 4), dec(10_100, 4)),
    ];
    for (deposit_amount, withdraw_amount) in cases {
        let mut client = client();
        client.deposit(deposit_amount).unwrap();
        let result = client.withdrawal(withdraw_amount);

        assert!(result.is_err());
        assert_eq!(result.unwrap_err(), TransactionError::NotEnoughFunds);
        assert_eq!(client.available(), deposit_amount);
        assert_eq!(client.total(), deposit_amount);
    }
}

#[test]
fn test_withdrawal_from_empty_account() {
    let mut client = Client::new(1);
    let result = client.withdrawal(dec(50_000, 4));

    assert!(result.is_err());
    assert_eq!(result.unwrap_err(), TransactionError::NotEnoughFunds);
}

// --- DISPUTE TESTS ---
#[test]
fn test_dispute_success() {
    let cases = [
        (dec(2_000_000, 4), dec(500_000, 4), dec(1_500_000, 4)),
        (dec(1_000_000, 4), dec(500_000, 4), dec(500_000, 4)),
        (dec(100_000, 4), dec(100_000, 4), dec(0, 4)),
    ];
    for (deposit_amount, dispute_amount, left) in cases {
        let mut client = client();
        client.deposit(deposit_amount).unwrap();
        let result = client.dispute(dispute_amount);

        assert!(result.is_ok());
        assert_eq!(client.available(), left);
        assert_eq!(client.held(), dispute_amount);
        assert_eq!(client.total(), deposit_amount);
    }
}

#[test]
fn test_dispute_available_goes_negative() {
    let cases = [
        (dec(100_000, 4), dec(1_500_000, 4), dec(-1_400_000, 4)),
        (dec(500_000, 4), dec(1_000_000, 4), dec(-500_000, 4)),
    ];
    for (deposit_amount, dispute_amount, left) in cases {
        let mut client = client();
        client.deposit(deposit_amount).unwrap();
        let result = client.dispute(dispute_amount);

        // A dispute goes through even where the available funds become negative.
        assert!(result.is_ok());
        assert_eq!(client.available(), left);
        assert!(client.available().is_negative());
        assert_eq!(client.held(), dispute_amount);
    }
}

#[test]
fn test_dispute_on_empty_account() {
    let mut client = Client::new(1);
    let result = client.dispute(dec(50_000, 4));

    // A dispute goes through even on an empty account.
    assert!(result.is_ok());
    assert_eq!(client.available(), dec(-50_000, 4));
    assert_eq!(client.held(), dec(50_000, 4));
}

// --- RESOLVE TESTS ---
#[test]
fn test_resolve_success() {
    let cases = [
        (dec(2_000_000, 4), dec(500_000, 4)),
        (dec(1_000_000, 4), dec(500_000, 4)),
        (dec(100_000, 4), dec(100_000, 4)),
    ];
    for (deposit_amount, dispute_amount) in cases {
        let mut client = client();
        client.deposit(deposit_amount).unwrap();
        client.dispute(dispute_amount).unwrap();

        let result = client.resolve(dispute_amount);

        assert!(result.is_ok());
        assert_eq!(client.available(), deposit_amount);
        assert_eq!(client.held(), Amount::zero());
        assert_eq!(client.total(), deposit_amount);
    }
}

#[test]
fn test_resolve_with_multiple_disputes() {
    let mut client = Client::new(1);
    client.deposit(dec(1_000_000, 4)).unwrap();
    client.dispute(dec(200_000, 4)).unwrap();
    client.dispute(dec(300_000, 4)).unwrap();

    client.resolve(dec(200_000, 4)).unwrap();

    assert_eq!(client.available(), dec(700_000, 4)); // 100 - 20 - 30 + 20 = 70
    assert_eq!(client.held(), dec(300_000, 4)); // 20 + 30 - 20 = 30
    assert_eq!(client.total(), dec(1_000_000, 4));
}

// --- CHARGEBACK TESTS ---
#[test]
fn test_chargeback_success() {
    let cases = [
        (dec(2_000_000, 4), dec(500_000, 4), dec(1_500_000, 4)),
        (dec(1_000_000, 4), dec(500_000, 4), dec(500_000, 4)),
        (dec(100_000, 4), dec(100_000, 4), dec(0, 4)),
    ];
    for (deposit_amount, chargeback_amount, left) in cases {
        let mut client = client();
        client.deposit(deposit_amount).unwrap();
        client.dispute(chargeback_amount).unwrap();

        let result = client.chargeback(chargeback_amount);

        assert!(result.is_ok());
        assert_eq!(client.total(), left);
        assert_eq!(client.held(), Amount::zero());
        assert!(client.is_locked());
    }
}

#[test]
fn test_chargeback_insufficient_total() {
    let cases = [
        (dec(100_000, 4), dec(1_500_000, 4)),
        (dec(50_000, 4), dec(1_000_000, 4)),
    ];
    for (deposit_amount, chargeback_amount) in cases {
        let mut client = client();
        client.deposit(deposit_amount).unwrap();

        let result = client.chargeback(chargeback_amount);

        assert!(result.is_err());
        assert_eq!(result.unwrap_err(), TransactionError::NotEnoughFunds);
        assert_eq!(client.total(), deposit_amount);
        assert!(!client.is_locked());
    }
}

#[test]
fn test_chargeback_on_empty_account() {
    let mut client = Client::new(1);
    let result = client.chargeback(dec(50_000, 4));

    assert!(result.is_err());
    assert_eq!(result.unwrap_err(), TransactionError::NotEnoughFunds);
    assert!(!client.is_locked());
}

// --- CLIENT INITIALIZATION ---
#[test]
fn test_new_client_initialization() {
    let client = Client::new(42);

    assert_eq!(client.client_id(), 42);
    assert_eq!(client.available(), Amount::zero());
    assert_eq!(client.held(), Amount::zero());
    assert_eq!(client.total(), Amount::zero());
    assert!(!client.is_locked());
}

// --- LOCK STATE TESTS ---
#[test]
fn test_account_locks_after_chargeback() {
    let mut client = Client::new(1);
    client.deposit(dec(5_000_000, 4)).unwrap();
    client.dispute(dec(3_000_000, 4)).unwrap();
    client.chargeback(dec(3_000_000, 4)).unwrap();

    assert!(client.is_locked());
}

// --- INTEGRATION TESTS ---
#[test]
fn test_full_transaction_flow() {
    let mut client = Client::new(1);

    client.deposit(dec(1_000_000, 4)).unwrap();
    assert_eq!(client.total(), dec(1_000_000, 4));
    assert_eq!(client.available(), dec(1_000_000, 4));

    client.withdrawal(dec(300_000, 4)).unwrap();
    assert_eq!(client.total(), dec(700_000, 4));
    assert_eq!(client.available(), dec(700_000, 4));

    client.dispute(dec(200_000, 4)).unwrap();
    assert_eq!(client.total(), dec(700_000, 4));
    assert_eq!(client.available(), dec(500_000, 4));
    assert_eq!(client.held(), dec(200_000, 4));

    client.resolve(dec(200_000, 4)).unwrap();
    assert_eq!(client.total(), dec(700_000, 4));
    assert_eq!(client.available(), dec(700_000, 4));
    assert_eq!(client.held(), Amount::zero());
}

// --- TRANSACT DISPATCH AND LAWS ON CONCRETE VALUES ---
#[test]
fn test_transact_dispatches_by_kind() {
    let mut client = Client::new(7);
    assert!(client.transact(&TransactionType::Deposit, dec(30, 0)).is_ok());
    assert!(client.transact(&TransactionType::Withdrawal, dec(100, 1)).is_ok());
    assert_eq!(client.available(), dec(20, 0));
    assert_eq!(
        client.transact(&TransactionType::Withdrawal, dec(21, 0)),
        Err(TransactionError::NotEnoughFunds)
    );
    assert!(client.transact(&TransactionType::Dispute, dec(5, 0)).is_ok());
    assert_eq!(client.held(), dec(5, 0));
    assert!(client.transact(&TransactionType::Resolve, dec(5, 0)).is_ok());
    assert_eq!(client.held(), Amount::zero());
    assert!(client.transact(&TransactionType::Chargeback, dec(20, 0)).is_ok());
    assert!(client.is_locked());
    assert_eq!(client.total(), Amount::zero());
}

#[test]
fn test_balance_kept_by_every_operation() {
    let mut client = Client::new(3);
    let steps = [
        (TransactionType::Deposit, dec(12_345, 3)),
        (TransactionType::Dispute, dec(5, 1)),
        (TransactionType::Withdrawal, dec(2, 0)),
        (TransactionType::Resolve, dec(25, 2)),
        (TransactionType::Dispute, dec(1, 4)),
        (TransactionType::Chargeback, dec(1, 4)),
    ];
    for (kind, amount) in steps {
        assert!(client.can_transact(&kind, amount));
        let _ = client.transact(&kind, amount);
        let sum = {
            let mut c = Client::new(0);
            c.deposit(client.available()).unwrap();
            c.deposit(client.held()).unwrap();
            c.available()
        };
        assert_eq!(client.total(), sum);
    }
}

#[test]
fn test_resolve_undoes_dispute_at_other_scale() {
    let mut client = Client::new(1);
    client.deposit(dec(15, 1)).unwrap();
    client.dispute(dec(125, 3)).unwrap();
    client.resolve(dec(125, 3)).unwrap();
    assert_eq!(client.available(), dec(1_500, 3));
    assert_eq!(client.held(), Amount::zero());
    assert_eq!(client.total(), dec(15, 1));
}

#[test]
fn test_failed_withdrawal_leaves_account() {
    let mut client = Client::new(1);
    client.deposit(dec(1, 0)).unwrap();
    client.dispute(dec(1, 0)).unwrap();
    // the total covers the amount, the available funds do not
    assert_eq!(client.withdrawal(dec(1, 0)), Err(TransactionError::NotEnoughFunds));
    assert_eq!(client.available(), Amount::zero());
    assert_eq!(client.held(), dec(1, 0));
    assert_eq!(client.total(), dec(1, 0));
    assert!(!client.is_locked());
}

// --- ROUNDING BAND ---
#[test]
fn test_rounded_deposit_goes_through() {
    let mut client = Client::new(1);
    client.deposit(dec(10, 0)).unwrap();
    // 10 + 10^-28 does not fit exactly: rust_decimal rounds it, and so does the account
    let tiny = Amount::from_parts(1, 28).unwrap();
    assert!(client.can_transact(&TransactionType::Deposit, tiny));
    assert_eq!(client.transact(&TransactionType::Deposit, tiny), Ok(()));
    assert_eq!(client.available(), dec(10, 0));
    assert_eq!(client.total(), dec(10, 0));
}

#[test]
fn test_rounding_can_lose_the_balance() {
    let mut client = Client::new(1);
    let just_over_one = Amount::from_parts(10_000_000_000_000_000_000_000_000_001, 28).unwrap();
    client.deposit(just_over_one).unwrap();
    client.dispute(Amount::from_parts(1, 28).unwrap()).unwrap();
    assert_eq!(client.available(), dec(1, 0));
    client.deposit(dec(7, 0)).unwrap();
    // both sums are rounded to 8, while 10^-28 stays held
    assert_eq!(client.available(), dec(8, 0));
    assert_eq!(client.total(), dec(8, 0));
    assert_eq!(client.held(), Amount::from_parts(1, 28).unwrap());
}

#[test]
fn test_overflow_refused_by_check() {
    let client = {
        let mut c = Client::new(1);
        c.deposit(Amount::from_parts(79228162514264337593543950335, 0).unwrap()).unwrap();
        c
    };
    assert!(!client.can_transact(&TransactionType::Deposit, dec(1, 0)));
    assert!(client.can_transact(&TransactionType::Withdrawal, dec(1, 0)));
    // a withdrawal larger than what is available needs no arithmetic
    let empty = Client::new(2);
    assert!(empty.can_transact(&TransactionType::Withdrawal, dec(5, 0)));
}
