use payments_engine::amount::Amount;
use payments_engine::bankrecords::BankingRecords;
use payments_engine::transaction::{Transaction, TransactionType};

fn deposit(client: u16, tx: u32, amount: Amount) -> Transaction {
    Transaction { type_: TransactionType::Deposit, client, tx, amount }
}

fn sample_transaction() -> Transaction {
    deposit(1, 1, Amount::new(100, 0))
}

// --- TRANSACTION STORAGE TESTS ---
#[test]
fn test_set_and_get_transaction() {
    let cases = [(1u16, 1u32, Amount::new(100, 0)), (2, 5, Amount::new(2505, 1)), (
        65535,
        4294967295,
        Amount::new(99_999_999, 4),
    )];
    for (client_id, tx_id, amount) in cases {
        let mut records = BankingRecords::new();
        records.set_transaction(deposit(client_id, tx_id, amount));
        let retrieved = records.get_transaction(tx_id);

        assert!(retrieved.is_some());
        assert_eq!(retrieved.unwrap().tx, tx_id);
        assert_eq!(retrieved.unwrap().client, client_id);
        assert_eq!(retrieved.unwrap().amount, amount);
    }
}

#[test]
fn test_get_nonexistent_transaction() {
    let records = BankingRecords::new();
    assert!(records.get_transaction(999).is_none());
}

#[test]
fn test_set_transaction_overwrites() {
    let mut records = BankingRecords::new();
    records.set_transaction(sample_transaction());
    let first = records.get_transaction(1).unwrap().amount;

    records.set_transaction(Transaction {
        type_: TransactionType::Withdrawal,
        client: 1,
        tx: 1,
        amount: Amount::new(50, 0),
    });
    let second = records.get_transaction(1).unwrap().amount;

    assert_eq!(first, Amount::new(100, 0));
    assert_eq!(second, Amount::new(50, 0));
}

// --- DISPUTE STATE TESTS ---
#[test]
fn test_dispute_marks_transaction() {
    let mut records = BankingRecords::new();
    records.set_transaction(sample_transaction());

    assert!(!records.is_disputed(1));
    records.dispute(1);
    assert!(records.is_disputed(1));
}

#[test]
fn test_records_dispute_nonexistent_transaction() {
    let mut records = BankingRecords::new();
    records.dispute(999);
    assert!(!records.is_disputed(999));
}

#[test]
fn test_dispute_already_resolved() {
    let mut records = BankingRecords::new();
    records.set_transaction(sample_transaction());

    records.dispute(1);
    records.resolve(1);

    // a settled transaction is not disputed again
    records.dispute(1);
    assert!(!records.is_disputed(1));
    assert!(records.is_resolved(1));
}

#[test]
fn test_dispute_multiple_transactions() {
    for tx_id in [1u32, 100, 4294967295] {
        let mut records = BankingRecords::new();
        records.set_transaction(deposit(1, tx_id, Amount::new(100, 0)));
        records.set_transaction(deposit(1, tx_id.wrapping_add(1), Amount::new(50, 0)));

        records.dispute(tx_id);
        records.dispute(tx_id.wrapping_add(1));

        assert!(records.is_disputed(tx_id));
        assert!(records.is_disputed(tx_id.wrapping_add(1)));
    }
}

// --- RESOLVE STATE TESTS ---
#[test]
fn test_resolve_removes_from_disputed() {
    let mut records = BankingRecords::new();
    records.set_transaction(sample_transaction());
    records.dispute(1);

    assert!(records.is_disputed(1));
    records.resolve(1);
    assert!(!records.is_disputed(1));
    assert!(records.is_resolved(1));
}

#[test]
fn test_resolve_nonexistent_transaction() {
    let mut records = BankingRecords::new();
    records.resolve(999);
    assert!(!records.is_resolved(999));
    assert!(!records.is_disputed(999));
}

#[test]
fn test_records_resolve_non_disputed_transaction() {
    let mut records = BankingRecords::new();
    records.set_transaction(sample_transaction());

    records.resolve(1);
    assert!(!records.is_resolved(1));
    assert!(!records.is_disputed(1));
}

#[test]
fn test_is_resolved_without_dispute() {
    let records = BankingRecords::new();
    assert!(!records.is_resolved(1));
}

// --- CLIENT MANAGEMENT TESTS ---
#[test]
fn test_get_client_creates_new() {
    for client_id in [1u16, 100, 65535] {
        let mut records = BankingRecords::new();
        let client = records.get_client(client_id);

        assert_eq!(client.client_id(), client_id);
        assert_eq!(client.available(), Amount::zero());
        assert_eq!(client.held(), Amount::zero());
        assert_eq!(client.total(), Amount::zero());
        assert!(!client.is_locked());
    }
}

#[test]
fn test_get_client_returns_same_account() {
    let mut records = BankingRecords::new();
    {
        let mut client = *records.get_client(1);
        let _ = client.transact(&TransactionType::Deposit, Amount::new(100, 0));
        records.set_client(client);
    }
    let client = records.get_client(1);
    assert_eq!(client.available(), Amount::new(100, 0));
}

#[test]
fn test_records_multiple_clients() {
    let mut records = BankingRecords::new();
    for (id, amount) in [(1u16, 100i64), (2, 50), (3, 75)] {
        let mut client = *records.get_client(id);
        let _ = client.transact(&TransactionType::Deposit, Amount::new(amount, 0));
        records.set_client(client);
    }
    assert_eq!(records.get_client(1).available(), Amount::new(100, 0));
    assert_eq!(records.get_client(2).available(), Amount::new(50, 0));
    assert_eq!(records.get_client(3).available(), Amount::new(75, 0));
    assert!(records.client(4).is_none());
}

// --- CSV OUTPUT TESTS ---
#[test]
fn test_clients_to_csv_empty() {
    let records = BankingRecords::new();
    assert_eq!(records.clients_to_csv().unwrap(), "");
}

#[test]
fn test_clients_to_csv_header() {
    let mut records = BankingRecords::new();
    let _ = records.get_client(1);
    let csv = records.clients_to_csv().unwrap();
    assert!(csv.contains("client"));
    assert!(csv.contains("available"));
    assert!(csv.contains("held"));
    assert!(csv.contains("total"));
    assert!(csv.contains("locked"));
    assert_eq!(csv, "client,available,held,total,locked\n1,0,0,0,false\n");
}

#[test]
fn test_clients_to_csv_single_client() {
    let mut records = BankingRecords::new();
    let mut client = *records.get_client(1);
    let _ = client.transact(&TransactionType::Deposit, Amount::new(100, 0));
    records.set_client(client);

    let csv = records.clients_to_csv().unwrap();
    assert!(csv.contains("1,100"));
}

#[test]
fn test_clients_to_csv_multiple_clients_in_id_order() {
    let mut records = BankingRecords::new();
    {
        let mut c2 = *records.get_client(2);
        let _ = c2.transact(&TransactionType::Deposit, Amount::new(500_000, 4));
        let _ = c2.transact(&TransactionType::Withdrawal, Amount::new(200_000, 4));
        records.set_client(c2);
    }
    {
        let mut c1 = *records.get_client(1);
        let _ = c1.transact(&TransactionType::Deposit, Amount::new(100, 0));
        records.set_client(c1);
    }

    let csv = records.clients_to_csv().unwrap();
    assert!(csv.contains("1,100"));
    assert!(csv.contains("2,30"));
    assert_eq!(
        csv,
        "client,available,held,total,locked\n1,100,0,100,false\n2,30.0000,0,30.0000,false\n"
    );
}

// --- INTEGRATION TESTS ---
#[test]
fn test_full_dispute_lifecycle() {
    let mut records = BankingRecords::new();
    records.set_transaction(sample_transaction());
    assert!(!records.is_disputed(1));
    assert!(!records.is_resolved(1));

    records.dispute(1);
    assert!(records.is_disputed(1));
    assert!(!records.is_resolved(1));

    records.resolve(1);
    assert!(!records.is_disputed(1));
    assert!(records.is_resolved(1));
}

#[test]
fn test_cannot_dispute_after_resolve() {
    let mut records = BankingRecords::new();
    records.set_transaction(sample_transaction());
    records.dispute(1);
    records.resolve(1);

    records.dispute(1);
    assert!(!records.is_disputed(1));
}
