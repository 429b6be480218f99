use txledger::client::Client;
use txledger::store::Store;
use txledger::transaction::{Transaction, TransactionKind};

fn run(transactions: Vec<Transaction>) -> Store {
    let mut store = Store::new();
    for mut t in transactions {
        t.exec(&mut store);
    }
    store
}

#[test]
fn sample_usage() {
    let test_transactions = vec![
        // Initialise clients with base currency
        Transaction::new(TransactionKind::Deposit, 1, 1, 1000000),
        Transaction::new(TransactionKind::Deposit, 2, 2, 2000000),
        Transaction::new(TransactionKind::Deposit, 3, 3, 3000000),
        Transaction::new(TransactionKind::Deposit, 4, 4, 4000000),
        // Client 1

        // withdraw an amount
        Transaction::new(TransactionKind::Withdrawal, 1, 5, 100000),
        // Try to withdraw too much
        Transaction::new(TransactionKind::Withdrawal, 1, 6, 100000000),
        // Client 2

        // Deposit an amount
        Transaction::new(TransactionKind::Deposit, 2, 7, 2000000),
        // Dispute just added funds
        Transaction::new(TransactionKind::Dispute, 2, 7, 2000000),
        // Dispute a transaction that doesn't exist
        Transaction::new(TransactionKind::Dispute, 2, 70000, 2000000),
        // Client 3

        // Deposit an amount
        Transaction::new(TransactionKind::Deposit, 3, 8, 2000000),
        // Dispute just added funds
        Transaction::new(TransactionKind::Dispute, 3, 8, 2000000),
        // Resolve the dispute
        Transaction::new(TransactionKind::Resolve, 3, 8, 0),
        // Client 4

        // Deposit an amount
        Transaction::new(TransactionKind::Deposit, 4, 9, 2000000),
        // Dispute just added funds
        Transaction::new(TransactionKind::Dispute, 4, 9, 2000000),
        // Charge back the amount from dispute
        Transaction::new(TransactionKind::Chargeback, 4, 9, 0),
        // Try to deposit more
        Transaction::new(TransactionKind::Deposit, 4, 10, 2000000),
    ];

    // Process all the transactions
    let mut store = run(test_transactions);

    // What our accounts should look like
    let expected_client_1 = Client::new(1, 900000, 0, false);
    let expected_client_2 = Client::new(2, 2000000, 2000000, false);
    let expected_client_3 = Client::new(3, 5000000, 0, false);
    let expected_client_4 = Client::new(4, 4000000, 0, true);

    // Test if the transaction engine changed our accounts in the way we expected
    assert_eq!(expected_client_1, store.get_or_create_client(1));
    assert_eq!(expected_client_2, store.get_or_create_client(2));
    assert_eq!(expected_client_3, store.get_or_create_client(3));
    assert_eq!(expected_client_4, store.get_or_create_client(4));
}

#[test]
fn dispute_then_chargeback_locks_account() {
    // Deposit 100 and 50, dispute the 100, charge it back, then try to
    // deposit again: the locked account must reject the late deposit.
    let mut store = Store::new();
    Transaction::new(TransactionKind::Deposit, 1, 1, 1000000).exec(&mut store);
    Transaction::new(TransactionKind::Deposit, 1, 2, 500000).exec(&mut store);
    Transaction::new(TransactionKind::Dispute, 1, 1, 0).exec(&mut store);

    let after_dispute = store.get_or_create_client(1);
    assert_eq!(after_dispute.available(), 500000);
    assert_eq!(after_dispute.held(), 1000000);
    assert_eq!(after_dispute.total(), 1500000);

    Transaction::new(TransactionKind::Chargeback, 1, 1, 0).exec(&mut store);

    let after_chargeback = store.get_or_create_client(1);
    assert_eq!(after_chargeback.available(), 500000);
    assert_eq!(after_chargeback.held(), 0);
    assert_eq!(after_chargeback.total(), 500000);
    assert_eq!(after_chargeback.locked(), true);

    Transaction::new(TransactionKind::Deposit, 1, 3, 9990000).exec(&mut store);

    let after_late_deposit = store.get_or_create_client(1);
    assert_eq!(after_late_deposit.available(), 500000);
    assert_eq!(after_late_deposit.locked(), true);
}

#[test]
fn insufficient_withdrawal_is_recorded_as_failed() {
    // Deposit 100, then try to withdraw 10000: the balance must be
    // untouched and the withdrawal persisted with a failure outcome.
    let mut store = Store::new();
    Transaction::new(TransactionKind::Deposit, 1, 1, 1000000).exec(&mut store);
    Transaction::new(TransactionKind::Withdrawal, 1, 2, 100000000).exec(&mut store);

    let client = store.get_or_create_client(1);
    assert_eq!(client.available(), 1000000);

    let recorded = store.get_transaction(2).unwrap();
    assert_eq!(recorded.kind, TransactionKind::Withdrawal);
    assert_eq!(recorded.success, false);
}

#[test]
fn other_clients_are_unaffected() {
    // A full lifecycle against client 2 never touches client 1's state.
    let mut store = Store::new();
    Transaction::new(TransactionKind::Deposit, 1, 1, 777000).exec(&mut store);
    let before = store.get_or_create_client(1);

    Transaction::new(TransactionKind::Deposit, 2, 2, 1000000).exec(&mut store);
    Transaction::new(TransactionKind::Withdrawal, 2, 3, 200000).exec(&mut store);
    Transaction::new(TransactionKind::Dispute, 2, 2, 0).exec(&mut store);
    Transaction::new(TransactionKind::Resolve, 2, 2, 0).exec(&mut store);
    Transaction::new(TransactionKind::Dispute, 2, 2, 0).exec(&mut store);
    Transaction::new(TransactionKind::Chargeback, 2, 2, 0).exec(&mut store);

    let after = store.get_or_create_client(1);
    assert_eq!(before, after);
}

#[test]
fn unknown_reference_is_inert() {
    // Dispute, resolve and chargeback referencing a transaction id never
    // seen leave the account state bit for bit unchanged.
    let mut store = Store::new();
    Transaction::new(TransactionKind::Deposit, 1, 1, 1000000).exec(&mut store);
    let before = store.get_or_create_client(1);

    Transaction::new(TransactionKind::Dispute, 1, 999, 0).exec(&mut store);
    Transaction::new(TransactionKind::Resolve, 1, 999, 0).exec(&mut store);
    Transaction::new(TransactionKind::Chargeback, 1, 999, 0).exec(&mut store);

    let after = store.get_or_create_client(1);
    assert_eq!(before, after);
}

#[test]
fn dispute_round_trip_restores_balances() {
    // A dispute followed by its resolve restores available and held to
    // their values just after the disputed deposit.
    let mut store = Store::new();
    Transaction::new(TransactionKind::Deposit, 1, 1, 1234500).exec(&mut store);
    let before = store.get_or_create_client(1);

    Transaction::new(TransactionKind::Dispute, 1, 1, 0).exec(&mut store);
    Transaction::new(TransactionKind::Resolve, 1, 1, 0).exec(&mut store);

    let after = store.get_or_create_client(1);
    assert_eq!(before.available(), after.available());
    assert_eq!(before.held(), after.held());
}

#[test]
fn over_dispute_is_ignored() {
    // Disputing a deposit whose amount the available balance no longer
    // covers is silently ignored.
    let mut store = Store::new();
    Transaction::new(TransactionKind::Deposit, 1, 1, 1000000).exec(&mut store);
    Transaction::new(TransactionKind::Withdrawal, 1, 2, 600000).exec(&mut store);
    Transaction::new(TransactionKind::Dispute, 1, 1, 0).exec(&mut store);

    let client = store.get_or_create_client(1);
    assert_eq!(client.available(), 400000);
    assert_eq!(client.held(), 0);
}

#[test]
fn over_resolve_and_over_chargeback_are_ignored() {
    // A resolve or chargeback whose amount exceeds the held balance is
    // silently ignored.
    let mut store = Store::new();
    Transaction::new(TransactionKind::Deposit, 1, 1, 500000).exec(&mut store);
    Transaction::new(TransactionKind::Deposit, 1, 2, 2000000).exec(&mut store);
    Transaction::new(TransactionKind::Dispute, 1, 1, 0).exec(&mut store);

    // Held is 50; transaction 2 carries 200, more than is held.
    Transaction::new(TransactionKind::Resolve, 1, 2, 0).exec(&mut store);
    Transaction::new(TransactionKind::Chargeback, 1, 2, 0).exec(&mut store);

    let client = store.get_or_create_client(1);
    assert_eq!(client.available(), 2000000);
    assert_eq!(client.held(), 500000);
    assert_eq!(client.locked(), false);
}

#[test]
fn balance_conservation_over_deposits_and_withdrawals() {
    // Total equals successful deposits minus successful withdrawals.
    let mut store = Store::new();
    Transaction::new(TransactionKind::Deposit, 1, 1, 1000000).exec(&mut store);
    Transaction::new(TransactionKind::Deposit, 1, 2, 250000).exec(&mut store);
    Transaction::new(TransactionKind::Withdrawal, 1, 3, 300000).exec(&mut store);
    Transaction::new(TransactionKind::Withdrawal, 1, 4, 99999999).exec(&mut store);
    Transaction::new(TransactionKind::Deposit, 1, 5, 10000).exec(&mut store);

    let client = store.get_or_create_client(1);
    assert_eq!(client.total(), 1000000 + 250000 - 300000 + 10000);
}
