use txledger::client::Client;
use txledger::text::amount_text;

#[test]
fn create_default_client() {
    let test_id = 1;
    let default_client = Client { id: test_id, available: 0, held: 0, locked: false };
    assert_eq!(default_client, Client::default(test_id));
}

#[test]
fn create_custom_client() {
    let test_id = 1;

    let test_client = Client { id: test_id, available: 534543654, held: 543324534543, locked: false };

    let custom_client = Client::new(test_id, 534543654, 543324534543, false);

    assert_eq!(test_client, custom_client);
}

#[test]
fn client_deposit() {
    let mut test_client = Client::new(1, 0, 0, false);

    test_client.deposit(1252563);
    assert_eq!(amount_text(test_client.available), "125.2563");

    test_client.deposit(1252563);
    assert_eq!(amount_text(test_client.available), "250.5126");
}

#[test]
fn client_withdraw() {
    let mut test_client = Client::new(1, 0, 0, false);

    test_client.deposit(1252563);
    test_client.deposit(1252563);
    test_client.withdraw(1000000);

    assert_eq!(amount_text(test_client.available), "150.5126");
}

#[test]
fn client_dispute() {
    let mut test_client = Client::new(1, 0, 0, false);

    test_client.deposit(2252563);
    test_client.dispute(1000000);

    assert_eq!(amount_text(test_client.available), "125.2563");
    assert_eq!(amount_text(test_client.held), "100");
}

#[test]
fn client_resolve() {
    let mut test_client = Client::new(1, 0, 0, false);

    test_client.deposit(1252563);
    test_client.dispute(1000000);
    test_client.resolve(500000);

    assert_eq!(amount_text(test_client.available), "75.2563");
    assert_eq!(amount_text(test_client.held), "50");
}

#[test]
fn client_chargeback() {
    let mut test_client = Client::new(1, 0, 0, false);

    test_client.deposit(1252563);
    test_client.dispute(1000000);
    test_client.chargeback(500000);

    assert_eq!(amount_text(test_client.available), "25.2563");
    assert_eq!(amount_text(test_client.held), "50");
}

#[test]
fn properties() {
    let mut test_client = Client::new(1, 0, 0, false);

    test_client.deposit(1252563);
    test_client.dispute(1000000);
    test_client.chargeback(500000);

    assert_eq!(amount_text(test_client.available()), "25.2563");
    assert_eq!(amount_text(test_client.held()), "50");
    assert_eq!(amount_text(test_client.total()), "75.2563");
    assert_eq!(test_client.id().to_string(), "1");
}
