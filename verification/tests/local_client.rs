use strikes::client::StrikeClient;
use strikes::errors::ErrorKind;
use strikes::ledger::Ledger;
use strikes::local_client::LocalClient;
use strikes::tarnished::Tarnished;

#[test]
fn local_client_it_should_add_some_strikes() {
    let mut client = LocalClient::new("./tests/fixtures/db.json".to_string());

    let _ = client.add_strike("guenther").unwrap();
    let _ = client.add_strike("guenther").unwrap();
    let strikes = client.add_strike("guenther").unwrap();

    assert_eq!(strikes, 3);
}

#[test]
fn it_should_return_strikes_in_descending_order() {
    let mut db = Ledger::new();
    db.increment("guenther");
    db.increment("guenther");
    db.increment("heinz");
    db.increment("hans");
    db.increment("hans");
    db.increment("hans");

    let tarnished = Tarnished::sort_desc_by_strike(Tarnished::from_map(&db));

    assert_eq!(
        tarnished,
        vec![
            Tarnished { name: "hans".to_string(), strikes: 3 },
            Tarnished { name: "guenther".to_string(), strikes: 2 },
            Tarnished { name: "heinz".to_string(), strikes: 1 }
        ]
    );
}

#[test]
fn local_client_it_should_return_strikes_in_descending_order() {
    let mut db = Ledger::new();
    db.increment("guenther");
    db.increment("guenther");
    db.increment("heinz");
    db.increment("hans");
    db.increment("hans");
    db.increment("hans");

    let tarnished = Tarnished::sort_desc_by_strike(Tarnished::as_tarnished(&db));

    assert_eq!(
        tarnished,
        vec![
            Tarnished { name: "hans".to_string(), strikes: 3 },
            Tarnished { name: "guenther".to_string(), strikes: 2 },
            Tarnished { name: "heinz".to_string(), strikes: 1 }
        ]
    );
}

#[test]
fn records_with_equal_counts_keep_their_input_order() {
    let records = vec![
        Tarnished { name: "guenther".to_string(), strikes: 2 },
        Tarnished { name: "heinz".to_string(), strikes: 1 },
        Tarnished { name: "hans".to_string(), strikes: 2 },
        Tarnished { name: "karl".to_string(), strikes: 1 },
    ];

    let ranked = Tarnished::sort_desc_by_strike(records);

    assert_eq!(
        ranked,
        vec![
            Tarnished { name: "guenther".to_string(), strikes: 2 },
            Tarnished { name: "hans".to_string(), strikes: 2 },
            Tarnished { name: "heinz".to_string(), strikes: 1 },
            Tarnished { name: "karl".to_string(), strikes: 1 }
        ]
    );
}

#[test]
fn local_client_it_should_add_a_strike() {
    let mut client = LocalClient::new("./tests/fixtures/db.json".to_string());

    let _ = client.add_strike("guenther").unwrap();
    let strikes = client.get_tarnished().unwrap();

    assert_eq!(strikes, vec![Tarnished { name: "guenther".to_string(), strikes: 1 }]);
}

#[test]
fn local_client_it_should_add_a_strike_to_an_existing_db() {
    let mut client = LocalClient::new("./tests/fixtures/db.json".to_string());

    let _ = client.add_strike("guenther").unwrap();
    let _ = client.add_strike("heinz").unwrap();
    let _ = client.add_strike("guenther").unwrap();

    let strikes = client.get_tarnished().unwrap();

    assert_eq!(
        strikes,
        vec![
            Tarnished { name: "guenther".to_string(), strikes: 2 },
            Tarnished { name: "heinz".to_string(), strikes: 1 }
        ]
    );
}

#[test]
fn local_client_it_should_clear_strikes() {
    let mut client = LocalClient::new("./tests/fixtures/db.json".to_string());

    let _ = client.add_strike("guenther").unwrap();
    let _ = client.add_strike("heinz").unwrap();

    client.clear_strikes().unwrap();

    let strikes = client.get_tarnished().unwrap();

    assert!(strikes.is_empty());
}

#[test]
fn it_should_add_a_strike_for_an_existing_name() {
    let mut client = LocalClient::new("./tests/fixtures/db.json".to_string());

    client.add_strike("guenther").unwrap();
    client.add_strike("heinz").unwrap();

    assert_eq!(client.lookup("guenther"), Some(1));
    assert_eq!(client.lookup("heinz"), Some(1));
    assert_eq!(client.get_tarnished().unwrap().len(), 2);
}

#[test]
fn clearing_an_empty_ledger_succeeds() {
    let mut client = LocalClient::new("db.json".to_string());

    client.clear_strikes().unwrap();

    assert!(client.get_tarnished().unwrap().is_empty());
}

#[test]
fn clearing_a_never_created_ledger_succeeds() {
    let mut client = LocalClient::from_document("db.json".to_string(), None).unwrap();

    client.clear_strikes().unwrap();

    assert!(client.get_tarnished().unwrap().is_empty());
}

#[test]
fn listing_an_absent_document_is_empty() {
    let client = LocalClient::from_document("db.json".to_string(), None).unwrap();

    assert!(client.get_tarnished().unwrap().is_empty());
}

#[test]
fn an_unparseable_document_is_a_serialization_error() {
    let err = LocalClient::from_document("db.json".to_string(), Some("not json")).unwrap_err();

    assert_eq!(err.kind, ErrorKind::Serialization);
}

#[test]
fn a_document_round_trip_keeps_every_record() {
    let mut client = LocalClient::new("db.json".to_string());
    client.add_strike("guenther").unwrap();
    client.add_strike("guenther").unwrap();
    client.add_strike("heinz").unwrap();

    let doc = client.to_document();
    let reread = LocalClient::from_document("db.json".to_string(), Some(doc.as_str())).unwrap();

    assert_eq!(reread.lookup("guenther"), Some(2));
    assert_eq!(reread.lookup("heinz"), Some(1));
    assert_eq!(reread.get_tarnished().unwrap().len(), 2);
}

#[test]
fn a_handwritten_document_is_read() {
    let client =
        LocalClient::from_document("db.json".to_string(), Some("{\"guenther\": 2}")).unwrap();

    assert_eq!(client.lookup("guenther"), Some(2));
    assert_eq!(client.lookup("heinz"), None);
}

#[test]
fn a_strike_command_validates_and_folds_the_name() {
    let mut client = LocalClient::new("db.json".to_string());

    let count = client.strike("GUENTHER").unwrap().unwrap();

    assert_eq!(count, 1);
    assert_eq!(client.lookup("guenther"), Some(1));
    assert_eq!(client.lookup("GUENTHER"), None);
}

#[test]
fn an_empty_name_is_rejected_before_the_ledger_is_touched() {
    let mut client = LocalClient::new("db.json".to_string());

    let err = client.strike("").unwrap().unwrap_err();

    assert_eq!(err.kind, ErrorKind::Validation);
    assert_eq!(err.message(), "Username cannot be empty");
    assert!(client.get_tarnished().unwrap().is_empty());
}

#[test]
fn a_too_long_name_is_rejected_before_the_ledger_is_touched() {
    let mut client = LocalClient::new("db.json".to_string());

    let err = client.strike("guentherguentherguenther").unwrap().unwrap_err();

    assert_eq!(err.kind, ErrorKind::Validation);
    assert_eq!(err.message(), "Username cannot be longer than 20 characters");
    assert!(client.get_tarnished().unwrap().is_empty());
}

#[test]
fn k_increments_count_exactly_k() {
    let mut db = Ledger::new();
    for _ in 0..7 {
        db.increment("guenther");
    }

    assert_eq!(db.lookup("guenther"), Some(7));
    assert_eq!(db.lookup("heinz"), None);
    assert_eq!(db.len(), 1);
}

#[test]
fn local_check_health_is_fine() {
    let client = LocalClient::new("db.json".to_string());

    assert!(client.check_health().is_ok());
}
