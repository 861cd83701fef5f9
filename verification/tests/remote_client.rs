use strikes::errors::ErrorKind;
use strikes::remote_client::{RemoteClient, StrikesResponse};
use strikes::tarnished::Tarnished;

#[test]
fn remote_client_it_should_add_a_strike() {
    let body = StrikesResponse { name: "guenther".to_string(), strike_count: 3 };

    let strike_count = RemoteClient::put_strike_outcome(200, Some(body)).unwrap();

    assert_eq!(3, strike_count);
}

#[test]
fn it_should_fetch_all_strikes() {
    let body = vec![
        StrikesResponse { name: "guenther".to_string(), strike_count: 2 },
        StrikesResponse { name: "heinz".to_string(), strike_count: 3 },
    ];

    let strikes = RemoteClient::get_strikes_outcome(200, Some(body)).unwrap();

    assert_eq!(
        vec![
            Tarnished { name: "guenther".to_string(), strikes: 2 },
            Tarnished { name: "heinz".to_string(), strikes: 3 }
        ],
        strikes
    );
}

#[test]
fn an_error_status_is_a_transport_error() {
    let err = RemoteClient::put_strike_outcome(404, None).unwrap_err();

    assert_eq!(err.kind, ErrorKind::Transport);
    assert_eq!(err.message(), "unexpected response status 404");
}

#[test]
fn an_unparseable_strike_response_is_a_serialization_error() {
    let err = RemoteClient::put_strike_outcome(200, None).unwrap_err();

    assert_eq!(err.kind, ErrorKind::Serialization);
}

#[test]
fn an_unparseable_listing_is_a_serialization_error() {
    let err = RemoteClient::get_strikes_outcome(200, None).unwrap_err();

    assert_eq!(err.kind, ErrorKind::Serialization);
}

#[test]
fn health_is_fine_exactly_on_a_200_answer() {
    assert!(RemoteClient::health_outcome(200).is_ok());

    let err = RemoteClient::health_outcome(503).unwrap_err();
    assert_eq!(err.kind, ErrorKind::Transport);
    assert_eq!(err.message(), "unexpected response status 503");
}

#[test]
fn the_client_builds_its_urls() {
    let client =
        RemoteClient { api_key: "abc".to_string(), base_url: "https://example.com".to_string() };

    assert_eq!(client.health_url(), "https://example.com/health");
    assert_eq!(client.strikes_url(), "https://example.com/strikes");
    assert_eq!(client.strike_url("guenther"), "https://example.com/strikes/guenther");
}

#[test]
fn clearing_succeeds_exactly_on_a_200_answer() {
    assert!(RemoteClient::clear_outcome(200).is_ok());

    let err = RemoteClient::clear_outcome(500).unwrap_err();
    assert_eq!(err.kind, ErrorKind::Transport);
    assert_eq!(err.message(), "unexpected response status 500");
}
