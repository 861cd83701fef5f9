use strikes::handlers::{
    get_strikes_reply, health_reply, put_strike_reply, put_strike_route, ul_from_strikes,
};
use strikes::strikes_db::StrikeEntity;

#[test]
fn a_missing_user_parameter_is_rejected() {
    let reply = put_strike_route(None).unwrap();

    assert_eq!(reply.status, 400);
    assert_eq!(reply.body, "Missing user parameter");
}

#[test]
fn an_invalid_username_is_rejected() {
    let empty = put_strike_route(Some("")).unwrap();
    assert_eq!(empty.status, 400);
    assert_eq!(empty.body, "Invalid username");

    let long = put_strike_route(Some("guentherguentherguenther")).unwrap();
    assert_eq!(long.status, 400);
    assert_eq!(long.body, "Invalid username");
}

#[test]
fn a_well_formed_strike_request_goes_through() {
    assert!(put_strike_route(Some("guenther")).is_none());
}

#[test]
fn a_stored_strike_is_reported_as_json() {
    let reply = put_strike_reply("guenther", 3);

    assert_eq!(reply.status, 200);
    assert_eq!(reply.body, "{\"name\":\"guenther\",\"strike_count\":3}");
}

#[test]
fn the_standings_are_reported_as_a_json_array() {
    let strikes = vec![
        StrikeEntity { user_id: "guenther".to_string(), strikes: 2 },
        StrikeEntity { user_id: "heinz".to_string(), strikes: 12 },
    ];

    let reply = get_strikes_reply("application/json", strikes);

    assert_eq!(reply.status, 200);
    assert_eq!(
        reply.body,
        "[{\"name\":\"guenther\",\"strike_count\":2},{\"name\":\"heinz\",\"strike_count\":12}]"
    );
}

#[test]
fn an_html_caller_gets_the_ranked_list() {
    let strikes = vec![
        StrikeEntity { user_id: "guenther".to_string(), strikes: 2 },
        StrikeEntity { user_id: "heinz".to_string(), strikes: 3 },
    ];

    let reply = get_strikes_reply("text/html", strikes);

    assert_eq!(reply.status, 200);
    assert_eq!(
        reply.body,
        "<ul hx-swap-oob=\"innerHTML:#content\"><li>heinz: 3</li><li>guenther: 2</li></ul>"
    );
}

#[test]
fn ul_from_strikes_writes_one_item_per_row() {
    let strikes = vec![
        StrikeEntity { user_id: "heinz".to_string(), strikes: 3 },
        StrikeEntity { user_id: "guenther".to_string(), strikes: 1 },
    ];

    let ul = ul_from_strikes(strikes);

    assert_eq!(
        ul,
        "<ul hx-swap-oob=\"innerHTML:#content\"><li>heinz: 3</li><li>guenther: 1</li></ul>"
    );
}

#[test]
fn an_empty_standing_is_an_empty_list() {
    let ul = ul_from_strikes(vec![]);

    assert_eq!(ul, "<ul hx-swap-oob=\"innerHTML:#content\"></ul>");
}

#[test]
fn the_health_endpoint_answers_ok() {
    let reply = health_reply();

    assert_eq!(reply.status, 200);
    assert_eq!(reply.body, "OK");
}
