use strikes::errors::ErrorKind;
use strikes::strikes_db::{
    entities_from_rows, extract_strike_count, increment_step, insert_step, keys_to_delete,
    sort_strikes_desc, IncrementStep, StrikeEntity, UpdateOutcome,
};

fn no_such_row() -> UpdateOutcome {
    UpdateOutcome::Failed {
        code: Some("ValidationException".to_string()),
        message: "The provided expression refers to an attribute that does not exist".to_string(),
    }
}

#[test]
fn strikes_db_it_should_add_some_strikes() {
    // the first increment of a fresh name falls back to the insert step
    let first = match increment_step(no_such_row()) {
        IncrementStep::InsertNew => insert_step(None).unwrap(),
        _ => panic!("the first increment must take the insert step"),
    };
    let second = match increment_step(UpdateOutcome::Updated("2".to_string())) {
        IncrementStep::Done(c) => c,
        _ => panic!("an updated row ends the increment"),
    };
    let strikes = match increment_step(UpdateOutcome::Updated("3".to_string())) {
        IncrementStep::Done(c) => c,
        _ => panic!("an updated row ends the increment"),
    };

    assert_eq!(first, 1);
    assert_eq!(second, 2);
    assert_eq!(strikes, 3);
}

#[test]
fn put_strikes_it_should_add_some_strikes() {
    let first = match increment_step(no_such_row()) {
        IncrementStep::InsertNew => insert_step(None).unwrap(),
        _ => panic!("the first increment must take the insert step"),
    };
    assert_eq!(first, 1);

    match increment_step(UpdateOutcome::Updated("2".to_string())) {
        IncrementStep::Done(c) => assert_eq!(c, 2),
        _ => panic!("an updated row ends the increment"),
    }
    match increment_step(UpdateOutcome::Updated("3".to_string())) {
        IncrementStep::Done(c) => assert_eq!(c, 3),
        _ => panic!("an updated row ends the increment"),
    }
}

#[test]
fn it_should_get_a_list_of_strikes() {
    let rows = vec![
        ("heinz".to_string(), "3".to_string()),
        ("guenther".to_string(), "1".to_string()),
    ];

    let strikes = entities_from_rows(rows).unwrap();

    assert_eq!(
        strikes,
        vec![
            StrikeEntity { user_id: "heinz".to_string(), strikes: 3 },
            StrikeEntity { user_id: "guenther".to_string(), strikes: 1 }
        ]
    );
}

#[test]
fn it_should_delete_all_items() {
    let strikes = vec![
        StrikeEntity { user_id: "heinz".to_string(), strikes: 3 },
        StrikeEntity { user_id: "guenther".to_string(), strikes: 1 },
    ];

    let keys = keys_to_delete(&strikes);
    assert_eq!(keys, vec!["heinz".to_string(), "guenther".to_string()]);

    // with every row deleted, the next scan is empty
    let remaining = entities_from_rows(vec![]).unwrap();
    assert!(remaining.is_empty());
}

#[test]
fn any_other_failure_is_surfaced_unchanged() {
    let outcome = UpdateOutcome::Failed {
        code: Some("ProvisionedThroughputExceededException".to_string()),
        message: "throughput exceeded".to_string(),
    };

    match increment_step(outcome) {
        IncrementStep::Fail(e) => {
            assert_eq!(e.kind, ErrorKind::Transport);
            assert_eq!(e.message(), "throughput exceeded");
        },
        _ => panic!("an unknown failure must be surfaced"),
    }
}

#[test]
fn a_failed_insert_is_surfaced_unchanged() {
    let err = insert_step(Some("the table is gone".to_string())).unwrap_err();

    assert_eq!(err.kind, ErrorKind::Transport);
    assert_eq!(err.message(), "the table is gone");
}

#[test]
fn a_count_that_does_not_parse_is_a_serialization_error() {
    match increment_step(UpdateOutcome::Updated("many".to_string())) {
        IncrementStep::Fail(e) => assert_eq!(e.kind, ErrorKind::Serialization),
        _ => panic!("a bad count must fail"),
    }
    match increment_step(UpdateOutcome::Updated("300".to_string())) {
        IncrementStep::Fail(e) => assert_eq!(e.kind, ErrorKind::Serialization),
        _ => panic!("an overflowing count must fail"),
    }
}

#[test]
fn a_row_with_a_bad_count_fails_the_whole_scan() {
    let rows = vec![
        ("heinz".to_string(), "3".to_string()),
        ("guenther".to_string(), "yes".to_string()),
    ];

    let err = entities_from_rows(rows).unwrap_err();

    assert_eq!(err.kind, ErrorKind::Serialization);
}

#[test]
fn counts_are_read_from_their_decimal_writing() {
    assert_eq!(extract_strike_count("0"), 0);
    assert_eq!(extract_strike_count("007"), 7);
    assert_eq!(extract_strike_count("255"), 255);
}

#[test]
fn rows_with_equal_counts_keep_their_input_order() {
    let rows = vec![
        StrikeEntity { user_id: "guenther".to_string(), strikes: 1 },
        StrikeEntity { user_id: "heinz".to_string(), strikes: 3 },
        StrikeEntity { user_id: "hans".to_string(), strikes: 1 },
    ];

    let ranked = sort_strikes_desc(&rows);

    assert_eq!(
        ranked,
        vec![
            StrikeEntity { user_id: "heinz".to_string(), strikes: 3 },
            StrikeEntity { user_id: "guenther".to_string(), strikes: 1 },
            StrikeEntity { user_id: "hans".to_string(), strikes: 1 }
        ]
    );
}

#[test]
fn rows_are_ranked_by_count_descending() {
    let rows = vec![
        StrikeEntity { user_id: "guenther".to_string(), strikes: 2 },
        StrikeEntity { user_id: "heinz".to_string(), strikes: 1 },
        StrikeEntity { user_id: "hans".to_string(), strikes: 3 },
    ];

    let ranked = sort_strikes_desc(&rows);

    assert_eq!(
        ranked,
        vec![
            StrikeEntity { user_id: "hans".to_string(), strikes: 3 },
            StrikeEntity { user_id: "guenther".to_string(), strikes: 2 },
            StrikeEntity { user_id: "heinz".to_string(), strikes: 1 }
        ]
    );
}
