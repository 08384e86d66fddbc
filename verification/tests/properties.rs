use ot_validator::{decode_operations, is_valid, validate, Operation, ValidationError};

#[test]
fn empty_ops_same_text_succeeds() {
    assert!(is_valid("hello", "hello", "[]").is_ok());
    assert!(is_valid("", "", "[]").is_ok());
}

#[test]
fn empty_ops_different_text_does_not_match() {
    assert_eq!(
        is_valid("hello", "world", "[]").unwrap_err(),
        ValidationError::DoesNotMatch
    );
    assert_eq!(
        is_valid("hello", "", "[]").unwrap_err(),
        ValidationError::DoesNotMatch
    );
}

#[test]
fn zero_count_ops_change_nothing() {
    let with_noops = r#"[{"op": "skip", "count": 0}, {"op": "skip", "count": 2}, {"op": "delete", "count": 0}, {"op": "delete", "count": 3}]"#;
    let without_noops = r#"[{"op": "skip", "count": 2}, {"op": "delete", "count": 3}]"#;
    assert!(is_valid("hello", "he", with_noops).is_ok());
    assert!(is_valid("hello", "he", without_noops).is_ok());
    assert_eq!(
        is_valid("hello", "ha", with_noops).unwrap_err(),
        ValidationError::DoesNotMatch
    );
    assert_eq!(
        is_valid("hello", "ha", without_noops).unwrap_err(),
        ValidationError::DoesNotMatch
    );
}

#[test]
fn zero_count_on_empty_buffer_is_legal() {
    assert!(is_valid("", "", r#"[{"op": "skip", "count": 0}, {"op": "delete", "count": 0}]"#).is_ok());
}

#[test]
fn skip_boundary_is_inclusive() {
    assert!(is_valid("abcde", "abcde", r#"[{"op": "skip", "count": 5}]"#).is_ok());
    assert_eq!(
        is_valid("abcde", "abcde", r#"[{"op": "skip", "count": 6}]"#).unwrap_err(),
        ValidationError::SkipPastEnd
    );
}

#[test]
fn delete_boundary_is_inclusive() {
    assert!(is_valid("abcde", "", r#"[{"op": "delete", "count": 5}]"#).is_ok());
    assert_eq!(
        is_valid("abcde", "", r#"[{"op": "delete", "count": 6}]"#).unwrap_err(),
        ValidationError::DeletePastEnd
    );
}

#[test]
fn boundary_respects_earlier_mutations() {
    // After deleting two of five chars, only three remain for the skip.
    assert!(is_valid("abcde", "cde", r#"[{"op": "delete", "count": 2}, {"op": "skip", "count": 3}]"#).is_ok());
    assert_eq!(
        is_valid("abcde", "cde", r#"[{"op": "delete", "count": 2}, {"op": "skip", "count": 4}]"#)
            .unwrap_err(),
        ValidationError::SkipPastEnd
    );
}

#[test]
fn insert_at_end_appends() {
    assert!(is_valid("ab", "ab!", r#"[{"op": "skip", "count": 2}, {"op": "insert", "chars": "!"}]"#).is_ok());
}

#[test]
fn insert_into_empty_buffer() {
    assert!(is_valid("", "hi", r#"[{"op": "insert", "chars": "hi"}]"#).is_ok());
}

#[test]
fn insert_moves_cursor_past_inserted_text() {
    // After inserting "xy" at the start, the cursor sits after it, so a
    // delete removes the old text, not the insertion.
    assert!(is_valid("ab", "xy", r#"[{"op": "insert", "chars": "xy"}, {"op": "delete", "count": 2}]"#).is_ok());
}

#[test]
fn unknown_tag_is_parse_error() {
    assert_eq!(
        is_valid("ab", "ab", r#"[{"op": "swap", "count": 1}]"#).unwrap_err(),
        ValidationError::ParseError
    );
}

#[test]
fn missing_field_is_parse_error() {
    assert_eq!(
        is_valid("ab", "ab", r#"[{"op": "skip"}]"#).unwrap_err(),
        ValidationError::ParseError
    );
    assert_eq!(
        is_valid("ab", "ab", r#"[{"op": "insert"}]"#).unwrap_err(),
        ValidationError::ParseError
    );
    assert_eq!(
        is_valid("ab", "ab", r#"[{"count": 1}]"#).unwrap_err(),
        ValidationError::ParseError
    );
}

#[test]
fn mistyped_field_is_parse_error() {
    assert_eq!(
        is_valid("ab", "ab", r#"[{"op": "skip", "count": "1"}]"#).unwrap_err(),
        ValidationError::ParseError
    );
    assert_eq!(
        is_valid("ab", "ab", r#"[{"op": "skip", "count": -1}]"#).unwrap_err(),
        ValidationError::ParseError
    );
    assert_eq!(
        is_valid("ab", "ab", r#"[{"op": "skip", "count": 1.5}]"#).unwrap_err(),
        ValidationError::ParseError
    );
    assert_eq!(
        is_valid("ab", "ab", r#"[{"op": "insert", "chars": 3}]"#).unwrap_err(),
        ValidationError::ParseError
    );
    assert_eq!(
        is_valid("ab", "ab", r#"[{"op": 7, "count": 1}]"#).unwrap_err(),
        ValidationError::ParseError
    );
}

#[test]
fn duplicated_field_takes_the_last_value() {
    // The parsed tree keeps the value of a repeated key that was parsed
    // last, so the skip below has count 0, not 5.
    assert!(is_valid("ab", "ab", r#"[{"op": "skip", "count": 5, "count": 0}]"#).is_ok());
}

#[test]
fn non_array_document_is_parse_error() {
    assert_eq!(
        is_valid("ab", "ab", r#"{"op": "skip", "count": 1}"#).unwrap_err(),
        ValidationError::ParseError
    );
    assert_eq!(
        is_valid("ab", "ab", "17").unwrap_err(),
        ValidationError::ParseError
    );
    assert_eq!(
        is_valid("ab", "ab", "").unwrap_err(),
        ValidationError::ParseError
    );
}

#[test]
fn parse_error_regardless_of_texts() {
    assert_eq!(
        is_valid("", "", "[dd_1]").unwrap_err(),
        ValidationError::ParseError
    );
    assert_eq!(
        is_valid("same", "same", "not json").unwrap_err(),
        ValidationError::ParseError
    );
}

#[test]
fn decode_yields_operations_in_order() {
    let ops = decode_operations(
        r#"[{"op": "skip", "count": 2}, {"op": "delete", "count": 0}, {"op": "insert", "chars": "hi"}]"#,
    )
    .unwrap();
    assert_eq!(
        ops,
        vec![
            Operation::Skip { count: 2 },
            Operation::Delete { count: 0 },
            Operation::Insert { chars: "hi".to_string() },
        ]
    );
}

#[test]
fn decode_empty_array_is_empty() {
    assert_eq!(decode_operations("[]").unwrap(), vec![]);
}

#[test]
fn validate_on_decoded_operations() {
    let ops = vec![
        Operation::Delete { count: 1 },
        Operation::Insert { chars: "J".to_string() },
    ];
    assert!(validate("hello", "Jello", &ops).is_ok());
    assert_eq!(
        validate("hello", "jello", &ops).unwrap_err(),
        ValidationError::DoesNotMatch
    );
}

#[test]
fn counts_are_measured_in_chars() {
    // The stale text is five chars; a skip of 2 passes the accented char
    // as one unit and a delete of 3 removes the rest.
    assert!(is_valid(
        "h\u{e9}llo",
        "h\u{e9}",
        r#"[{"op": "skip", "count": 2}, {"op": "delete", "count": 3}]"#
    )
    .is_ok());
}

#[test]
fn insert_counts_inserted_chars() {
    // The inserted text is two chars long, so the cursor lands after it
    // and a skip of 1 still fits the remaining char.
    assert!(is_valid(
        "c",
        "\u{e9}\u{e8}c",
        r#"[{"op": "insert", "chars": "\u00e9\u00e8"}, {"op": "skip", "count": 1}]"#
    )
    .is_ok());
}
