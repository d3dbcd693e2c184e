use freeos_swap::{read_swap_response, SwapResponse, SwapRow};

fn rows_of(body: &str) -> Vec<(Option<String>, Option<String>, Option<String>, Option<u64>)> {
    match read_swap_response(body) {
        SwapResponse::Rows(rows) => rows
            .into_iter()
            .map(|r: SwapRow| (r.proton_account, r.ic_principal, r.amount, r.utc_time))
            .collect(),
        other => panic!("expected rows, got {:?}", other),
    }
}

#[test]
fn response_rows_are_read_in_order() {
    let body = r#"{"rows":[
        {"proton_account":"alice","ic_principal":"2vxsx-fae","amount":"12.5000 FREEOS","utc_time":1730065600},
        {"proton_account":"bob","ic_principal":"aaaaa-aa","amount":"0.0001 FREEOS","utc_time":1730065700}
    ],"more":false}"#;
    assert_eq!(
        rows_of(body),
        vec![
            (
                Some("alice".to_string()),
                Some("2vxsx-fae".to_string()),
                Some("12.5000 FREEOS".to_string()),
                Some(1730065600)
            ),
            (
                Some("bob".to_string()),
                Some("aaaaa-aa".to_string()),
                Some("0.0001 FREEOS".to_string()),
                Some(1730065700)
            ),
        ]
    );
}

#[test]
fn response_fields_of_other_types_read_as_absent() {
    let body = r#"{"rows":[{"proton_account":7,"amount":12.5,"utc_time":"soon"},{}]}"#;
    assert_eq!(rows_of(body), vec![(None, None, None, None), (None, None, None, None)]);
}

#[test]
fn response_negative_time_reads_as_absent() {
    let body = r#"{"rows":[{"utc_time":-5}]}"#;
    assert_eq!(rows_of(body), vec![(None, None, None, None)]);
}

#[test]
fn response_without_rows() {
    assert!(matches!(read_swap_response(r#"{"more":false}"#), SwapResponse::MissingRows));
    assert!(matches!(read_swap_response(r#"{"rows":{}}"#), SwapResponse::MissingRows));
    assert!(matches!(read_swap_response(r#"[1,2]"#), SwapResponse::MissingRows));
}

#[test]
fn response_not_json() {
    match read_swap_response("<html>busy</html>") {
        SwapResponse::Unparsable { error } => assert_eq!(error, "expected value at line 1 column 1"),
        other => panic!("expected a parse failure, got {:?}", other),
    }
    match read_swap_response("") {
        SwapResponse::Unparsable { error } => {
            assert_eq!(error, "EOF while parsing a value at line 1 column 0")
        }
        other => panic!("expected a parse failure, got {:?}", other),
    }
}

#[test]
fn response_empty_rows() {
    assert!(rows_of(r#"{"rows":[]}"#).is_empty());
}

#[test]
fn response_rows_nested_in_other_values_are_not_read() {
    assert!(matches!(read_swap_response(r#"{"data":{"rows":[{}]}}"#), SwapResponse::MissingRows));
    assert!(matches!(read_swap_response(r#"{"row":[{}]}"#), SwapResponse::MissingRows));
    assert!(matches!(read_swap_response(r#""rows""#), SwapResponse::MissingRows));
}

#[test]
fn response_big_and_fractional_times_read_as_absent() {
    let body = r#"{"rows":[{"utc_time":18446744073709551616},{"utc_time":1.5},{"utc_time":18446744073709551615}]}"#;
    let times: Vec<Option<u64>> = match read_swap_response(body) {
        SwapResponse::Rows(rows) => rows.into_iter().map(|r| r.utc_time).collect(),
        other => panic!("expected rows, got {:?}", other),
    };
    assert_eq!(times, vec![None, None, Some(u64::MAX)]);
}
