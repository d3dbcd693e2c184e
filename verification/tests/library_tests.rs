use freeos_swap::ledger::ledger_canister;
use freeos_swap::{
    amount_text, balance_failure_report, balance_request, check_principal,
    clean_dynamic_content, decimal_text, http_failure_message, mint_report,
    proton_account_to_check, split_piece, swap_table_request, transfer_report, transfer_request,
    unix_seconds_from_nanos, Header, HttpMethod, HttpReply, PrincipalId, TransferOutcome,
    SWAP_REQUEST_CYCLES,
};

const ANONYMOUS: &str = "2vxsx-fae";
const MANAGEMENT: &str = "aaaaa-aa";
const LEDGER: &str = "mxzaz-hqaaa-aaaar-qaada-cai";

fn principal(text: &str) -> PrincipalId {
    check_principal(text).expect("valid principal")
}

#[test]
fn proton_account_nonempty_is_accepted() {
    let r = proton_account_to_check("alice");
    assert_eq!(r.ok, Some("alice".to_string()));
    assert_eq!(r.err, None);
}

#[test]
fn proton_account_empty_is_rejected() {
    let r = proton_account_to_check("");
    assert_eq!(r.ok, None);
    assert_eq!(r.err, Some("Invalid Proton account".to_string()));
}

#[test]
fn proton_account_single_space_is_accepted() {
    let r = proton_account_to_check(" ");
    assert_eq!(r.ok, Some(" ".to_string()));
    assert!(r.err.is_none());
}

#[test]
fn principal_management_canister_has_no_bytes() {
    let p = principal(MANAGEMENT);
    assert_eq!(p.as_bytes(), &[] as &[u8]);
    assert_eq!(p.to_text(), MANAGEMENT);
}

#[test]
fn principal_anonymous_bytes() {
    let p = principal(ANONYMOUS);
    assert_eq!(p.as_bytes(), &[4u8]);
    assert_eq!(p.to_text(), ANONYMOUS);
}

#[test]
fn principal_rejects_bad_text() {
    let err = check_principal("not a principal").unwrap_err();
    assert_eq!(err.message, "Text must be in valid Base32 encoding.");
    assert!(check_principal("").is_err());
    assert!(check_principal("2vxsx-fa").is_err());
}

#[test]
fn principal_from_bytes_limits_length() {
    assert!(PrincipalId::from_bytes(vec![0u8; 29]).is_some());
    assert!(PrincipalId::from_bytes(vec![0u8; 30]).is_none());
    let p = PrincipalId::from_bytes(vec![4u8]).unwrap();
    assert_eq!(p.to_text(), ANONYMOUS);
    assert_eq!(p.duplicate().as_bytes(), &[4u8]);
}

#[test]
fn ledger_canister_decodes() {
    let p = ledger_canister().expect("ledger id decodes");
    assert_eq!(p.to_text(), LEDGER);
    assert_eq!(p.as_bytes().len(), 10);
}

#[test]
fn split_piece_matches_std_split() {
    let url = "https://api-xprnetwork-test.saltant.io/v1/chain/get_table_rows";
    for k in 0..8usize {
        assert_eq!(split_piece(url, '/', k), url.split('/').nth(k).map(|s| s.to_string()));
    }
    assert_eq!(split_piece("", '/', 0), Some(String::new()));
    assert_eq!(split_piece("", '/', 1), None);
    assert_eq!(split_piece("a//b", '/', 1), Some(String::new()));
    assert_eq!(split_piece("é/ü/ß", '/', 2), Some("ß".to_string()));
}

#[test]
fn amount_text_takes_number_before_space() {
    assert_eq!(amount_text("12.5000 FREEOS"), Some("12.5000".to_string()));
    assert_eq!(amount_text("1 2 3"), Some("1".to_string()));
    assert_eq!(amount_text(" FREEOS"), Some(String::new()));
    assert_eq!(amount_text("12.5000"), None);
    assert_eq!(amount_text(""), None);
}

#[test]
fn decimal_text_renders_like_format() {
    for n in [0u64, 1, 9, 10, 99, 100, 120, 1_000_000_007, u64::MAX] {
        assert_eq!(decimal_text(n), format!("{}", n));
    }
}

#[test]
fn unix_seconds_truncate() {
    assert_eq!(unix_seconds_from_nanos(0), 0);
    assert_eq!(unix_seconds_from_nanos(999_999_999), 0);
    assert_eq!(unix_seconds_from_nanos(3_500_000_000), 3);
    assert_eq!(unix_seconds_from_nanos(1_730_065_553_123_456_789), 1_730_065_553);
    assert_eq!(unix_seconds_from_nanos(u64::MAX), 18_446_744_073);
}

#[test]
fn unix_seconds_monotone_on_samples() {
    let samples = [0u64, 1, 999_999_999, 1_000_000_000, 1_999_999_999, 5_000_000_001, u64::MAX];
    for a in samples {
        for b in samples {
            if a <= b {
                assert!(unix_seconds_from_nanos(a) <= unix_seconds_from_nanos(b));
            }
        }
    }
}

#[test]
fn swap_request_is_the_swaps_table_post() {
    let r = swap_table_request();
    assert_eq!(r.url, "https://api-xprnetwork-test.saltant.io/v1/chain/get_table_rows");
    assert_eq!(r.method, HttpMethod::Post);
    let body = String::from_utf8(r.body.clone().unwrap()).unwrap();
    assert_eq!(
        body,
        r#"{"json":true,"code":"freeosgov2","lower_bound":1730065553,"upper_bound":1730065936,"table":"swaps","scope":"freeosgov2","limit":100}"#
    );
    assert_eq!(r.max_response_bytes, None);
    let headers: Vec<(String, String)> =
        r.headers.iter().map(|h| (h.name.clone(), h.value.clone())).collect();
    assert_eq!(
        headers,
        vec![
            ("Host".to_string(), "api-xprnetwork-test.saltant.io".to_string()),
            ("User-Agent".to_string(), "IC-Agent".to_string()),
            ("Content-Type".to_string(), "application/json".to_string()),
        ]
    );
    assert_eq!(r.transform_method, "clean_dynamic_content");
    assert!(r.transform_context.is_empty());
    assert_eq!(r.cycles, 21_850_258_000);
    assert_eq!(SWAP_REQUEST_CYCLES, 21_850_258_000);
}

#[test]
fn clean_dynamic_content_drops_headers_only() {
    let reply = HttpReply {
        status: candid::Nat::from(200u64),
        headers: vec![
            Header { name: "date".to_string(), value: "today".to_string() },
            Header { name: "x-id".to_string(), value: "7".to_string() },
        ],
        body: b"{\"rows\":[]}".to_vec(),
    };
    let cleaned = clean_dynamic_content(reply);
    assert!(cleaned.headers.is_empty());
    assert_eq!(cleaned.status, candid::Nat::from(200u64));
    assert_eq!(cleaned.body, b"{\"rows\":[]}".to_vec());
    let again = clean_dynamic_content(cleaned);
    assert!(again.headers.is_empty());
    assert_eq!(again.body, b"{\"rows\":[]}".to_vec());
}

#[test]
fn http_failure_message_text() {
    assert_eq!(
        http_failure_message("SysTransient", "timeout"),
        "The http_request resulted into error. RejectionCode: SysTransient, Error: timeout"
    );
}

#[test]
fn balance_and_transfer_requests_target_default_account() {
    let p = principal(ANONYMOUS);
    let acct = balance_request(&p);
    assert_eq!(acct.owner.as_bytes(), &[4u8]);
    assert!(acct.subaccount.is_none());
    let arg = transfer_request(&p, 125_000);
    assert_eq!(arg.to.owner.as_bytes(), &[4u8]);
    assert!(arg.to.subaccount.is_none());
    assert!(arg.from_subaccount.is_none());
    assert!(arg.fee.is_none());
    assert!(arg.created_at_time.is_none());
    assert!(arg.memo.is_none());
    assert_eq!(arg.amount, 125_000u128);
}

#[test]
fn mint_report_text() {
    let p = principal(ANONYMOUS);
    assert_eq!(mint_report(&p, 42), ("Balance of 2vxsx-fae is now: 42".to_string(), 42));
}

#[test]
fn transfer_report_completed() {
    let p = principal(ANONYMOUS);
    let o = TransferOutcome::Completed { block_index: "17".to_string() };
    assert_eq!(
        transfer_report(&p, &o, 3000),
        (
            "Transfer successful for 2vxsx-fae with block index: 17, New balance is now: 3000"
                .to_string(),
            3000
        )
    );
}

#[test]
fn transfer_report_rejected() {
    let p = principal(MANAGEMENT);
    let o = TransferOutcome::Rejected { error: "TooOld".to_string() };
    assert_eq!(
        transfer_report(&p, &o, 0),
        ("Transfer failed with error: TooOld, balance of aaaaa-aa remains at: 0".to_string(), 0)
    );
}

#[test]
fn transfer_report_call_failed() {
    let p = principal(ANONYMOUS);
    let o = TransferOutcome::CallFailed { error: "(CanisterError, \"trap\")".to_string() };
    assert_eq!(
        transfer_report(&p, &o, 9),
        (
            "Inter-canister call failed: (CanisterError, \"trap\"), balance of 2vxsx-fae remains at: 9"
                .to_string(),
            9
        )
    );
}

#[test]
fn balance_failure_report_is_zero() {
    assert_eq!(
        balance_failure_report("(SysFatal, \"x\")"),
        ("Balance query failed: (SysFatal, \"x\")".to_string(), 0)
    );
}

#[test]
fn principal_text_round_trips() {
    for text in [MANAGEMENT, ANONYMOUS, LEDGER] {
        let p = principal(text);
        let again = check_principal(&p.to_text()).expect("printed text decodes");
        assert_eq!(again.as_bytes(), p.as_bytes());
    }
    for bytes in [vec![], vec![0u8; 29], vec![1, 2, 3, 4, 5, 6, 7, 8, 9, 10, 11]] {
        let p = PrincipalId::from_bytes(bytes.clone()).unwrap();
        let again = check_principal(&p.to_text()).expect("printed text decodes");
        assert_eq!(again.as_bytes(), bytes.as_slice());
    }
}
