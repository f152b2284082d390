use substrate_api_client::api::ApiClientError;
use substrate_api_client::rpc::{
    checked_extrinsic_progress, checked_parse_status, extrinsic_progress, parse_status,
    parse_status_update, status_numeric, status_reached, subscription_ended, ExtrinsicProgress,
    XtStatus,
};

fn extract_extrinsic_error_msg(err: ApiClientError) -> String {
    match err {
        ApiClientError::Extrinsic(msg) => msg,
        _ => panic!("Expected extrinsic error"),
    }
}

#[test]
fn extrinsic_status_parsed_correctly() {
    let msg = "{\"jsonrpc\":\"2.0\",\"result\":7185,\"id\":\"3\"}";
    assert_eq!(parse_status(msg).unwrap(), (XtStatus::Unknown, None));

    let msg = "{\"jsonrpc\":\"2.0\",\"method\":\"author_extrinsicUpdate\",\"params\":{\"result\":\"ready\",\"subscription\":7185}}";
    assert_eq!(parse_status(msg).unwrap(), (XtStatus::Ready, None));

    let msg = "{\"jsonrpc\":\"2.0\",\"method\":\"author_extrinsicUpdate\",\"params\":{\"result\":{\"broadcast\":[\"QmfSF4VYWNqNf5KYHpDEdY8Rt1nPUgSkMweDkYzhSWirGY\",\"Qmchhx9SRFeNvqjUK4ZVQ9jH4zhARFkutf9KhbbAmZWBLx\",\"QmQJAqr98EF1X3YfjVKNwQUG9RryqX4Hv33RqGChbz3Ncg\"]},\"subscription\":232}}";
    assert_eq!(
        parse_status(msg).unwrap(),
        (
            XtStatus::Broadcast,
            Some(
                "[\"QmfSF4VYWNqNf5KYHpDEdY8Rt1nPUgSkMweDkYzhSWirGY\",\"Qmchhx9SRFeNvqjUK4ZVQ9jH4zhARFkutf9KhbbAmZWBLx\",\"QmQJAqr98EF1X3YfjVKNwQUG9RryqX4Hv33RqGChbz3Ncg\"]"
                    .to_string()
            )
        )
    );

    let msg = "{\"jsonrpc\":\"2.0\",\"method\":\"author_extrinsicUpdate\",\"params\":{\"result\":{\"inBlock\":\"0x3104d362365ff5ddb61845e1de441b56c6722e94c1aee362f8aa8ba75bd7a3aa\"},\"subscription\":232}}";
    assert_eq!(
        parse_status(msg).unwrap(),
        (
            XtStatus::InBlock,
            Some(
                "\"0x3104d362365ff5ddb61845e1de441b56c6722e94c1aee362f8aa8ba75bd7a3aa\""
                    .to_string()
            )
        )
    );

    let msg = "{\"jsonrpc\":\"2.0\",\"method\":\"author_extrinsicUpdate\",\"params\":{\"result\":{\"finalized\":\"0x934385b11c483498e2b5bca64c2e8ef76ad6c74d3372a05595d3a50caf758d52\"},\"subscription\":7185}}";
    assert_eq!(
        parse_status(msg).unwrap(),
        (
            XtStatus::Finalized,
            Some(
                "\"0x934385b11c483498e2b5bca64c2e8ef76ad6c74d3372a05595d3a50caf758d52\""
                    .to_string()
            )
        )
    );

    let msg = "{\"jsonrpc\":\"2.0\",\"method\":\"author_extrinsicUpdate\",\"params\":{\"result\":\"future\",\"subscription\":2}}";
    assert_eq!(parse_status(msg).unwrap(), (XtStatus::Future, None));

    let msg = "{\"jsonrpc\":\"2.0\",\"error\":{\"code\":-32700,\"message\":\"Parse error\"},\"id\":null}";
    assert_eq!(
        parse_status(msg)
            .map_err(extract_extrinsic_error_msg)
            .unwrap_err(),
        "extrinsic error code -32700: Parse error: ".to_string()
    );

    let msg = "{\"jsonrpc\":\"2.0\",\"error\":{\"code\":1010,\"message\":\"Invalid Transaction\",\"data\":\"Bad Signature\"},\"id\":\"4\"}";
    assert_eq!(
        parse_status(msg)
            .map_err(extract_extrinsic_error_msg)
            .unwrap_err(),
        "extrinsic error code 1010: Invalid Transaction: Bad Signature".to_string()
    );

    let msg = "{\"jsonrpc\":\"2.0\",\"error\":{\"code\":1001,\"message\":\"Extrinsic has invalid format.\"},\"id\":\"0\"}";
    assert_eq!(
        parse_status(msg)
            .map_err(extract_extrinsic_error_msg)
            .unwrap_err(),
        "extrinsic error code 1001: Extrinsic has invalid format.: ".to_string()
    );

    let msg = r#"{"jsonrpc":"2.0","error":{"code":1002,"message":"Verification Error: Execution(Wasmi(Trap(Trap { kind: Unreachable })))","data":"RuntimeApi(\"Execution(Wasmi(Trap(Trap { kind: Unreachable })))\")"},"id":"3"}"#;
    assert_eq!(
        parse_status(msg)
            .map_err(extract_extrinsic_error_msg)
            .unwrap_err(),
        "extrinsic error code 1002: Verification Error: Execution(Wasmi(Trap(Trap { kind: Unreachable }))): RuntimeApi(\"Execution(Wasmi(Trap(Trap { kind: Unreachable })))\")".to_string()
    );
}

#[test]
fn error_without_code_reports_minus_one() {
    let msg = r#"{"error":{"message":"boom","data":"why"}}"#;
    assert_eq!(
        parse_status(msg).map_err(extract_extrinsic_error_msg).unwrap_err(),
        "extrinsic error code -1: boom: why"
    );
    let msg = r#"{"error":{}}"#;
    assert_eq!(
        parse_status(msg).map_err(extract_extrinsic_error_msg).unwrap_err(),
        "extrinsic error code -1: : "
    );
}

#[test]
fn invalid_transaction_is_an_error() {
    let msg = r#"{"params":{"result":"invalid"}}"#;
    assert_eq!(
        parse_status(msg).map_err(extract_extrinsic_error_msg).unwrap_err(),
        "Transaction is invalid or lifetime expired"
    );
}

#[test]
fn unknown_status_strings_and_objects() {
    assert_eq!(
        parse_status(r#"{"params":{"result":"dropped"}}"#).unwrap(),
        (XtStatus::Unknown, None)
    );
    assert_eq!(
        parse_status(r#"{"params":{"result":{"retracted":"0x00"}}}"#).unwrap(),
        (XtStatus::Unknown, None)
    );
}

#[test]
fn malformed_json_is_a_deserializing_error() {
    assert!(matches!(
        parse_status("{not json"),
        Err(ApiClientError::Deserializing(_))
    ));
}

#[test]
fn ill_typed_error_fields_are_refused() {
    assert!(checked_parse_status(r#"{"error":{"message":7}}"#).is_none());
    assert!(checked_parse_status(r#"{"error":{"code":"x"}}"#).is_none());
    assert!(checked_parse_status(r#"{"error":{"data":[1]}}"#).is_none());
    let ok = checked_parse_status(r#"{"params":{"result":"ready"}}"#).unwrap();
    assert_eq!(ok.unwrap(), (XtStatus::Ready, None));
}

#[test]
fn updates_are_read_at_their_top_level() {
    assert_eq!(parse_status_update(r#""ready""#).unwrap(), (XtStatus::Ready, None));
    assert_eq!(
        parse_status_update(r#"{"inBlock":"0x01"}"#).unwrap(),
        (XtStatus::InBlock, Some("\"0x01\"".to_string()))
    );
}

#[test]
fn status_rank_and_reach() {
    assert_eq!(status_numeric(&XtStatus::Finalized), 3);
    assert_eq!(status_numeric(&XtStatus::InBlock), 2);
    assert_eq!(status_numeric(&XtStatus::Broadcast), 1);
    assert_eq!(status_numeric(&XtStatus::Ready), 0);
    assert_eq!(status_numeric(&XtStatus::Future), -1);
    assert_eq!(status_numeric(&XtStatus::Error), -1);
    assert_eq!(status_numeric(&XtStatus::Unknown), -1);
    assert!(status_reached(&XtStatus::Finalized, &XtStatus::InBlock));
    assert!(status_reached(&XtStatus::InBlock, &XtStatus::InBlock));
    assert!(!status_reached(&XtStatus::Ready, &XtStatus::InBlock));
    assert!(status_reached(&XtStatus::Unknown, &XtStatus::Future));
}

#[test]
fn reach_is_a_total_preorder() {
    let all = [
        XtStatus::Unknown,
        XtStatus::Ready,
        XtStatus::Broadcast,
        XtStatus::InBlock,
        XtStatus::Finalized,
        XtStatus::Future,
        XtStatus::Error,
    ];
    for a in all.iter() {
        assert!(status_reached(a, a));
        assert!(status_reached(&XtStatus::Finalized, a));
        for b in all.iter() {
            assert!(status_reached(a, b) || status_reached(b, a));
            for c in all.iter() {
                if status_reached(a, b) && status_reached(b, c) {
                    assert!(status_reached(a, c));
                }
            }
        }
    }
}

#[test]
fn waiting_for_an_extrinsic() {
    let hash = "0x934385b11c483498e2b5bca64c2e8ef76ad6c74d3372a05595d3a50caf758d52";
    let update = format!("{{\"finalized\":\"{}\"}}", hash);
    match extrinsic_progress(&update, &XtStatus::InBlock).unwrap() {
        ExtrinsicProgress::Done(Some(h)) => {
            assert_eq!(h, hex::decode(&hash[2..]).unwrap());
        }
        other => panic!("unexpected {:?}", other),
    }
    assert_eq!(
        extrinsic_progress(r#""ready""#, &XtStatus::InBlock).unwrap(),
        ExtrinsicProgress::Pending
    );
    assert_eq!(
        extrinsic_progress(r#""future""#, &XtStatus::Finalized).unwrap(),
        ExtrinsicProgress::Done(None)
    );
    assert_eq!(
        extrinsic_progress(r#""ready""#, &XtStatus::Ready).unwrap(),
        ExtrinsicProgress::Done(None)
    );
    assert!(matches!(
        extrinsic_progress(r#"{"inBlock":"0x0102"}"#, &XtStatus::Broadcast),
        Err(ApiClientError::InvalidHexString(_))
    ));
    assert!(checked_extrinsic_progress(r#"{"error":{"code":1.5}}"#, &XtStatus::Ready).is_none());
}

#[test]
fn subscription_end_names_the_awaited_status() {
    match subscription_ended(&XtStatus::InBlock) {
        ApiClientError::Extrinsic(m) => {
            assert_eq!(m, "Subscription ended before reaching desired status InBlock")
        }
        other => panic!("unexpected {:?}", other),
    }
}
