use codex_api::error::{parse_azure_error, ApiError};
use codex_api::retry::TransportError;
use http::{HeaderMap, HeaderValue};

#[test]
fn detects_previous_response_chain_error_from_param() {
    let body = r#"{"error":{"type":"invalid_request_error","param":"previous_response_id","message":"Item with id resp-1 not found."}}"#;
    let result = ApiError::from_bad_request_body(body).expect("chain error");
    let ApiError::PreviousResponseChainBroken { message } = result else {
        panic!("expected PreviousResponseChainBroken");
    };
    assert_eq!(message, "Item with id resp-1 not found.");
}

#[test]
fn ignores_non_chain_bad_request_errors() {
    let body = r#"{"error":{"type":"invalid_request_error","param":"max_output_tokens","message":"Invalid value."}}"#;
    assert!(ApiError::from_bad_request_body(body).is_none());
}

#[test]
fn detects_duplicate_item_error() {
    let body = r#"{"error":{"message":"Duplicate item found with id rs_0c7d29236204b9c4006969d4c31de48190927f45b58f0b179a. Remove duplicate items from your input and try again.","type":"invalid_request_error","param":"input","code":null}}"#;
    let result = ApiError::from_bad_request_body(body).expect("chain error");
    let ApiError::PreviousResponseChainBroken { message } = result else {
        panic!("expected PreviousResponseChainBroken");
    };
    assert!(message.contains("Duplicate item found"));
}

#[test]
fn detects_missing_tool_output_error() {
    let body = r#"{"error":{"message":"No tool output found for custom tool call call_fkAS1VFErJlgn1HWNhgd4VPH.","type":"invalid_request_error","param":"input","code":null}}"#;
    let result = ApiError::from_bad_request_body(body).expect("chain error");
    let ApiError::PreviousResponseChainBroken { message } = result else {
        panic!("expected PreviousResponseChainBroken");
    };
    assert!(message.contains("No tool output found"));
}

#[test]
fn detects_function_call_output_missing_error() {
    let body = r#"{"error":{"message":"Function call output is missing for call id call-ABC123.","type":"invalid_request_error","param":"input","code":null}}"#;
    let result = ApiError::from_bad_request_body(body).expect("chain error");
    let ApiError::PreviousResponseChainBroken { message } = result else {
        panic!("expected PreviousResponseChainBroken");
    };
    assert!(message.contains("output is missing"));
}

#[test]
fn chain_break_classification_keeps_message() {
    let body = r#"{"error":{"type":"invalid_request_error","param":"input","message":"No tool output found for custom tool call call_X."}}"#;
    match ApiError::from_bad_request_body(body) {
        Some(ApiError::PreviousResponseChainBroken { message }) => {
            assert_eq!(message, "No tool output found for custom tool call call_X.")
        }
        other => panic!("unexpected {other:?}"),
    }
}

#[test]
fn chain_break_rules_and_type_errors() {
    let previous = r#"{"error":{"type":"invalid_request_error","message":"Previous response NOT FOUND"}}"#;
    assert!(ApiError::from_bad_request_body(previous).is_some());
    let input_param = r#"{"error":{"type":"invalid_request_error","param":"input[3]","message":"item not found"}}"#;
    assert!(ApiError::from_bad_request_body(input_param).is_some());
    let other_type = r#"{"error":{"type":"server_error","param":"previous_response_id"}}"#;
    assert!(ApiError::from_bad_request_body(other_type).is_none());
    let bad_field = r#"{"error":{"type":"invalid_request_error","param":"previous_response_id","message":5}}"#;
    assert!(ApiError::from_bad_request_body(bad_field).is_none());
    let no_message = r#"{"error":{"type":"invalid_request_error","param":"previous_response_id"}}"#;
    match ApiError::from_bad_request_body(no_message) {
        Some(ApiError::PreviousResponseChainBroken { message }) => assert_eq!(message, ""),
        other => panic!("unexpected {other:?}"),
    }
    assert!(ApiError::from_bad_request_body("not json").is_none());
    assert!(ApiError::from_bad_request_body(r#"{"error":null}"#).is_none());
}

#[test]
fn transport_errors_are_lifted() {
    let body = r#"{"error":{"type":"invalid_request_error","param":"previous_response_id","message":"gone"}}"#;
    let err = TransportError::Http {
        status: 400,
        url: None,
        headers: None,
        body: Some(body.to_string()),
    };
    assert!(matches!(
        ApiError::from_transport(err),
        ApiError::PreviousResponseChainBroken { .. }
    ));
    let err = TransportError::Http { status: 500, url: None, headers: None, body: Some(body.to_string()) };
    assert!(matches!(
        ApiError::from_transport(err),
        ApiError::Transport(TransportError::Http { status: 500, .. })
    ));
    assert!(matches!(
        ApiError::from_transport(TransportError::Timeout),
        ApiError::Transport(TransportError::Timeout)
    ));
}

#[test]
fn azure_error_bodies_are_parsed() {
    let mut headers = HeaderMap::new();
    headers.insert("azure-openai-request-id", HeaderValue::from_static("req-9"));
    let err = parse_azure_error(
        r#"{"error":{"code":"429","message":"slow down"}}"#.to_string(),
        429,
        &headers,
    );
    assert_eq!(err.status, 429);
    assert_eq!(err.code, "429");
    assert_eq!(err.message, "slow down");
    assert_eq!(err.request_id.as_deref(), Some("req-9"));
    let err = parse_azure_error("oops".to_string(), 500, &HeaderMap::new());
    assert_eq!(err.code, "unknown");
    assert_eq!(err.message, "oops");
    assert_eq!(err.request_id, None);
    let err = parse_azure_error(r#"{"error":{"code":"x"}}"#.to_string(), 404, &HeaderMap::new());
    assert_eq!(err.code, "x");
    assert_eq!(err.message, r#"{"error":{"code":"x"}}"#);
}
