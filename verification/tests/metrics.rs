use sentinel::error::SentinelError;
use sentinel::json::{parse_json, Json, JsonNumber};
use sentinel::metrics::{
    node_metrics, parse_slot, slot_request, RpcProbe, MAX_RPC_RESPONSE_BYTES, PROBE_ATTEMPTS,
};
use sentinel::net::read_json_capped;

const URL: &str = "http://node.example:8899";

fn json(text: &str) -> Json {
    parse_json(text.as_bytes()).expect("the document must parse")
}

#[test]
fn test_parse_slot_reads_a_normal_reply() {
    let body = json(r#"{"jsonrpc":"2.0","result":300123456,"id":1}"#);

    assert_eq!(
        parse_slot(&body, URL).expect("a well-formed reply must parse"),
        300_123_456
    );
}

#[test]
fn test_parse_slot_accepts_the_extremes_of_the_slot_range() {
    assert_eq!(parse_slot(&json(r#"{"result":0}"#), URL).unwrap_or(1), 0);
    assert_eq!(
        parse_slot(&json(&format!("{{\"result\":{}}}", u64::MAX)), URL).unwrap_or(0),
        u64::MAX
    );
}

#[test]
fn test_parse_slot_surfaces_a_json_rpc_error() {
    let body = json(
        r#"{"jsonrpc":"2.0","error":{"code":-32601,"message":"Method not found"},"id":1}"#,
    );

    match parse_slot(&body, URL) {
        Err(SentinelError::Rpc(msg)) => {
            assert!(msg.contains("Method not found"));
            assert!(msg.contains(URL));
        }
        other => panic!("expected an Rpc error, got {other:?}"),
    }
}

#[test]
fn test_parse_slot_rejects_an_error_without_a_message() {
    let body = json(r#"{"error":{}}"#);

    assert!(matches!(parse_slot(&body, URL), Err(SentinelError::Rpc(_))));
}

#[test]
fn test_parse_slot_rejects_results_that_are_not_slot_numbers() {
    for result in [
        r#"{"result":-1}"#,
        r#"{"result":1.5}"#,
        r#"{"result":"300123456"}"#,
        r#"{"result":null}"#,
        r#"{"result":[1,2,3]}"#,
        r#"{"jsonrpc":"2.0","id":1}"#,
    ] {
        assert!(
            matches!(parse_slot(&json(result), URL), Err(SentinelError::Rpc(_))),
            "must reject {result}"
        );
    }
}

#[test]
fn test_rpc_reply_is_read_under_the_cap() {
    let body = vec![b'x'; MAX_RPC_RESPONSE_BYTES + 1];
    let declared = Some(body.len() as u64);
    let err = read_json_capped(declared, vec![Ok(body)], MAX_RPC_RESPONSE_BYTES)
        .expect_err("an oversized RPC body must be refused");

    assert!(matches!(err, SentinelError::MalformedResponse(_)));
}

#[test]
fn test_a_normal_rpc_reply_survives_the_capped_read() {
    let body = br#"{"jsonrpc":"2.0","result":300123456,"id":1}"#.to_vec();
    let declared = Some(body.len() as u64);
    let value = read_json_capped(declared, vec![Ok(body)], MAX_RPC_RESPONSE_BYTES)
        .expect("a well-formed reply must parse");

    assert_eq!(parse_slot(&value, URL).unwrap_or(0), 300_123_456);
}

#[test]
fn test_prober_is_built_with_a_bounded_client() {
    assert!(RpcProbe::new().is_ok());
}

fn rpc_text(outcome: Result<u64, SentinelError>) -> String {
    match outcome {
        Err(SentinelError::Rpc(text)) => text,
        other => panic!("expected an Rpc error, got {other:?}"),
    }
}

#[test]
fn rpc_failures_name_the_node_and_the_reason() {
    assert_eq!(
        rpc_text(parse_slot(&json(r#"{"error":{"message":"busy"},"result":7}"#), URL)),
        "http://node.example:8899: getSlot failed: busy"
    );
    for body in [r#"{"error":null}"#, r#"{"error":{}}"#, r#"{"error":{"message":3}}"#] {
        assert_eq!(
            rpc_text(parse_slot(&json(body), URL)),
            "http://node.example:8899: getSlot failed: unknown error"
        );
    }
    for body in [
        "[]",
        "7",
        r#"{"result":18446744073709551616}"#,
        r#"{"result":1.0}"#,
        r#"{"result":1e2}"#,
        r#"{"result":-0}"#,
    ] {
        assert_eq!(
            rpc_text(parse_slot(&json(body), URL)),
            "http://node.example:8899: getSlot returned no usable slot number"
        );
    }
}

#[test]
fn the_last_of_two_fields_with_one_name_counts() {
    assert_eq!(parse_slot(&json(r#"{"result":1,"result":2}"#), URL).unwrap_or(0), 2);
}

#[test]
fn node_metrics_hold_slot_time_and_url() {
    let metrics = node_metrics(&json(r#"{"result":42}"#), URL, 250).expect("a slot is there");
    assert_eq!(metrics.slot, 42);
    assert_eq!(metrics.rtt_ms, 250);
    assert_eq!(metrics.node_url, URL);

    let wrapped = node_metrics(&json(r#"{"result":42}"#), URL, u64::MAX as u128 + 3)
        .expect("a slot is there");
    assert_eq!(wrapped.rtt_ms, 2);

    assert!(matches!(
        node_metrics(&json("{}"), URL, 250),
        Err(SentinelError::Rpc(_))
    ));
}

#[test]
fn slot_request_asks_for_a_finalized_slot() {
    let request = slot_request();
    assert_eq!(request.get("jsonrpc").and_then(|v| v.as_str()), Some("2.0"));
    assert_eq!(request.get("id").and_then(|v| v.as_u64()), Some(1));
    assert_eq!(request.get("method").and_then(|v| v.as_str()), Some("getSlot"));
    match request.get("params") {
        Some(Json::Array(params)) => {
            assert_eq!(params.len(), 1);
            assert_eq!(
                params[0].get("commitment").and_then(|v| v.as_str()),
                Some("finalized")
            );
        }
        other => panic!("expected an array, got {other:?}"),
    }
    assert_eq!(PROBE_ATTEMPTS, 3);
}

#[test]
fn a_prober_has_the_default_deadline() {
    let probe = RpcProbe::new().expect("the backend starts");
    assert!(format!("{:?}", probe.http).contains("10s"));
}

#[test]
fn a_prober_without_a_client_reports_why() {
    let failed = RpcProbe::over(Err(SentinelError::Config("no client".to_string())));
    assert!(matches!(failed, Err(SentinelError::Config(text)) if text == "no client"));
}

#[test]
fn a_number_made_from_a_u64_is_that_slot() {
    for slot in [0, 10, u64::MAX] {
        let number = JsonNumber::from_u64(slot);
        assert_eq!(number.text(), slot.to_string());
        let body = Json::Object(vec![("result".to_string(), Json::Number(number))]);
        assert_eq!(parse_slot(&body, URL).unwrap_or(1), slot);
    }
}
