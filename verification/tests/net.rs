use sentinel::error::SentinelError;
use sentinel::json::{has_countable_digits, parse_json, Json};
use sentinel::net::{
    build_client, check_budget, client_or_error, read_json_capped, reply_of, Arrival, CappedBody,
    DEFAULT_CONNECT_TIMEOUT_SECS, DEFAULT_REQUEST_TIMEOUT_SECS, MAX_RESPONSE_BYTES,
};
use std::time::Duration;

/// Reads `body` as one chunk, with a truthful declared length or none.
fn read(body: Vec<u8>, declare_len: bool, max_bytes: usize) -> Result<Json, SentinelError> {
    let declared = if declare_len { Some(body.len() as u64) } else { None };
    read_json_capped(declared, vec![Ok(body)], max_bytes)
}

fn is_true(value: Option<&Json>) -> bool {
    matches!(value, Some(Json::Bool(true)))
}

fn transport_failure() -> reqwest::Error {
    reqwest::Client::new()
        .get("not a url")
        .build()
        .expect_err("the URL is malformed")
}

fn malformed_text(outcome: Result<Json, SentinelError>) -> String {
    match outcome {
        Err(SentinelError::MalformedResponse(text)) => text,
        other => panic!("expected MalformedResponse, got {other:?}"),
    }
}

#[test]
fn test_read_json_capped_accepts_a_normal_reply() {
    let body = br#"{"ok":true,"result":{"message_id":1}}"#.to_vec();
    let value = read(body, true, MAX_RESPONSE_BYTES).expect("a well-formed reply must parse");

    assert!(is_true(value.get("ok")));
}

#[test]
fn test_read_json_capped_rejects_declared_oversize_body() {
    let body = vec![b'x'; MAX_RESPONSE_BYTES + 1];
    let err = read(body, true, MAX_RESPONSE_BYTES).expect_err("an oversized body must be refused");

    match err {
        SentinelError::MalformedResponse(msg) => assert!(msg.contains("declares")),
        other => panic!("expected MalformedResponse, got {other:?}"),
    }
}

#[test]
fn test_read_json_capped_rejects_oversize_body_without_the_header() {
    let body = vec![b'x'; MAX_RESPONSE_BYTES + 1];
    let err = read(body, false, MAX_RESPONSE_BYTES)
        .expect_err("an oversized body must be refused without Content-Length too");

    assert!(matches!(err, SentinelError::MalformedResponse(_)));
}

#[test]
fn test_read_json_capped_accepts_body_exactly_at_the_cap() {
    let prefix = br#"{"ok":true}"#;
    let mut body = prefix.to_vec();
    body.resize(MAX_RESPONSE_BYTES, b' ');

    let value = read(body, true, MAX_RESPONSE_BYTES)
        .expect("a body exactly at the cap must be accepted");

    assert!(is_true(value.get("ok")));
}

#[test]
fn test_read_json_capped_honours_a_smaller_cap() {
    let body = vec![b' '; 4096];
    let err = read(body, true, 1024).expect_err("a body over the caller's own cap must be refused");

    assert!(matches!(err, SentinelError::MalformedResponse(_)));
}

#[test]
fn test_read_json_capped_rejects_non_json_body() {
    let err = read(b"<html>not json</html>".to_vec(), true, MAX_RESPONSE_BYTES)
        .expect_err("a non-JSON body must be refused");

    match err {
        SentinelError::MalformedResponse(msg) => assert!(msg.contains("not valid JSON")),
        other => panic!("expected MalformedResponse, got {other:?}"),
    }
}

#[test]
fn test_check_budget_admits_chunks_up_to_the_cap() {
    assert!(check_budget(0, 0, MAX_RESPONSE_BYTES).is_ok());
    assert!(check_budget(0, MAX_RESPONSE_BYTES, MAX_RESPONSE_BYTES).is_ok());
    assert!(check_budget(MAX_RESPONSE_BYTES - 1, 1, MAX_RESPONSE_BYTES).is_ok());
}

#[test]
fn test_check_budget_rejects_the_chunk_that_crosses_the_cap() {
    assert!(check_budget(MAX_RESPONSE_BYTES, 1, MAX_RESPONSE_BYTES).is_err());
    assert!(check_budget(MAX_RESPONSE_BYTES - 1, 2, MAX_RESPONSE_BYTES).is_err());
    assert!(check_budget(0, MAX_RESPONSE_BYTES + 1, MAX_RESPONSE_BYTES).is_err());
}

#[test]
fn test_check_budget_does_not_overflow_on_absurd_lengths() {
    assert!(check_budget(usize::MAX, usize::MAX, MAX_RESPONSE_BYTES).is_err());
}

#[test]
fn test_build_client_applies_bounded_deadlines() {
    let request = Duration::from_secs(DEFAULT_REQUEST_TIMEOUT_SECS);
    let connect = Duration::from_secs(DEFAULT_CONNECT_TIMEOUT_SECS);
    assert!(build_client(request, connect).is_ok());
    assert!(request > Duration::ZERO);
    assert!(connect <= request);
}

#[test]
fn a_built_client_holds_the_deadlines_it_was_asked_for() {
    let client = build_client(Duration::from_secs(17), Duration::from_secs(3))
        .expect("the backend starts");
    assert!(format!("{client:?}").contains("17s"));
}

#[test]
fn the_exact_sum_decides_under_the_largest_cap() {
    assert!(check_budget(usize::MAX - 1, 1, usize::MAX).is_ok());
    assert!(check_budget(usize::MAX, 0, usize::MAX).is_ok());
    assert!(check_budget(0, usize::MAX, usize::MAX).is_ok());
    assert!(matches!(
        check_budget(usize::MAX, 1, usize::MAX),
        Err(SentinelError::MalformedResponse(_))
    ));
    assert!(check_budget(1, usize::MAX, usize::MAX).is_err());
    assert!(check_budget(usize::MAX, usize::MAX, usize::MAX).is_err());
}

#[test]
fn refusals_say_what_is_wrong() {
    assert_eq!(
        malformed_text(read(vec![b' '; 4096], true, 1024)),
        "response declares 4096 bytes, over the 1024-byte cap"
    );
    assert_eq!(
        malformed_text(read(vec![b' '; 4096], false, 1024)),
        "response body exceeds the 1024-byte cap"
    );
    assert_eq!(
        malformed_text(read(b"<".to_vec(), true, 1024)),
        "body is not valid JSON: expected value at line 1 column 1"
    );
    assert_eq!(
        malformed_text(read_json_capped(None, vec![], 1024)),
        "body is not valid JSON: EOF while parsing a value at line 1 column 0"
    );
}

#[test]
fn a_peer_that_understates_its_length_is_stopped() {
    let chunks: Vec<Arrival> = (0..5).map(|_| Ok(vec![b' '; 300])).collect();
    assert_eq!(
        malformed_text(read_json_capped(Some(10), chunks, 1024)),
        "response body exceeds the 1024-byte cap"
    );
}

#[test]
fn chunking_makes_no_difference() {
    let body = br#"{"ok":true}"#;
    let whole = read(body.to_vec(), true, 11).expect("one chunk");
    let bytewise: Vec<Arrival> = body.iter().map(|b| Ok(vec![*b])).collect();
    let pieced = read_json_capped(Some(11), bytewise, 11).expect("many chunks");
    assert!(is_true(whole.get("ok")));
    assert!(is_true(pieced.get("ok")));
    assert!(read_json_capped(None, vec![Ok(body.to_vec())], 10).is_err());
    assert!(read_json_capped(None, vec![Ok(body.to_vec())], 12).is_ok());
}

#[test]
fn a_transport_failure_ends_the_read() {
    let arrivals: Vec<Arrival> = vec![
        Ok(b"{}".to_vec()),
        Err(transport_failure()),
        Ok(vec![b' '; 4096]),
    ];
    assert!(matches!(
        read_json_capped(None, arrivals, 1024),
        Err(SentinelError::Http(_))
    ));

    // A chunk over the cap comes first here.
    let arrivals: Vec<Arrival> = vec![Ok(vec![b' '; 4096]), Err(transport_failure())];
    assert!(matches!(
        read_json_capped(None, arrivals, 1024),
        Err(SentinelError::MalformedResponse(_))
    ));
}

#[test]
fn a_refused_chunk_leaves_the_body_as_it_was() {
    let mut body = CappedBody::open(None, 4).expect("no length is declared");
    assert!(body.accept(b"[1").is_ok());
    assert!(body.accept(b",2]").is_err());
    assert!(body.accept(b"]").is_ok());
    match body.finish() {
        Ok(Json::Array(items)) => assert_eq!(items[0].as_u64(), Some(1)),
        other => panic!("expected an array, got {other:?}"),
    }
}

#[test]
fn parsed_documents_keep_their_shape() {
    let json = parse_json(br#"{"a":[null,false,"x",-2,1.5,7],"b":{"c":"d"}}"#)
        .expect("the document parses");
    match json.get("a") {
        Some(Json::Array(items)) => {
            assert_eq!(items.len(), 6);
            assert!(matches!(items[0], Json::Null));
            assert!(matches!(items[1], Json::Bool(false)));
            assert_eq!(items[2].as_str(), Some("x"));
            assert_eq!(items[2].as_u64(), None);
            assert!(matches!(&items[3], Json::Number(n) if n.text() == "-2" && n.as_u64().is_none()));
            assert!(matches!(&items[4], Json::Number(n) if n.text() == "1.5" && n.as_u64().is_none()));
            assert!(matches!(&items[5], Json::Number(n) if n.text() == "7" && n.as_u64() == Some(7)));
            assert_eq!(items[5].as_str(), None);
        }
        other => panic!("expected an array, got {other:?}"),
    }
    assert_eq!(json.get("b").and_then(|b| b.get("c")).and_then(|c| c.as_str()), Some("d"));
    assert!(json.get("z").is_none());
    assert!(json.get("a").and_then(|a| a.get("b")).is_none());
}

#[test]
fn outside_results_are_passed_on() {
    assert!(client_or_error(Ok(reqwest::Client::new())).is_ok());
    assert!(matches!(
        client_or_error(Err(transport_failure())),
        Err(SentinelError::Http(_))
    ));
    assert!(matches!(reply_of(Ok(Json::Null)), Ok(Json::Null)));
    assert_eq!(
        malformed_text(reply_of(Err("odd".to_string()))),
        "body is not valid JSON: odd"
    );
}

#[test]
fn only_plain_unsigned_integers_have_a_u64() {
    let max = u64::MAX.to_string();
    for (written, text, unsigned) in [
        ("0", "0", Some(0)),
        (max.as_str(), max.as_str(), Some(u64::MAX)),
        ("-0", "-0.0", None),
        ("-7", "-7", None),
        ("1.0", "1.0", None),
        ("1e2", "100.0", None),
        ("1.5", "1.5", None),
        ("18446744073709551616", "1.8446744073709552e+19", None),
    ] {
        match parse_json(written.as_bytes()) {
            Ok(Json::Number(number)) => {
                assert_eq!(number.text(), text, "{written}");
                assert_eq!(number.as_u64(), unsigned, "{written}");
            }
            other => panic!("expected a number, got {other:?}"),
        }
    }
}

#[test]
fn ordinary_bodies_have_countable_digits() {
    assert!(has_countable_digits(b""));
    assert!(has_countable_digits(&[b'7'; 4096]));
    let mut body = CappedBody::open(None, MAX_RESPONSE_BYTES).expect("no length is declared");
    assert!(body.accept(&[b'7'; 4096]).is_ok());
    assert!(body.has_countable_digits());
}

#[test]
fn a_peer_that_sends_too_much_is_malformed_unless_its_transport_fails() {
    let oversize = || -> Arrival { Ok(vec![b' '; 4096]) };
    assert!(matches!(
        read_json_capped(None, vec![oversize()], 1024),
        Err(SentinelError::MalformedResponse(_))
    ));
    assert!(matches!(
        read_json_capped(None, vec![Err(transport_failure()), oversize()], 1024),
        Err(SentinelError::Http(_))
    ));
}
