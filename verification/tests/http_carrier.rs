use yai::http::{
    chat_request_body, continuation_check, continuation_disposition_label, decode_chunked_body,
    first_reply_step, http_request_text, parse_http_url, read_http_response, retry_reply_check,
    write_failure_text, ContinuationDisposition, ReplyStep,
};

#[test]
fn http_urls_give_host_port_and_path() {
    let u = parse_http_url("http://127.0.0.1:8080/v1/chat/completions").unwrap();
    assert_eq!((u.host.as_str(), u.port, u.path.as_str()), ("127.0.0.1", 8080, "/v1/chat/completions"));
    let u = parse_http_url("http://example").unwrap();
    assert_eq!((u.host.as_str(), u.port, u.path.as_str()), ("example", 80, "/"));
    let u = parse_http_url("http://[::1]:9/x").unwrap();
    assert_eq!((u.host.as_str(), u.port), ("[::1]", 9));
}

#[test]
fn other_schemes_and_bad_ports_are_refused() {
    assert_eq!(
        parse_http_url("https://example/v1").err().unwrap(),
        "only http:// provider URLs are supported in this carrier"
    );
    assert_eq!(
        parse_http_url("http://host:99999/").err().unwrap(),
        "invalid provider port: number too large to fit in target type"
    );
    assert_eq!(
        parse_http_url("http://host:/").err().unwrap(),
        "invalid provider port: cannot parse integer from empty string"
    );
    assert_eq!(
        parse_http_url("http://host:8a/").err().unwrap(),
        "invalid provider port: invalid digit found in string"
    );
}

#[test]
fn chunked_bodies_decode() {
    assert_eq!(decode_chunked_body(b"4\r\nWiki\r\n5;ext=1\r\npedia\r\n0\r\n\r\n").unwrap(), b"Wikipedia".to_vec());
    assert_eq!(decode_chunked_body(b"A\r\n0123456789\r\n0\r\n").unwrap(), b"0123456789".to_vec());
    assert_eq!(decode_chunked_body(b"0\r\n").unwrap(), Vec::<u8>::new());
}

#[test]
fn broken_chunked_bodies_are_refused() {
    assert_eq!(decode_chunked_body(b"4\r\nWi").unwrap_err(), "truncated chunked response");
    assert_eq!(decode_chunked_body(b"4").unwrap_err(), "invalid chunked response");
    assert_eq!(
        decode_chunked_body(b"zz\r\n").unwrap_err(),
        "invalid chunk size: invalid digit found in string"
    );
    assert!(decode_chunked_body(b"\xff\r\n").unwrap_err().starts_with("invalid chunk header: "));
}

#[test]
fn responses_give_status_and_body() {
    let reply = read_http_response(b"HTTP/1.1 200 OK\r\nContent-Type: application/json\r\n\r\n{}", 10).unwrap();
    assert_eq!((reply.status, reply.body), (200, b"{}".to_vec()));
    let reply = read_http_response(b"HTTP/1.1 201 Created\r\nTransfer-Encoding: Chunked\r\n\r\n2\r\nok\r\n0\r\n\r\n", 3).unwrap();
    assert_eq!((reply.status, reply.body), (201, b"ok".to_vec()));
}

#[test]
fn broken_responses_are_indeterminate() {
    assert_eq!(
        read_http_response(b"HTTP/1.1 200 OK\r\n", 12).err().unwrap(),
        "provider_delivery_indeterminate:invalid_http_response:bytes=12"
    );
    assert_eq!(
        read_http_response(b"garbage\r\n\r\n", 5).err().unwrap(),
        "provider_delivery_indeterminate:invalid_http_status:bytes=5"
    );
    assert_eq!(
        read_http_response(b"HTTP/1.1 200 OK\r\ntransfer-encoding: chunked\r\n\r\n5\r\nab", 7).err().unwrap(),
        "provider_delivery_indeterminate:response_body:bytes=7:truncated chunked response"
    );
}

#[test]
fn request_body_and_text() {
    assert_eq!(
        chat_request_body("m", "sys \"q\"", "user\n", None),
        "{\"model\":\"m\",\"stream\":false,\"messages\":[{\"role\":\"system\",\"content\":\"sys \\\"q\\\"\"},{\"role\":\"user\",\"content\":\"user\\n\"}] }"
    );
    assert_eq!(
        chat_request_body("m", "s", "u", Some(("rt", "ref"))),
        "{\"model\":\"m\",\"stream\":false,\"messages\":[{\"role\":\"system\",\"content\":\"s\"},{\"role\":\"user\",\"content\":\"u\"}],\"yai_provider_continuation\":{\"runtime_id\":\"rt\",\"reference\":\"ref\"} }"
    );
    assert_eq!(
        http_request_text("/v1", "h", Some("k"), "é"),
        "POST /v1 HTTP/1.1\r\nHost: h\r\nContent-Type: application/json\r\nAccept: application/json\r\nAuthorization: Bearer k\r\nContent-Length: 2\r\nConnection: close\r\n\r\né"
    );
    assert_eq!(
        http_request_text("/", "h", None, "{}"),
        "POST / HTTP/1.1\r\nHost: h\r\nContent-Type: application/json\r\nAccept: application/json\r\nContent-Length: 2\r\nConnection: close\r\n\r\n{}"
    );
}

#[test]
fn write_failures_say_whether_anything_left() {
    assert_eq!(write_failure_text(0, None), "provider_not_dispatched:zero_write");
    assert_eq!(write_failure_text(5, None), "provider_delivery_indeterminate:partial_write:5");
    assert_eq!(write_failure_text(0, Some("reset")), "provider_not_dispatched:write:reset");
    assert_eq!(write_failure_text(9, Some("reset")), "provider_delivery_indeterminate:partial_write:9:reset");
}

#[test]
fn continuations_go_to_their_provider_only() {
    assert!(continuation_check(None, "p", false).is_ok());
    assert_eq!(
        continuation_check(Some("q"), "p", true).unwrap_err(),
        "provider_continuation_provider_mismatch"
    );
    assert_eq!(
        continuation_check(Some("p"), "p", false).unwrap_err(),
        "provider_continuation_not_supported"
    );
    assert!(continuation_check(Some("p"), "p", true).is_ok());
    assert_eq!(continuation_disposition_label(ContinuationDisposition::InvalidatedAndRetried), "invalidated_and_retried");
}

#[test]
fn reply_steps_retry_only_a_refused_continuation() {
    assert!(matches!(
        first_reply_step(200, "", true, 1),
        ReplyStep::Accept { disposition: ContinuationDisposition::Used }
    ));
    assert!(matches!(
        first_reply_step(204, "", false, 1),
        ReplyStep::Accept { disposition: ContinuationDisposition::NotProvided }
    ));
    assert!(matches!(
        first_reply_step(400, "{\"error\":\"INVALID_CONTINUATION\"}", true, 1),
        ReplyStep::RetryWithoutContinuation
    ));
    match first_reply_step(400, "invalid_continuation", false, 42) {
        ReplyStep::Fail { message } => assert_eq!(message, "provider_remote_response:400:bytes=42"),
        _ => panic!("a refusal without continuation fails"),
    }
    assert!(retry_reply_check(299, 1).is_ok());
    assert_eq!(
        retry_reply_check(500, 3).unwrap_err(),
        "provider_remote_response:500:bytes=3:continuation_retry"
    );
}
