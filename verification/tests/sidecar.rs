use zed_kotlin::sidecar::check_lsp_body;
use zed_kotlin::sidecar::{hex_encode, read_http_request};

#[test]
fn hex_encodes_worktree_path() {
    assert_eq!(hex_encode("C:/proj"), "433a2f70726f6a");
    assert_eq!(hex_encode(""), "");
}

#[test]
fn parses_minimal_post() {
    let raw = b"POST / HTTP/1.1\r\nContent-Length: 26\r\nHost: x\r\n\r\n{\"method\":\"workspace/foo\"}";
    let (line, body) = read_http_request(raw.as_slice()).unwrap();
    assert_eq!(line, "POST / HTTP/1.1");
    assert_eq!(body, b"{\"method\":\"workspace/foo\"}");
}

#[test]
fn content_length_is_case_insensitive() {
    let raw =
        b"POST / HTTP/1.1\r\ncontent-type: application/json\r\ncontent-length: 2\r\n\r\n{}";
    let (_, body) = read_http_request(raw.as_slice()).unwrap();
    assert_eq!(body, b"{}");
}

#[test]
fn rejects_truncated_body() {
    let raw = b"POST / HTTP/1.1\r\nContent-Length: 50\r\n\r\n{}";
    assert!(read_http_request(raw.as_slice()).is_none());
}

use serde_json::Value;
use std::sync::mpsc;
use std::time::Duration;
use zed_kotlin::sidecar::{
    bytes_wanted, envelope_for, fail_all, http_response, injected_id, port_file_contents,
    port_file_path, reject_http_request, reject_lsp_body, roundtrip_failure, route_reply,
    timeout_message, Envelope, PendingSidecar, WORKTREE_ENV,
};

fn json(text: &str) -> Value {
    serde_json::from_str(text).unwrap()
}

#[test]
fn routes_only_pending_reply() {
    let mut pending: PendingSidecar<mpsc::Sender<Value>> = PendingSidecar::new();
    let (tx, rx) = mpsc::channel();
    pending.register(7, tx);

    let other = json(r#"{"jsonrpc": "2.0", "id": 3, "result": null}"#);
    assert!(route_reply(other.get("id").and_then(Value::as_str), &mut pending).is_none());
    assert_eq!(pending.len(), 1);

    let mine = json(r#"{"jsonrpc": "2.0", "id": "$proxy-7", "result": 60096}"#);
    let waiter = route_reply(mine.get("id").and_then(Value::as_str), &mut pending);
    assert!(waiter.is_some());
    waiter.unwrap().send(mine.clone()).unwrap();
    assert!(pending.is_empty());
    assert_eq!(rx.recv().unwrap()["result"], Value::from(60096));
}

#[test]
fn fail_all_releases_waiters() {
    let mut pending: PendingSidecar<mpsc::Sender<Value>> = PendingSidecar::new();
    let (tx, rx) = mpsc::channel::<Value>();
    pending.register(1, tx);
    fail_all(&mut pending);
    assert!(matches!(rx.recv_timeout(Duration::from_millis(250)), Err(_)));
}

#[test]
fn envelope_maps_result_and_error() {
    let resp = json(r#"{"jsonrpc": "2.0", "id": "$proxy-0", "result": 60096}"#);
    let (status, body) = envelope_for(resp.get("error").cloned(), resp.get("result").cloned());
    assert_eq!(status, 200);
    assert!(matches!(body, Envelope::Result(Some(v)) if v == Value::from(60096)));

    let resp = json(
        r#"{"jsonrpc": "2.0", "id": "$proxy-0", "error": {"code": -32601, "message": "no such method"}}"#,
    );
    let (status, body) = envelope_for(resp.get("error").cloned(), resp.get("result").cloned());
    assert_eq!(status, 200);
    assert!(matches!(body, Envelope::Error(e)
        if e == json(r#"{"code": -32601, "message": "no such method"}"#)));

    // Missing result -> explicit null, so callers never parse an empty object.
    let resp = json(r#"{"jsonrpc": "2.0", "id": "$proxy-0"}"#);
    let (_, body) = envelope_for(resp.get("error").cloned(), resp.get("result").cloned());
    assert!(matches!(body, Envelope::Result(None)));
}

#[test]
fn port_file_lives_under_proxy_dir() {
    assert_eq!(port_file_path("C:/proj"), "proxy/433a2f70726f6a");
    assert_eq!(port_file_path("é"), "proxy/c3a9");
    assert_eq!(port_file_contents(60096), "60096");
    assert_eq!(port_file_contents(0), "0");
    assert_eq!(WORKTREE_ENV, "KOTLIN_LSP_WORKTREE_ROOT");
}

#[test]
fn injected_ids_are_prefixed_strings() {
    assert_eq!(injected_id(0), "$proxy-0");
    assert_eq!(injected_id(12345), "$proxy-12345");
    assert_eq!(injected_id(u64::MAX), "$proxy-18446744073709551615");
}

#[test]
fn only_canonical_injected_ids_route() {
    let mut pending: PendingSidecar<u32> = PendingSidecar::new();
    pending.register(7, 70);
    pending.register(8, 80);
    assert!(route_reply(Some("$proxy-07"), &mut pending).is_none());
    assert!(route_reply(Some("$proxy-+7"), &mut pending).is_none());
    assert!(route_reply(Some("proxy-7"), &mut pending).is_none());
    assert!(route_reply(Some("$proxy-9"), &mut pending).is_none());
    assert!(route_reply(None, &mut pending).is_none());
    assert_eq!(pending.len(), 2);
    assert_eq!(route_reply(Some("$proxy-8"), &mut pending), Some(80));
    assert_eq!(route_reply(Some("$proxy-8"), &mut pending), None);
    assert_eq!(pending.withdraw(7), Some(70));
    assert!(pending.is_empty());
}

#[test]
fn response_is_framed_with_byte_length() {
    assert_eq!(
        http_response(200, "{\"result\":60096}"),
        "HTTP/1.1 200\r\nContent-Type: application/json\r\nContent-Length: 16\r\nConnection: close\r\n\r\n{\"result\":60096}"
    );
    // The length counts UTF-8 bytes, not characters.
    assert_eq!(
        http_response(504, "\"é\""),
        "HTTP/1.1 504\r\nContent-Type: application/json\r\nContent-Length: 4\r\nConnection: close\r\n\r\n\"é\""
    );
}

#[test]
fn rejections_carry_status_and_code() {
    let (status, body) = reject_http_request(None).unwrap();
    assert_eq!((status, body.code, body.message.as_str()), (400, -32600, "malformed HTTP request"));
    let get = "GET / HTTP/1.1".to_string();
    let (status, body) = reject_http_request(Some(&get)).unwrap();
    assert_eq!((status, body.code, body.message.as_str()), (405, -32601, "POST only"));
    let post = "POST / HTTP/1.1".to_string();
    assert!(reject_http_request(Some(&post)).is_none());

    let (status, body) = reject_lsp_body(false, false).unwrap();
    assert_eq!((status, body.code, body.message.as_str()), (400, -32700, "malformed JSON body"));
    let (status, body) = reject_lsp_body(true, false).unwrap();
    assert_eq!(
        (status, body.code, body.message.as_str()),
        (400, -32600, "missing string \"method\" field")
    );
    assert!(reject_lsp_body(true, true).is_none());

    let (status, body) = roundtrip_failure(timeout_message("workspace/foo"));
    assert_eq!(
        (status, body.code, body.message.as_str()),
        (504, -32000, "timeout waiting for LSP response to workspace/foo")
    );
}

#[test]
fn missing_content_length_means_empty_body() {
    let raw = b"POST / HTTP/1.1\r\nHost: x\r\n\r\n{}";
    let (line, body) = read_http_request(raw.as_slice()).unwrap();
    assert_eq!(line, "POST / HTTP/1.1");
    assert!(body.is_empty());
}

#[test]
fn unparsable_content_length_is_skipped() {
    let raw = b"POST / HTTP/1.1\r\nContent-Length: x\r\n  CONTENT-LENGTH :  +2 \r\n\r\n{}zz";
    let (_, body) = read_http_request(raw.as_slice()).unwrap();
    assert_eq!(body, b"{}");
}

#[test]
fn header_must_end_in_time() {
    assert!(read_http_request(b"POST / HTTP/1.1\r\nContent-Length: 2\r\n").is_none());
    let mut long = b"POST / HTTP/1.1\r\nX: ".to_vec();
    long.extend(std::iter::repeat(b'a').take(17000));
    long.extend_from_slice(b"\r\n\r\n");
    assert!(read_http_request(&long).is_none());
    assert_eq!(bytes_wanted(&long), None);
}

#[test]
fn invalid_utf8_in_request_line_is_replaced() {
    let raw = b"POST /\xff HTTP/1.1\r\n\r\n";
    let (line, _) = read_http_request(raw.as_slice()).unwrap();
    assert_eq!(line, "POST /\u{FFFD} HTTP/1.1");
}

#[test]
fn reader_asks_for_missing_bytes() {
    assert_eq!(bytes_wanted(b""), Some(1));
    assert_eq!(bytes_wanted(b"POST / HTTP/1.1\r\n"), Some(1));
    assert_eq!(bytes_wanted(b"POST / HTTP/1.1\r\nContent-Length: 5\r\n\r\n"), Some(5));
    assert_eq!(bytes_wanted(b"POST / HTTP/1.1\r\nContent-Length: 5\r\n\r\nab"), Some(3));
    assert_eq!(bytes_wanted(b"POST / HTTP/1.1\r\nContent-Length: 2\r\n\r\nab"), Some(0));
}

#[test]
fn post_request_is_read_back_as_sent() {
    let body = "{\"method\":\"x\",\"params\":\"é\"}".as_bytes();
    let mut raw = format!("POST /lsp HTTP/1.1\r\nContent-Length: {}\r\n\r\n", body.len()).into_bytes();
    raw.extend_from_slice(body);
    raw.extend_from_slice(b"trailing bytes");
    let (line, read) = read_http_request(raw.as_slice()).unwrap();
    assert_eq!(line, "POST /lsp HTTP/1.1");
    assert_eq!(read, body);
}

#[test]
fn injected_numbers_count_up() {
    let mut ids = zed_kotlin::sidecar::InjectedIds::new();
    assert_eq!(ids.issue(), 0);
    assert_eq!(ids.issue(), 1);
    assert_eq!(ids.issue(), 2);
    assert_eq!(injected_id(ids.issue()), "$proxy-3");
}

#[test]
fn lsp_body_needs_json_and_method() {
    assert_eq!(check_lsp_body(b"{\"method\":\"workspace/executeCommand\",\"params\":{}}").ok(), Some("workspace/executeCommand".to_string()));
    let (status, body) = check_lsp_body(b"{not json").unwrap_err();
    assert_eq!((status, body.code, body.message.as_str()), (400, -32700, "malformed JSON body"));
    let (status, body) = check_lsp_body(b"{\"method\": 3}").unwrap_err();
    assert_eq!((status, body.code, body.message.as_str()), (400, -32600, "missing string \"method\" field"));
}
