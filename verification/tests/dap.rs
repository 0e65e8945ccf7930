use zed_kotlin::dap::sidecar_result;
use zed_kotlin::dap::hex_encode;

#[test]
fn hex_matches_proxy_encoding() {
    assert_eq!(hex_encode("C:/proj"), "433a2f70726f6a");
    assert_eq!(hex_encode(""), "");
}

use serde_json::Value;
use zed_kotlin::dap::{
    debug_server_port, decode_sidecar_reply, sidecar_port_from_file, sidecar_port_path,
    SidecarReply, DEBUG_ADAPTER_NAME, START_DEBUG_SERVER_COMMAND,
};
use zed_kotlin::sidecar::{port_file_contents, port_file_path};

fn reply_of(value: &Value) -> SidecarReply<Value> {
    match value.get("error") {
        Some(error) => SidecarReply::Error {
            code: error.get("code").and_then(Value::as_i64),
            message: error.get("message").and_then(Value::as_str).map(|m| m.to_string()),
        },
        None => match value.get("result") {
            Some(result) => SidecarReply::Result(result.clone()),
            None => SidecarReply::Neither,
        },
    }
}

#[test]
fn detects_result_envelope() {
    let value: Value = serde_json::from_slice(br#"{"result": 60096}"#).unwrap();
    assert_eq!(value.get("result").and_then(Value::as_u64), Some(60096));
    assert!(value.get("error").is_none());
    let result = decode_sidecar_reply("workspace/executeCommand", reply_of(&value)).unwrap();
    assert_eq!(result, Value::from(60096));
}

#[test]
fn detects_error_envelope() {
    let value: Value =
        serde_json::from_slice(br#"{"error": {"code": -32601, "message": "nope"}}"#).unwrap();
    let error = value.get("error").unwrap();
    assert_eq!(error.get("code").and_then(Value::as_i64), Some(-32601));
    assert_eq!(error.get("message").and_then(Value::as_str), Some("nope"));
    assert_eq!(
        decode_sidecar_reply("m", reply_of(&value)).unwrap_err(),
        "LSP request m failed: -32601 nope"
    );
}

#[test]
fn error_reply_defaults() {
    let reply: SidecarReply<Value> = SidecarReply::Error { code: None, message: None };
    assert_eq!(
        decode_sidecar_reply("m", reply).unwrap_err(),
        "LSP request m failed: -32000 unknown error"
    );
    let reply: SidecarReply<Value> = SidecarReply::Error {
        code: Some(i64::MIN),
        message: Some("x".to_string()),
    };
    assert_eq!(
        decode_sidecar_reply("m", reply).unwrap_err(),
        "LSP request m failed: -9223372036854775808 x"
    );
    let reply: SidecarReply<Value> = SidecarReply::Neither;
    assert_eq!(
        decode_sidecar_reply("m", reply).unwrap_err(),
        "LSP request m returned neither result nor error"
    );
}

#[test]
fn debug_port_must_be_a_tcp_port() {
    assert_eq!(debug_server_port(Some(60096), "60096"), Ok(60096));
    assert_eq!(debug_server_port(Some(65535), "65535"), Ok(65535));
    let err = "start_debug_server returned unexpected value: 0 (expected a TCP port)";
    assert_eq!(debug_server_port(Some(0), "0"), Err(err.to_string()));
    assert!(debug_server_port(Some(65536), "65536").is_err());
    assert_eq!(
        debug_server_port(None, "\"x\""),
        Err("start_debug_server returned unexpected value: \"x\" (expected a TCP port)".to_string())
    );
    assert_eq!(DEBUG_ADAPTER_NAME, "Kotlin");
    assert_eq!(START_DEBUG_SERVER_COMMAND, "start_debug_server");
}

#[test]
fn extension_reads_the_port_the_proxy_writes() {
    for worktree in ["C:/proj", "/home/user/kotlin project", "", "日本"] {
        assert_eq!(sidecar_port_path(worktree), port_file_path(worktree));
    }
    for port in [0u16, 1, 80, 5005, 60096, 65535] {
        let path = port_file_path("/w");
        assert_eq!(sidecar_port_from_file(&path, Some(port_file_contents(port))), Ok(port));
    }
}

#[test]
fn port_file_errors_name_the_path() {
    assert_eq!(
        sidecar_port_from_file("proxy/2f77", None),
        Err("kotlin-lsp sidecar not found at proxy/2f77 \u{2014} debugging requires the kotlin-lsp-proxy (it is missing or was overridden via proxy_path)".to_string())
    );
    assert_eq!(sidecar_port_from_file("p", Some(" 8080\n".to_string())), Ok(8080));
    assert_eq!(
        sidecar_port_from_file("p", Some("".to_string())),
        Err("kotlin-lsp sidecar port file at p is corrupted: cannot parse integer from empty string".to_string())
    );
    assert_eq!(
        sidecar_port_from_file("p", Some("80a".to_string())),
        Err("kotlin-lsp sidecar port file at p is corrupted: invalid digit found in string".to_string())
    );
    assert_eq!(
        sidecar_port_from_file("p", Some("70000".to_string())),
        Err("kotlin-lsp sidecar port file at p is corrupted: number too large to fit in target type".to_string())
    );
    assert_eq!(
        sidecar_port_from_file("p", Some("-1".to_string())),
        Err("kotlin-lsp sidecar port file at p is corrupted: invalid digit found in string".to_string())
    );
}

#[test]
fn sidecar_bodies_are_decoded() {
    assert_eq!(sidecar_result("m", b"{\"result\": 60096}"), Ok((Some(60096), "60096".to_string())));
    assert_eq!(sidecar_result("m", b"{\"result\": \"x\"}"), Ok((None, "\"x\"".to_string())));
    assert_eq!(
        sidecar_result("m", b"{\"error\": {\"code\": -32601, \"message\": \"nope\"}, \"result\": 1}"),
        Err("LSP request m failed: -32601 nope".to_string())
    );
    assert_eq!(sidecar_result("m", b"{}"), Err("LSP request m returned neither result nor error".to_string()));
    let err = sidecar_result("m", b"oops").unwrap_err();
    assert!(err.starts_with("LSP sidecar returned malformed JSON: "));
    assert!(err.len() > "LSP sidecar returned malformed JSON: ".len());
}
