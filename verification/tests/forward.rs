use zed_kotlin::forward::{
    encode_lsp, lsp_content_length, lsp_header_complete, ForwardState, MessageId, ServerAction,
};

#[test]
fn definition_answers_are_rewritten_once() {
    let mut s = ForwardState::new();
    s.on_client_message(Some(MessageId::Number(4)), Some("textDocument/definition"));
    s.on_client_message(Some(MessageId::Number(5)), Some("textDocument/hover"));
    s.on_client_message(None, Some("textDocument/references"));
    s.on_client_message(Some(MessageId::Text("a".to_string())), Some("textDocument/references"));

    assert_eq!(s.on_server_message(None, true, false), ServerAction::ForwardRaw);
    assert_eq!(s.on_server_message(Some(MessageId::Number(4)), false, false), ServerAction::ForwardRaw);
    assert_eq!(s.on_server_message(Some(MessageId::Number(5)), true, false), ServerAction::ForwardRaw);
    assert_eq!(s.on_server_message(Some(MessageId::Number(4)), true, false), ServerAction::Rewrite);
    assert_eq!(s.on_server_message(Some(MessageId::Number(4)), true, false), ServerAction::ForwardRaw);
    assert_eq!(s.on_server_message(Some(MessageId::Text("a".to_string())), true, true), ServerAction::ToSidecar);
    assert_eq!(s.on_server_message(Some(MessageId::Text("a".to_string())), true, false), ServerAction::Rewrite);
    assert_eq!(s.on_server_message(Some(MessageId::Number(7)), true, false), ServerAction::ForwardRaw);
}

#[test]
fn tracking_twice_keeps_one_entry() {
    let mut s = ForwardState::new();
    s.on_client_message(Some(MessageId::Number(1)), Some("textDocument/declaration"));
    s.on_client_message(Some(MessageId::Number(1)), Some("textDocument/declaration"));
    assert_eq!(s.on_server_message(Some(MessageId::Number(1)), true, false), ServerAction::Rewrite);
    assert_eq!(s.on_server_message(Some(MessageId::Number(1)), true, false), ServerAction::ForwardRaw);
}

#[test]
fn lsp_header_is_read_back() {
    let frame = encode_lsp("{\"x\":\"é\"}");
    let bytes = frame.as_bytes();
    let end = frame.find("\r\n\r\n").unwrap() + 4;
    assert!(lsp_header_complete(&bytes[..end]));
    assert!(!lsp_header_complete(&bytes[..end - 1]));
    assert_eq!(lsp_content_length(&bytes[..end]), Some(10));
    assert_eq!(lsp_content_length(b"content-length: 3\r\nX: y\r\n\r\n"), Some(3));
    assert_eq!(lsp_content_length(b"X: y\r\n\r\n"), None);
}

#[test]
fn other_ids_are_tracked_by_their_text() {
    let mut s = ForwardState::new();
    s.on_client_message(Some(MessageId::Other("1.5".to_string())), Some("textDocument/typeDefinition"));
    assert_eq!(s.on_server_message(Some(MessageId::Text("1.5".to_string())), true, false), ServerAction::ForwardRaw);
    assert_eq!(s.on_server_message(Some(MessageId::Other("1.5".to_string())), true, false), ServerAction::Rewrite);
}
