use nvim_mcp::logging::{
    connection_context_id, preview_json, preview_text, request_context_id, sanitize_log_value,
    RequestContextInfo,
};

#[test]
fn sanitize_escapes_line_breaks() {
    assert_eq!(sanitize_log_value("a\nb\r\nc"), "a\\nb\\r\\nc");
    assert_eq!(sanitize_log_value("plain"), "plain");
    assert_eq!(sanitize_log_value(""), "");
}

#[test]
fn preview_trims_and_keeps_short_values() {
    assert_eq!(preview_text("  hello\n", 10), "hello");
    assert_eq!(preview_text("line1\nline2", 20), "line1\\nline2");
}

#[test]
fn preview_cuts_long_values() {
    assert_eq!(preview_text("abcdefghij", 4), "abcd...");
    assert_eq!(preview_text("abcd", 4), "abcd");
    assert_eq!(preview_text("\u{3000}ab\u{a0}", 1), "a...");
    // counted in characters, not bytes
    assert_eq!(preview_text("ééé", 2), "éé...");
}

#[test]
fn preview_json_renders_compact_json() {
    let mut map = serde_json::Map::new();
    map.insert("a".to_string(), serde_json::Value::from(1));
    let value = serde_json::Value::Object(map);
    assert_eq!(preview_json(&value, 100), "{\"a\":1}");
    assert_eq!(preview_json(&value, 3), "{\"a...");
}

#[test]
fn connection_context_id_joins_operation_and_id() {
    assert_eq!(connection_context_id("abc123", "read"), "read:abc123");
}

#[test]
fn request_context_id_prefers_tool_use_id() {
    let ctx = RequestContextInfo {
        tool_use_id: Some("toolu_1".to_string()),
        progress_token: Some("7".to_string()),
        request_id: "Number(3)".to_string(),
    };
    assert_eq!(request_context_id(&ctx, "connect"), "toolu_1");
}

#[test]
fn request_context_id_uses_progress_token() {
    let ctx = RequestContextInfo {
        tool_use_id: None,
        progress_token: Some("\"tok\nen\"".to_string()),
        request_id: "Number(3)".to_string(),
    };
    assert_eq!(request_context_id(&ctx, "connect"), "progress_\"tok\\nen\"");
}

#[test]
fn request_context_id_falls_back_to_request_id() {
    let ctx = RequestContextInfo {
        tool_use_id: None,
        progress_token: None,
        request_id: "Number(3)".to_string(),
    };
    assert_eq!(request_context_id(&ctx, "list_tools"), "list_tools_Number(3)");
}

#[test]
fn preview_of_a_preview_is_unchanged() {
    for (value, limit) in [("  a\nb  ", 10), ("hello world", 5), ("x", 0), ("  ", 3), ("ab\r\ncd", 4)] {
        let once = preview_text(value, limit);
        assert_eq!(preview_text(&once, limit), once);
    }
}
