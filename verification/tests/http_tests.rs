use nvim_mcp::http_compat::{
    accepts_event_stream, has_non_empty_session_id, initial_sse_probe_response,
    body_reports_missing_session, is_initial_sse_probe, lists_event_stream_exec, parse_sse_events, rewrite_unauthorized_status,
    ProbeRequest,
};

fn request(method: &str, accept: Option<&str>, session: Option<&str>) -> ProbeRequest {
    ProbeRequest {
        method: method.to_string(),
        accept: accept.map(|s| s.to_string()),
        session_id: session.map(|s| s.to_string()),
    }
}

#[test]
fn initial_probe_is_recognized() {
    assert!(is_initial_sse_probe(&request("GET", Some("text/event-stream"), None)));
    assert!(is_initial_sse_probe(&request("GET", Some("application/json, Text/Event-Stream"), None)));
    assert!(is_initial_sse_probe(&request("GET", Some("text/event-stream"), Some("   "))));
    assert!(!is_initial_sse_probe(&request("POST", Some("text/event-stream"), None)));
    assert!(!is_initial_sse_probe(&request("GET", Some("application/json"), None)));
    assert!(!is_initial_sse_probe(&request("GET", None, None)));
    assert!(!is_initial_sse_probe(&request("GET", Some("text/event-stream"), Some("abc"))));
}

#[test]
fn accept_header_entries_are_compared_whole() {
    assert!(lists_event_stream_exec(" text/event-stream ,x"));
    assert!(!lists_event_stream_exec("text/event-streams"));
    assert!(!lists_event_stream_exec("text/event-stream;q=1"));
    assert!(!lists_event_stream_exec(""));
    assert!(accepts_event_stream(&request("GET", Some("a,,TEXT/EVENT-STREAM"), None)));
    assert!(!has_non_empty_session_id(&request("GET", None, Some(""))));
    assert!(has_non_empty_session_id(&request("GET", None, Some(" s "))));
}

#[test]
fn unauthorized_becomes_bad_request() {
    assert_eq!(rewrite_unauthorized_status(401, true), 400);
    assert_eq!(rewrite_unauthorized_status(401, false), 401);
    assert_eq!(rewrite_unauthorized_status(200, true), 200);
    assert_eq!(rewrite_unauthorized_status(404, false), 404);
}

#[test]
fn missing_session_body_is_recognised() {
    assert!(body_reports_missing_session("Unauthorized: Session ID is required"));
    assert!(body_reports_missing_session("Bad Request: Session ID is required"));
    assert!(!body_reports_missing_session("Unauthorized: Session not found"));
    assert!(!body_reports_missing_session(""));
    assert!(!body_reports_missing_session("session id is required"));
}

#[test]
fn expired_session_keeps_unauthorized() {
    let body = "Unauthorized: Session not found";
    assert_eq!(rewrite_unauthorized_status(401, body_reports_missing_session(body)), 401);
    let body = "Unauthorized: Session ID is required";
    assert_eq!(rewrite_unauthorized_status(401, body_reports_missing_session(body)), 400);
}

#[test]
fn probe_response_is_a_keep_alive_stream() {
    let r = initial_sse_probe_response();
    assert_eq!(r.status, 200);
    assert_eq!(r.content_type, "text/event-stream");
    assert_eq!(r.cache_control, "no-cache");
    assert_eq!(r.body, ": keep-alive\n\n");
}

#[test]
fn sse_bodies_are_split_into_events() {
    assert_eq!(
        parse_sse_events("event: a\ndata: 1\n\nevent: b\n\n"),
        vec!["event: a\ndata: 1".to_string(), "event: b".to_string()]
    );
    assert_eq!(parse_sse_events(""), Vec::<String>::new());
    assert_eq!(parse_sse_events("a\n\n\nb"), vec!["a".to_string(), "\nb".to_string()]);
    assert_eq!(parse_sse_events("\n\n\n\n"), Vec::<String>::new());
    assert_eq!(parse_sse_events("x"), vec!["x".to_string()]);
}
