use nvim_mcp::startup::{
    auto_connect_ids, http_bind_address, http_context_id, long_version,
    should_discover_lua_tools, specific_target_ids, ConnectBehavior,
};

#[test]
fn connect_modes_are_read() {
    assert_eq!(ConnectBehavior::parse("manual", false, false), Ok(ConnectBehavior::Manual));
    assert_eq!(ConnectBehavior::parse("auto", false, false), Ok(ConnectBehavior::Auto));
    assert_eq!(
        ConnectBehavior::parse("127.0.0.1:6666", true, false),
        Ok(ConnectBehavior::SpecificTarget("127.0.0.1:6666".to_string()))
    );
    assert_eq!(
        ConnectBehavior::parse("/tmp/nvim.sock", false, true),
        Ok(ConnectBehavior::SpecificTarget("/tmp/nvim.sock".to_string()))
    );
    assert_eq!(
        ConnectBehavior::parse("relative.sock", false, true),
        Err("Invalid target: 'relative.sock'. Must be 'manual', 'auto', TCP address (e.g., '127.0.0.1:6666'), or absolute socket path".to_string())
    );
    assert!(ConnectBehavior::parse("/missing/dir/sock", false, false).is_err());
}

#[test]
fn connect_modes_are_displayed() {
    assert_eq!(ConnectBehavior::Manual.to_display_string(), "manual");
    assert_eq!(ConnectBehavior::Auto.to_display_string(), "auto");
    assert_eq!(ConnectBehavior::SpecificTarget("x:1".to_string()).to_display_string(), "x:1");
}

#[test]
fn long_version_banner() {
    assert_eq!(
        long_version("0.1.0", "abc123", "2024-01-01", "false"),
        "0.1.0 (sha:\"abc123\", build_time:\"2024-01-01\")"
    );
    assert_eq!(
        long_version("0.1.0", "a\"b", "t", "true"),
        "0.1.0 (sha:\"a\\\"b\", build_time:\"t\")[dirty]"
    );
}

#[test]
fn startup_connections() {
    assert_eq!(auto_connect_ids(Ok(vec!["a".to_string()])), vec!["a".to_string()]);
    assert!(auto_connect_ids(Err(vec![("t".to_string(), "e".to_string())])).is_empty());
    assert_eq!(specific_target_ids("t", Ok("id".to_string())), Ok(vec!["id".to_string()]));
    assert_eq!(
        specific_target_ids("/tmp/s", Err("refused".to_string())),
        Err("Failed to connect to /tmp/s: refused".to_string())
    );
    assert!(should_discover_lua_tools(&vec!["a".to_string()]));
    assert!(!should_discover_lua_tools(&vec![]));
}

#[test]
fn http_addresses_and_context_ids() {
    assert_eq!(http_bind_address("127.0.0.1", 8080), "127.0.0.1:8080");
    assert_eq!(http_bind_address("0.0.0.0", 0), "0.0.0.0:0");
    assert_eq!(http_bind_address("h", 65535), "h:65535");
    assert_eq!(http_context_id("127.0.0.1:5000", "GET", "/mcp"), "http:127.0.0.1:5000:GET:/mcp");
}

#[test]
fn connect_target_rests_on_path_facts() {
    let invalid = |t: &str| {
        format!(
            "Invalid target: '{}'. Must be 'manual', 'auto', TCP address (e.g., '127.0.0.1:6666'), or absolute socket path",
            t
        )
    };
    assert_eq!(
        ConnectBehavior::parse_target("C:\\nvim", false, true, true),
        Ok(ConnectBehavior::SpecificTarget("C:\\nvim".to_string()))
    );
    assert_eq!(ConnectBehavior::parse_target("rel/sock", false, false, true), Err(invalid("rel/sock")));
    assert_eq!(ConnectBehavior::parse_target("/gone/sock", false, true, false), Err(invalid("/gone/sock")));
    assert_eq!(
        ConnectBehavior::parse_target("[::1]:6666", true, false, false),
        Ok(ConnectBehavior::SpecificTarget("[::1]:6666".to_string()))
    );
    assert_eq!(ConnectBehavior::parse_target("manual", true, true, true), Ok(ConnectBehavior::Manual));
    assert_eq!(ConnectBehavior::parse("", false, true), Err(invalid("")));
    assert_eq!(ConnectBehavior::parse("foo", false, true), Err(invalid("foo")));
    assert_eq!(
        ConnectBehavior::parse("/tmp", false, true),
        Ok(ConnectBehavior::SpecificTarget("/tmp".to_string()))
    );
}
