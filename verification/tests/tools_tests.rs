use nvim_mcp::documents::DocumentIdentifier;
use nvim_mcp::error::NeovimError;
use nvim_mcp::server::{
    classify_resource_uri, connect_tcp_precheck, connection_entries, generate_shorter_connection_id, connection_not_found, disconnect_failed,
    dynamic_tools, filter_connection_tools, get_tool_extra_description, is_unix_socket_path,
    list_resources, merge_tool_description, new_resource, resource_not_found, summarize_document,
    target_label, targets_outcome, tool_error_from_neovim, tool_kind_label, ResourceRequest,
    ToolErrorKind, ToolInfo,
};

#[test]
fn test_is_unix_socket_path() {
    // Unix socket paths should be detected
    assert!(is_unix_socket_path("/tmp/nvim.sock"));
    assert!(is_unix_socket_path("/tmp/nvim-mcp.test.sock"));
    assert!(is_unix_socket_path("/var/run/nvim.sock"));
    assert!(is_unix_socket_path("/usr/local/bin/nvim.sock"));

    // TCP addresses should not be detected as Unix sockets
    assert!(!is_unix_socket_path("127.0.0.1:6666"));
    assert!(!is_unix_socket_path("localhost:8080"));
    assert!(!is_unix_socket_path("192.168.1.1:9000"));
    assert!(!is_unix_socket_path("[::1]:6666"));
}

#[test]
fn socket_path_edge_cases() {
    assert!(is_unix_socket_path("/run/user/1000/nvim.1234.0"));
    assert!(!is_unix_socket_path("/[::1]:6666"));
    assert!(is_unix_socket_path("relative/thing.sock"));
    assert!(is_unix_socket_path("x/nvim-y.sockets"));
    assert!(is_unix_socket_path("/tmp/host:1"));
    assert!(!is_unix_socket_path("/opt/host:1"));
    assert!(!is_unix_socket_path(""));
}

#[test]
fn connect_tcp_refuses_socket_paths() {
    assert!(connect_tcp_precheck("127.0.0.1:6666").is_ok());
    let err = connect_tcp_precheck("/tmp/nvim.sock").unwrap_err();
    assert_eq!(err.kind, ToolErrorKind::InvalidParams);
    assert_eq!(
        err.message,
        "The address '/tmp/nvim.sock' appears to be a Unix socket path. Please use the 'connect' tool instead of 'connect_tcp' for Unix socket connections."
    );
    assert_eq!(
        err.data,
        vec![
            ("address".to_string(), "/tmp/nvim.sock".to_string()),
            ("suggested_tool".to_string(), "connect".to_string()),
            ("reason".to_string(), "Unix socket paths should use the 'connect' tool".to_string()),
        ]
    );
}

#[test]
fn errors_of_the_connection_tools() {
    let e = connection_not_found("abc");
    assert_eq!(e.kind, ToolErrorKind::InvalidRequest);
    assert_eq!(e.message, "No Neovim connection found for ID: abc");
    assert!(e.message.contains("No Neovim connection found"));

    let e = targets_outcome(vec![]).unwrap_err();
    assert_eq!(e.kind, ToolErrorKind::InvalidRequest);
    assert_eq!(e.message, "No Neovim targets found");
    assert_eq!(targets_outcome(vec!["/tmp/a".to_string()]).unwrap(), vec!["/tmp/a".to_string()]);

    let e = disconnect_failed(&NeovimError::Connection("Not connected to any Neovim instance".to_string()));
    assert_eq!(e.kind, ToolErrorKind::InternalError);
    assert_eq!(e.message, "Failed to disconnect: Connection error: Not connected to any Neovim instance");

    let e = tool_error_from_neovim(NeovimError::Api("boom".to_string()));
    assert_eq!((e.kind, e.message.as_str()), (ToolErrorKind::InternalError, "boom"));
    let e = tool_error_from_neovim(NeovimError::Connection("gone".to_string()));
    assert_eq!((e.kind, e.message.as_str()), (ToolErrorKind::InvalidRequest, "gone"));

    assert_eq!(target_label(None), "Unknown");
    assert_eq!(target_label(Some("/tmp/x".to_string())), "/tmp/x");
}

#[test]
fn documents_are_summarized() {
    assert_eq!(summarize_document(&DocumentIdentifier::BufferId(42)), "buffer_id=42");
    assert_eq!(summarize_document(&DocumentIdentifier::BufferId(0)), "buffer_id=0");
    assert_eq!(
        summarize_document(&DocumentIdentifier::ProjectRelativePath("src/main.rs".to_string())),
        "project_relative_path=src/main.rs"
    );
    let long = "a".repeat(90);
    assert_eq!(
        summarize_document(&DocumentIdentifier::AbsolutePath(long)),
        format!("absolute_path={}...", "a".repeat(80))
    );
}

#[test]
fn resources_are_listed_per_connection() {
    let listed = list_resources(&vec!["c1".to_string(), "c2".to_string()]);
    assert_eq!(listed.len(), 4);
    assert_eq!(listed[0].uri, "nvim-connections://");
    assert_eq!(listed[0].name, "Active Neovim Connections");
    assert_eq!(listed[0].description.as_deref(), Some("List of active Neovim connections"));
    assert_eq!(listed[1].uri, "nvim-tools://");
    assert_eq!(listed[1].name, "Tool Registration Overview");
    assert_eq!(listed[2].uri, "nvim-tools://c1");
    assert_eq!(listed[2].name, "Tools for Connection (c1)");
    assert_eq!(listed[3].description.as_deref(), Some("List of tools available for connection c2"));
    assert!(listed.iter().all(|r| r.mime_type == "application/json"));
    assert_eq!(list_resources(&vec![]).len(), 2);

    let r = new_resource("u", "n", None);
    assert_eq!((r.uri.as_str(), r.name.as_str(), r.description), ("u", "n", None));
}

#[test]
fn resource_uris_are_classified() {
    assert!(matches!(classify_resource_uri("nvim-connections://"), ResourceRequest::Connections));
    assert!(matches!(classify_resource_uri("nvim-tools://"), ResourceRequest::ToolsOverview));
    match classify_resource_uri("nvim-tools://abc") {
        ResourceRequest::ConnectionTools(id) => assert_eq!(id, "abc"),
        other => panic!("unexpected {other:?}"),
    }
    assert!(matches!(classify_resource_uri("nvim-buffers://"), ResourceRequest::NotFound));
    assert!(matches!(classify_resource_uri("nvim-tools:/"), ResourceRequest::NotFound));
    let e = resource_not_found("x://");
    assert_eq!(e.kind, ToolErrorKind::ResourceNotFound);
    assert_eq!(e.message, "resource_not_found");
    assert_eq!(e.data, vec![("uri".to_string(), "x://".to_string())]);
}

#[test]
fn tool_listings_are_shaped() {
    assert_eq!(tool_kind_label(true), "static");
    assert_eq!(tool_kind_label(false), "dynamic");
    let tools = vec![
        ToolInfo { name: "a".to_string(), description: "A".to_string(), is_static: true },
        ToolInfo { name: "b".to_string(), description: "B".to_string(), is_static: false },
    ];
    let dynamic = dynamic_tools(tools);
    assert_eq!(dynamic.len(), 1);
    assert_eq!(dynamic[0].name, "b");

    let listed = vec![("get_targets", false), ("list_buffers", true), ("connect", false)];
    assert_eq!(filter_connection_tools(listed.clone(), false), vec!["get_targets", "connect"]);
    assert_eq!(filter_connection_tools(listed, true), vec!["get_targets", "list_buffers", "connect"]);
}

#[test]
fn tool_descriptions_are_extended() {
    assert_eq!(merge_tool_description(Some("Find targets. "), "Connected: none\n"), "Find targets. \n\nConnected: none");
    assert_eq!(merge_tool_description(None, " extra "), " extra ");
    assert_eq!(get_tool_extra_description("get_targets", "info"), Some("info".to_string()));
    assert_eq!(get_tool_extra_description("connect", "info"), None);
}

#[test]
fn connection_ids_are_short_stable_hashes() {
    let a = generate_shorter_connection_id("/tmp/nvim.sock");
    assert_eq!(a.chars().count(), 7);
    assert!(a.chars().all(|c| c.is_ascii_hexdigit() && !c.is_ascii_uppercase()));
    assert_eq!(a, generate_shorter_connection_id("/tmp/nvim.sock"));
    assert_ne!(a, generate_shorter_connection_id("127.0.0.1:6666"));
    assert_eq!(generate_shorter_connection_id("").chars().count(), 7);
}

#[test]
fn connections_are_listed_with_target_labels() {
    let listed = connection_entries(vec![
        ("abc1234".to_string(), Some("/tmp/n.sock".to_string())),
        ("def5678".to_string(), None),
    ]);
    assert_eq!(
        listed,
        vec![
            ("abc1234".to_string(), "/tmp/n.sock".to_string()),
            ("def5678".to_string(), "Unknown".to_string()),
        ]
    );
    assert!(connection_entries(Vec::new()).is_empty());
}
