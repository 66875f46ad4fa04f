use nvim_mcp::client::{
    buffer_uri_outcome, buffers_outcome, handle_request_reply, lua_execution_outcome,
    navigate_outcome, project_root_outcome, read_document_outcome, HandlerReply, NeovimClient,
};
use nvim_mcp::documents::{
    document_file, make_text_document_identifier_from_path, BufferInfo, DocumentIdentifier,
    NavigateResult, NeovimClientConfig, NvimExecuteLuaResult, ReadDocumentParams,
};
use nvim_mcp::error::NeovimError;

fn conn_err(msg: &str) -> NeovimError {
    NeovimError::Connection(msg.to_string())
}

fn api_err(msg: &str) -> NeovimError {
    NeovimError::Api(msg.to_string())
}

#[test]
fn client_connection_lifecycle() {
    let mut client = NeovimClient::new();
    assert_eq!(client.target(), None);
    assert!(!client.is_alive(false));
    assert!(client.check_can_connect().is_ok());
    assert_eq!(client.complete_connect("127.0.0.1:6666".to_string(), Ok(())), Ok(()));
    assert_eq!(client.target(), Some("127.0.0.1:6666".to_string()));
    assert!(client.is_alive(false));
    assert!(!client.is_alive(true));

    // Should not be able to connect twice
    let again = client.check_can_connect();
    assert_eq!(again, Err(conn_err("Already connected to 127.0.0.1:6666. Disconnect first.")));
    assert!(client.complete_connect("other".to_string(), Ok(())).is_err());
    assert_eq!(client.target(), Some("127.0.0.1:6666".to_string()));

    assert_eq!(client.disconnect(), Ok("127.0.0.1:6666".to_string()));
    assert_eq!(client.target(), None);
    // Should not be able to disconnect when not connected
    assert_eq!(client.disconnect(), Err(conn_err("Not connected to any Neovim instance")));

    // reconnect after disconnect
    assert!(client.complete_connect("/tmp/nvim.sock".to_string(), Ok(())).is_ok());
    assert_eq!(client.target(), Some("/tmp/nvim.sock".to_string()));
}

#[test]
fn failed_connection_leaves_client_unconnected() {
    let mut client = NeovimClient::default().with_config(NeovimClientConfig::default());
    let r = client.complete_connect("/tmp/x".to_string(), Err("No such file or directory".to_string()));
    assert_eq!(r, Err(conn_err("Connection failed: No such file or directory")));
    assert_eq!(client.target(), None);
}

#[test]
fn operations_need_a_connection() {
    let client = NeovimClient::new();
    assert_eq!(client.require_connection(), Err(conn_err("Not connected to any Neovim instance")));
    // empty code is refused before the connection is looked at
    assert_eq!(client.check_lua_code(""), Err(api_err("Lua code cannot be empty")));
    assert_eq!(client.check_lua_code("  \n "), Err(api_err("Lua code cannot be empty")));
    assert_eq!(client.check_lua_code("return 1"), Err(conn_err("Not connected to any Neovim instance")));
    let mut connected = NeovimClient::new();
    connected.complete_connect("t".to_string(), Ok(())).unwrap();
    assert_eq!(connected.check_lua_code("return 42"), Ok(()));
    assert_eq!(connected.check_lua_code(""), Err(api_err("Lua code cannot be empty")));
}

#[test]
fn lua_answers_become_results() {
    assert_eq!(lua_execution_outcome::<i32>(Ok(42)), Ok(42));
    assert_eq!(
        lua_execution_outcome::<i32>(Err("syntax error".to_string())),
        Err(api_err("Lua execution failed: syntax error"))
    );
    let b = BufferInfo { id: 1, name: "a".to_string(), line_count: 3 };
    let listed = buffers_outcome(Ok(Ok(vec![b]))).unwrap();
    assert_eq!((listed[0].id, listed[0].line_count), (1, 3));
    assert_eq!(
        buffers_outcome(Err(conn_err("Not connected to any Neovim instance"))).unwrap_err(),
        api_err("Failed to get buffer info: Connection error: Not connected to any Neovim instance")
    );
    assert_eq!(
        buffers_outcome(Ok(Err("expected value".to_string()))).unwrap_err(),
        api_err("Failed to parse buffers: expected value")
    );
    assert_eq!(project_root_outcome(Ok(Some("/home/u".to_string()))), Ok("/home/u".to_string()));
    assert_eq!(project_root_outcome(Ok(None)), Err(api_err("Invalid working directory format")));
    assert_eq!(project_root_outcome(Err("e".to_string())), Err(api_err("Failed to get working directory: e")));
    let id = buffer_uri_outcome(Ok(Some("file:///a".to_string()))).unwrap();
    assert_eq!((id.uri.as_str(), id.version), ("file:///a", None));
    assert_eq!(buffer_uri_outcome(Ok(None)).unwrap_err(), api_err("Invalid buffer URI format"));
    assert_eq!(buffer_uri_outcome(Err("e".to_string())).unwrap_err(), api_err("Failed to get buffer URI: e"));
}

#[test]
fn navigate_and_read_answers() {
    let nav = NavigateResult { path: "/a.rs".to_string(), line: 2, column: 4 };
    let ok = navigate_outcome(Ok(Ok(NvimExecuteLuaResult::Success(nav)))).unwrap();
    assert_eq!((ok.path.as_str(), ok.line, ok.column), ("/a.rs", 2, 4));
    assert_eq!(
        navigate_outcome(Ok(Ok(NvimExecuteLuaResult::Error("no file".to_string())))).unwrap_err(),
        api_err("no file")
    );
    assert_eq!(navigate_outcome(Ok(Err("bad json".to_string()))).unwrap_err(), api_err("Failed to parse navigate result: bad json"));
    assert_eq!(navigate_outcome(Err("rpc".to_string())).unwrap_err(), api_err("Failed to navigate: rpc"));
    assert_eq!(
        read_document_outcome(Ok(Ok(NvimExecuteLuaResult::Success("text".to_string())))),
        Ok("text".to_string())
    );
    assert_eq!(read_document_outcome(Ok(Err("x".to_string()))).unwrap_err(), api_err("Failed to parse read document result: x"));
    assert_eq!(read_document_outcome(Err("y".to_string())).unwrap_err(), api_err("Failed to get read document: y"));
    let r: Result<String, NeovimError> = NvimExecuteLuaResult::Error("m".to_string()).into();
    assert_eq!(r, Err(api_err("m")));
}

#[test]
fn handler_answers_ping() {
    assert_eq!(handle_request_reply("ping"), HandlerReply::Pong);
    assert_eq!(handle_request_reply("pong"), HandlerReply::Nil);
}

#[test]
fn paths_and_documents() {
    let rel = |p: &str| DocumentIdentifier::from_project_path(p.to_string());
    assert_eq!(document_file(&rel("src/main.rs"), "/home/u/proj").as_deref(), Some("/home/u/proj/src/main.rs"));
    assert_eq!(document_file(&rel("src"), "/home/u/proj/").as_deref(), Some("/home/u/proj/src"));
    assert_eq!(document_file(&rel("/etc/hosts"), "/home/u").as_deref(), Some("/etc/hosts"));
    assert_eq!(document_file(&rel("a"), "").as_deref(), Some("a"));
    assert_eq!(document_file(&rel("lib.rs"), "/proj/").as_deref(), Some("/proj/lib.rs"));
    let joined = document_file(&rel("lib.rs"), "/proj").unwrap();
    assert!(joined.ends_with("lib.rs") && joined.len() > "lib.rs".len());
    assert_eq!(document_file(&DocumentIdentifier::from_absolute_path("/x".to_string()), "/r").as_deref(), Some("/x"));
    assert_eq!(document_file(&DocumentIdentifier::from_buffer_id(1), "/r"), None);

    let id = make_text_document_identifier_from_path("x", Ok("/abs/x".to_string())).unwrap();
    assert_eq!((id.uri.as_str(), id.version), ("file:///abs/x", None));
    assert_eq!(
        make_text_document_identifier_from_path("x", Err("No such file or directory (os error 2)".to_string())).unwrap_err(),
        api_err("Failed to resolve path x: No such file or directory (os error 2)")
    );

    let p = ReadDocumentParams::buffer_id(3, 0, -1);
    assert_eq!((p.buffer_id, p.file_path, p.start_line, p.end_line), (Some(3), None, 0, -1));
    let p = ReadDocumentParams::path("/f", 1, 2);
    assert_eq!((p.buffer_id, p.file_path.as_deref()), (None, Some("/f")));
    let rel = DocumentIdentifier::from_project_path("src/lib.rs".to_string());
    assert!(rel.needs_project_root());
    let p = ReadDocumentParams::for_document(&rel, 0, 10, document_file(&rel, "/proj"));
    assert_eq!(p.file_path.as_deref(), Some("/proj/src/lib.rs"));
    assert_eq!((p.buffer_id, p.start_line, p.end_line), (None, 0, 10));
    let abs = DocumentIdentifier::from_absolute_path("/x/y".to_string());
    assert!(!abs.needs_project_root());
    assert_eq!(ReadDocumentParams::for_document(&abs, 0, 10, document_file(&abs, "/ignored")).file_path.as_deref(), Some("/x/y"));
    let buf = DocumentIdentifier::from_buffer_id(9);
    let p = ReadDocumentParams::for_document(&buf, 0, 10, None);
    assert_eq!((p.buffer_id, p.file_path), (Some(9), None));
}
