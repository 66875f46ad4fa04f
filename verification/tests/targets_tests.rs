use nvim_mcp::keyed::KeyedStore;
use nvim_mcp::server::settle_connection;
use nvim_mcp::targets::{announced_targets, escape_project_path, is_announced_socket};

fn names(list: &[&str]) -> Vec<String> {
    list.iter().map(|s| s.to_string()).collect()
}

#[test]
fn project_paths_are_escaped() {
    assert_eq!(escape_project_path("/home/user/my-project"), "%home%user%my-project");
    assert_eq!(escape_project_path("plain"), "plain");
    assert_eq!(escape_project_path(""), "");
}

#[test]
fn announced_socket_names() {
    assert!(is_announced_socket("nvim-mcp.%home%u%p.123.sock", None));
    assert!(is_announced_socket("nvim-mcp.%home%u%p.123.sock", Some("%home%u%p")));
    assert!(!is_announced_socket("nvim-mcp.%home%u%q.123.sock", Some("%home%u%p")));
    assert!(!is_announced_socket("nvim-mcp.sock", None));
    assert!(is_announced_socket("nvim-mcp..sock", None));
    assert!(!is_announced_socket("nvim.sock", None));
    assert!(!is_announced_socket("nvim-mcp.x.sock.log", None));
    assert!(is_announced_socket("nvim-mcp.%p..sock", Some("%p")));
    assert!(!is_announced_socket("nvim-mcp.%p.sock", Some("%p")));
    assert!(is_announced_socket("nvim-mcp.%p.1.sock", Some("%p")));
}

#[test]
fn announced_targets_are_filtered_and_ordered() {
    let found = announced_targets(
        names(&["nvim-mcp.b.2.sock", "other.txt", "nvim-mcp.a.9.sock", "nvim-mcp.a.10.sock"]),
        None,
    );
    assert_eq!(
        found,
        names(&["/tmp/nvim-mcp.a.10.sock", "/tmp/nvim-mcp.a.9.sock", "/tmp/nvim-mcp.b.2.sock"])
    );
    let mine = announced_targets(
        names(&["nvim-mcp.b.2.sock", "nvim-mcp.a.9.sock", "nvim-mcp.ab.1.sock"]),
        Some("a"),
    );
    assert_eq!(mine, names(&["/tmp/nvim-mcp.a.9.sock"]));
    assert!(announced_targets(Vec::new(), None).is_empty());
}

#[test]
fn failed_connection_restores_previous_client() {
    let mut store: KeyedStore<u32> = KeyedStore::new();
    assert_eq!(settle_connection(&mut store, "id1".to_string(), None, Ok::<u32, String>(5)), Ok("id1".to_string()));
    assert_eq!(store.get("id1"), Some(&5));
    assert_eq!(
        settle_connection(&mut store, "id2".to_string(), Some(7), Err::<u32, String>("boom".to_string())),
        Err("boom".to_string())
    );
    assert_eq!(store.get("id2"), Some(&7));
    assert_eq!(
        settle_connection(&mut store, "id3".to_string(), None, Err::<u32, String>("x".to_string())),
        Err("x".to_string())
    );
    assert_eq!(store.get("id3"), None);
    assert_eq!(settle_connection(&mut store, "id2".to_string(), Some(7), Ok::<u32, String>(8)), Ok("id2".to_string()));
    assert_eq!(store.get("id2"), Some(&8));
}
