//! Decisions of the MCP tools and resources: argument checks, error reports, the
//! resource catalogue and how tool listings are shaped.
use vstd::prelude::*;

use crate::documents::DocumentIdentifier;
use crate::error::NeovimError;
use crate::keyed::KeyedStore;
use crate::logging::{preview_spec, preview_text};
use crate::text::{
    chars_vec, concat2, concat3, contains, contains_spec, decimal, ends_with,
    ends_with_spec, push_char, starts_with, starts_with_spec, string_from_range, to_decimal, trim,
    trim_spec,
};

verus! {

/// The kinds of MCP error that the tools report.
#[derive(Debug, Clone, Copy, PartialEq, Eq)]
pub enum ToolErrorKind {
    InvalidRequest,
    InvalidParams,
    InternalError,
    ResourceNotFound,
}

/// An MCP error: its kind, its message, and string-valued details.
#[derive(Debug, Clone)]
pub struct ToolError {
    pub kind: ToolErrorKind,
    pub message: String,
    pub data: Vec<(String, String)>,
}

/// The view of details.
pub open spec fn data_view(data: Seq<(String, String)>) -> Seq<(Seq<char>, Seq<char>)> {
    data.map_values(|e: (String, String)| (e.0@, e.1@))
}

/// An error without details.
fn plain_error(kind: ToolErrorKind, message: String) -> (res: ToolError)
    ensures
        res.kind == kind,
        res.message == message,
        res.data@.len() == 0,
{
    ToolError { kind, message, data: Vec::new() }
}

/// `address` looks like a Unix socket path rather than a TCP address: an absolute path
/// with no `:` that is not a bracketed IPv6 host, a `.sock` file, a path holding both
/// `/nvim` and `.sock`, or any address under `/tmp/`, `/var/run/` or `/usr/local/`.
/// Under those three directories the address counts as a socket path whatever it
/// holds: the check meant to spare addresses with a port (`!count >= 2` on the number
/// of `:`, a bitwise complement) holds for every count, so a `:` there changes nothing.
pub open spec fn is_unix_socket_path_spec(address: Seq<char>) -> bool {
    ||| (starts_with_spec(address, "/"@) && !contains_spec(address, ":"@) && !starts_with_spec(
        address,
        "/["@,
    ))
    ||| ends_with_spec(address, ".sock"@)
    ||| (contains_spec(address, "/nvim"@) && contains_spec(address, ".sock"@))
    ||| starts_with_spec(address, "/tmp/"@)
    ||| starts_with_spec(address, "/var/run/"@)
    ||| starts_with_spec(address, "/usr/local/"@)
}

/// Whether `address` looks like a Unix socket path, which the TCP connection tool
/// refuses.
pub fn is_unix_socket_path(address: &str) -> (res: bool)
    ensures
        res == is_unix_socket_path_spec(address@),
{
    let chars = chars_vec(address);
    if starts_with(&chars, "/") && !contains(&chars, ":") && !starts_with(&chars, "/[") {
        return true;
    }
    if ends_with(&chars, ".sock") || contains(&chars, "/nvim") && contains(&chars, ".sock") {
        return true;
    }
    starts_with(&chars, "/tmp/") || starts_with(&chars, "/var/run/") || starts_with(
        &chars,
        "/usr/local/",
    )
}

/// Checks the address given to the TCP connection tool: a Unix socket path is refused
/// with a pointer to the socket connection tool.
pub fn connect_tcp_precheck(address: &str) -> (res: Result<(), ToolError>)
    ensures
        is_unix_socket_path_spec(address@) <==> res is Err,
        res matches Err(e) ==> e.kind == ToolErrorKind::InvalidParams && e.message@ == "The address '"@
            + address@
            + "' appears to be a Unix socket path. Please use the 'connect' tool instead of 'connect_tcp' for Unix socket connections."@
            && data_view(e.data@) == seq![
            ("address"@, address@),
            ("suggested_tool"@, "connect"@),
            ("reason"@, "Unix socket paths should use the 'connect' tool"@),
        ],
{
    if !is_unix_socket_path(address) {
        return Ok(());
    }
    let message = concat3(
        "The address '",
        address,
        "' appears to be a Unix socket path. Please use the 'connect' tool instead of 'connect_tcp' for Unix socket connections.",
    );
    let mut data: Vec<(String, String)> = Vec::new();
    data.push(("address".to_owned(), address.to_owned()));
    data.push(("suggested_tool".to_owned(), "connect".to_owned()));
    data.push(("reason".to_owned(), "Unix socket paths should use the 'connect' tool".to_owned()));
    let e = ToolError { kind: ToolErrorKind::InvalidParams, message, data };
    assert(data_view(e.data@) =~= seq![
        ("address"@, address@),
        ("suggested_tool"@, "connect"@),
        ("reason"@, "Unix socket paths should use the 'connect' tool"@),
    ]);
    Err(e)
}

/// The error for a connection id that names no connection.
pub fn connection_not_found(connection_id: &str) -> (res: ToolError)
    ensures
        res.kind == ToolErrorKind::InvalidRequest,
        res.message@ == "No Neovim connection found for ID: "@ + connection_id@,
        res.data@.len() == 0,
{
    plain_error(
        ToolErrorKind::InvalidRequest,
        concat2("No Neovim connection found for ID: ", connection_id),
    )
}

/// The discovered targets, or an error when there are none.
pub fn targets_outcome(targets: Vec<String>) -> (res: Result<Vec<String>, ToolError>)
    ensures
        targets@.len() > 0 ==> res == Ok::<Vec<String>, ToolError>(targets),
        targets@.len() == 0 ==> (res matches Err(e) && e.kind == ToolErrorKind::InvalidRequest
            && e.message@ == "No Neovim targets found"@),
{
    if targets.len() == 0 {
        Err(plain_error(ToolErrorKind::InvalidRequest, "No Neovim targets found".to_owned()))
    } else {
        Ok(targets)
    }
}

/// The MCP error that stands for an error of a Neovim operation: a connection problem
/// is an invalid request, anything else an internal error.
pub fn tool_error_from_neovim(e: NeovimError) -> (res: ToolError)
    ensures
        match e {
            NeovimError::Connection(msg) => res.kind == ToolErrorKind::InvalidRequest && res.message
                == msg,
            NeovimError::Api(msg) => res.kind == ToolErrorKind::InternalError && res.message == msg,
        },
        res.data@.len() == 0,
{
    match e {
        NeovimError::Connection(msg) => plain_error(ToolErrorKind::InvalidRequest, msg),
        NeovimError::Api(msg) => plain_error(ToolErrorKind::InternalError, msg),
    }
}

/// The error when a connection could not be closed.
pub fn disconnect_failed(e: &NeovimError) -> (res: ToolError)
    ensures
        res.kind == ToolErrorKind::InternalError,
        res.message@ == "Failed to disconnect: "@ + crate::error::neovim_error_text(*e),
        res.data@.len() == 0,
{
    let text = e.to_display_string();
    plain_error(ToolErrorKind::InternalError, concat2("Failed to disconnect: ", text.as_str()))
}

/// Settles the connections after an attempt to connect under `id`, for which the
/// client that held `id` before (`previous`) was taken out: a new client takes `id`;
/// after a failure the previous client, if any, gets `id` back, and the failure is
/// handed on.
pub fn settle_connection<V, E>(
    store: &mut KeyedStore<V>,
    id: String,
    previous: Option<V>,
    outcome: Result<V, E>,
) -> (res: Result<String, E>)
    ensures
        match outcome {
            Ok(client) => final(store)@ == old(store)@.insert(id@, client) && (res matches Ok(
                r,
            ) && r@ == id@),
            Err(e) => res == Err::<String, E>(e) && final(store)@ == match previous {
                Some(p) => old(store)@.insert(id@, p),
                None => old(store)@,
            },
        },
{
    match outcome {
        Ok(client) => {
            let settled = id.clone();
            let _ = store.insert(id, client);
            Ok(settled)
        },
        Err(e) => {
            match previous {
                Some(p) => {
                    let _ = store.insert(id, p);
                },
                None => {},
            }
            Err(e)
        },
    }
}

/// The target of a connection as reported, `Unknown` when it has none.
pub fn target_label(target: Option<String>) -> (res: String)
    ensures
        match target {
            Some(t) => res == t,
            None => res@ == "Unknown"@,
        },
{
    match target {
        Some(t) => t,
        None => "Unknown".to_owned(),
    }
}

/// The target label of a connection as reported: the target, or `Unknown`.
pub open spec fn target_label_spec(target: Option<Seq<char>>) -> Seq<char> {
    match target {
        Some(t) => t,
        None => "Unknown"@,
    }
}

/// The connections as listed by the connections resource: each id with its target
/// label, in the order given.
pub fn connection_entries(connections: Vec<(String, Option<String>)>) -> (res: Vec<(String, String)>)
    ensures
        res@.len() == connections@.len(),
        forall|i: int|
            0 <= i < res@.len() ==> #[trigger] res@[i].0@ == connections@[i].0@ && res@[i].1@
                == target_label_spec(crate::logging::opt_view(connections@[i].1)),
{
    let ghost all = connections@;
    let mut res: Vec<(String, String)> = Vec::new();
    for entry in it: connections.into_iter()
        invariant
            it.seq() == all,
            res@.len() == it.index(),
            forall|i: int|
                0 <= i < res@.len() ==> #[trigger] res@[i].0@ == all[i].0@ && res@[i].1@
                    == target_label_spec(crate::logging::opt_view(all[i].1)),
    {
        proof {
            reveal_strlit("Unknown");
        }
        let ghost i = it.index();
        let (id, target) = entry;
        let label = target_label(target);
        res.push((id, label));
        assert(res@[i].0@ == all[i].0@);
    }
    res
}

/// The BLAKE3 hash of a text's UTF-8 bytes, written as lowercase hexadecimal digits.
pub uninterp spec fn blake3_hex(s: Seq<char>) -> Seq<char>;

/// `blake3::hash` of the UTF-8 bytes of `s`, turned into text by `Hash::to_hex`: the
/// 32-byte digest as 64 lowercase hexadecimal digits, which depend on `s` alone.
#[verifier::external_body]
fn blake3_hex_of(s: &str) -> (res: String)
    ensures
        res@ == blake3_hex(s@),
        res@.len() == 64,
{
    blake3::hash(s.as_bytes()).to_hex().to_string()
}

/// How many hexadecimal digits of the hash a connection id keeps.
pub const CONNECTION_ID_LENGTH: usize = 7;

/// The connection id of a target: the first `CONNECTION_ID_LENGTH` digits of the BLAKE3
/// hash of the target, so that one target always gets the same id.
pub fn generate_shorter_connection_id(target: &str) -> (res: String)
    ensures
        res@ == blake3_hex(target@).take(CONNECTION_ID_LENGTH as int),
        res@.len() == CONNECTION_ID_LENGTH,
{
    let hex = blake3_hex_of(target);
    let digits = chars_vec(hex.as_str());
    let res = string_from_range(&digits, 0, CONNECTION_ID_LENGTH);
    assert(digits@.subrange(0, CONNECTION_ID_LENGTH as int) =~= blake3_hex(target@).take(
        CONNECTION_ID_LENGTH as int,
    ));
    res
}

/// A short description of a document for log lines.
pub open spec fn summarize_document_spec(document: DocumentIdentifier) -> Seq<char> {
    match document {
        DocumentIdentifier::BufferId(id) => "buffer_id="@ + decimal(id as nat),
        DocumentIdentifier::ProjectRelativePath(path) => "project_relative_path="@ + preview_spec(
            path@,
            80,
        ),
        DocumentIdentifier::AbsolutePath(path) => "absolute_path="@ + preview_spec(path@, 80),
    }
}

/// A short description of a document for log lines.
pub fn summarize_document(document: &DocumentIdentifier) -> (res: String)
    ensures
        res@ == summarize_document_spec(*document),
{
    match document {
        DocumentIdentifier::BufferId(id) => {
            let digits = to_decimal(*id);
            concat2("buffer_id=", digits.as_str())
        },
        DocumentIdentifier::ProjectRelativePath(path) => {
            let preview = preview_text(path.as_str(), 80);
            concat2("project_relative_path=", preview.as_str())
        },
        DocumentIdentifier::AbsolutePath(path) => {
            let preview = preview_text(path.as_str(), 80);
            concat2("absolute_path=", preview.as_str())
        },
    }
}

/// A resource offered to clients.
#[derive(Debug, Clone)]
pub struct ResourceDescriptor {
    pub uri: String,
    pub name: String,
    pub description: Option<String>,
    pub mime_type: String,
}

/// A resource with the given URI, name and description, served as JSON.
pub fn new_resource(uri: &str, name: &str, description: Option<&str>) -> (res: ResourceDescriptor)
    ensures
        res.uri@ == uri@,
        res.name@ == name@,
        match description {
            Some(d) => res.description matches Some(rd) && rd@ == d@,
            None => res.description is None,
        },
        res.mime_type@ == "application/json"@,
{
    let description = match description {
        Some(d) => Some(d.to_owned()),
        None => None,
    };
    ResourceDescriptor {
        uri: uri.to_owned(),
        name: name.to_owned(),
        description,
        mime_type: "application/json".to_owned(),
    }
}

/// The resource descriptor as plain sequences: URI, name, description.
pub open spec fn resource_view(r: ResourceDescriptor) -> (Seq<char>, Seq<char>, Option<Seq<char>>) {
    (
        r.uri@,
        r.name@,
        match r.description {
            Some(d) => Some(d@),
            None => None,
        },
    )
}

/// The resource that lists the tools of one connection.
pub open spec fn connection_resource(id: Seq<char>) -> (Seq<char>, Seq<char>, Option<Seq<char>>) {
    (
        "nvim-tools://"@ + id,
        "Tools for Connection ("@ + id + ")"@,
        Some("List of tools available for connection "@ + id),
    )
}

/// The resources listed for the given connections: the connection list, the tool
/// overview, then one tool list per connection.
pub open spec fn listed_resources(connection_ids: Seq<Seq<char>>) -> Seq<
    (Seq<char>, Seq<char>, Option<Seq<char>>),
> {
    seq![
        ("nvim-connections://"@, "Active Neovim Connections"@, Some("List of active Neovim connections"@)),
        ("nvim-tools://"@, "Tool Registration Overview"@, Some("Overview of all tools and their connection mappings"@)),
    ] + connection_ids.map_values(|id: Seq<char>| connection_resource(id))
}

/// The resources listed for connections start with the connection list and the tool
/// overview, then offer one tool list per connection, in order: the resource at
/// position `2 + i` is `nvim-tools://` followed by the `i`-th id, named after that
/// id, so reading its URI back gives that connection's id.
pub proof fn law_listed_tool_resources_round_trip(connection_ids: Seq<Seq<char>>, i: int)
    requires
        0 <= i < connection_ids.len(),
    ensures
        listed_resources(connection_ids).len() == connection_ids.len() + 2,
        listed_resources(connection_ids)[0].0 == "nvim-connections://"@,
        listed_resources(connection_ids)[1].0 == "nvim-tools://"@,
        listed_resources(connection_ids)[2 + i].0 == "nvim-tools://"@ + connection_ids[i],
        listed_resources(connection_ids)[2 + i].1 == "Tools for Connection ("@ + connection_ids[i]
            + ")"@,
        starts_with_spec(listed_resources(connection_ids)[2 + i].0, "nvim-tools://"@),
        listed_resources(connection_ids)[2 + i].0.skip(13) == connection_ids[i],
        connection_ids[i].len() > 0 ==> listed_resources(connection_ids)[2 + i].0
            != "nvim-tools://"@,
{
    reveal_strlit("nvim-tools://");
    let u = listed_resources(connection_ids)[2 + i].0;
    assert(u == "nvim-tools://"@ + connection_ids[i]);
    assert(u.subrange(0, 13) =~= "nvim-tools://"@);
    assert(u.skip(13) =~= connection_ids[i]);
    if connection_ids[i].len() > 0 {
        assert(u.len() > "nvim-tools://"@.len());
    }
}

/// The resources offered while the given connections exist.
pub fn list_resources(connection_ids: &Vec<String>) -> (res: Vec<ResourceDescriptor>)
    ensures
        res@.map_values(|r: ResourceDescriptor| resource_view(r)) == listed_resources(
            connection_ids@.map_values(|s: String| s@),
        ),
        forall|i: int| 0 <= i < res@.len() ==> (#[trigger] res@[i]).mime_type@ == "application/json"@,
{
    let mut res: Vec<ResourceDescriptor> = Vec::new();
    res.push(
        new_resource(
            "nvim-connections://",
            "Active Neovim Connections",
            Some("List of active Neovim connections"),
        ),
    );
    res.push(
        new_resource(
            "nvim-tools://",
            "Tool Registration Overview",
            Some("Overview of all tools and their connection mappings"),
        ),
    );
    let ghost ids = connection_ids@.map_values(|s: String| s@);
    let ghost head = seq![
        ("nvim-connections://"@, "Active Neovim Connections"@, Some("List of active Neovim connections"@)),
        ("nvim-tools://"@, "Tool Registration Overview"@, Some("Overview of all tools and their connection mappings"@)),
    ];
    assert(res@.map_values(|r: ResourceDescriptor| resource_view(r)) =~= head);
    let mut i: usize = 0;
    while i < connection_ids.len()
        invariant
            i <= connection_ids@.len(),
            ids == connection_ids@.map_values(|s: String| s@),
            res@.map_values(|r: ResourceDescriptor| resource_view(r)) == head + ids.take(
                i as int,
            ).map_values(|id: Seq<char>| connection_resource(id)),
            forall|j: int| 0 <= j < res@.len() ==> (#[trigger] res@[j]).mime_type@ == "application/json"@,
        decreases connection_ids.len() - i,
    {
        let id = connection_ids[i].as_str();
        let uri = concat2("nvim-tools://", id);
        let name = concat3("Tools for Connection (", id, ")");
        let description = concat2("List of tools available for connection ", id);
        let r = new_resource(uri.as_str(), name.as_str(), Some(description.as_str()));
        let ghost before = res@;
        res.push(r);
        proof {
            assert(ids[i as int] == id@);
            assert(ids.take(i + 1) =~= ids.take(i as int).push(id@));
            assert(ids.take(i + 1).map_values(|id: Seq<char>| connection_resource(id)) =~= ids.take(
                i as int,
            ).map_values(|id: Seq<char>| connection_resource(id)).push(connection_resource(id@)));
            assert(resource_view(r) == connection_resource(id@));
            assert(res@.map_values(|r: ResourceDescriptor| resource_view(r)) =~= before.map_values(
                |r: ResourceDescriptor| resource_view(r),
            ).push(resource_view(r)));
        }
        i = i + 1;
    }
    assert(ids.take(connection_ids@.len() as int) =~= ids);
    res
}

/// What a resource URI asks for.
#[derive(Debug, Clone)]
pub enum ResourceRequest {
    /// `nvim-connections://`: the active connections.
    Connections,
    /// `nvim-tools://`: all tools and their connection mappings.
    ToolsOverview,
    /// `nvim-tools://{connection_id}`: the tools of one connection.
    ConnectionTools(String),
    /// Any other URI.
    NotFound,
}

const TOOLS_PREFIX_LEN: usize = 13;

/// Classifies a resource URI.
pub fn classify_resource_uri(uri: &str) -> (res: ResourceRequest)
    ensures
        uri@ == "nvim-connections://"@ ==> res is Connections,
        uri@ == "nvim-tools://"@ ==> res is ToolsOverview,
        uri@ != "nvim-tools://"@ && starts_with_spec(uri@, "nvim-tools://"@) ==> (res matches ResourceRequest::ConnectionTools(id) && id@ == uri@.skip(13) && id@.len() > 0),
        uri@ != "nvim-connections://"@ && !starts_with_spec(uri@, "nvim-tools://"@) ==> res is NotFound,
{
    proof {
        reveal_strlit("nvim-tools://");
        reveal_strlit("nvim-connections://");
        assert("nvim-connections://"@[5] != "nvim-tools://"@[5]);
        assert("nvim-connections://"@.subrange(0, 13)[5] == "nvim-connections://"@[5]);
        assert("nvim-tools://"@.subrange(0, 13) =~= "nvim-tools://"@);
    }
    if crate::text::str_eq(uri, "nvim-connections://") {
        return ResourceRequest::Connections;
    }
    if crate::text::str_eq(uri, "nvim-tools://") {
        return ResourceRequest::ToolsOverview;
    }
    let chars = chars_vec(uri);
    if starts_with(&chars, "nvim-tools://") {
        let id = crate::text::string_from_range(&chars, TOOLS_PREFIX_LEN, chars.len());
        proof {
            assert(chars@.subrange(13, chars@.len() as int) =~= uri@.skip(13));
            if uri@.len() == 13 {
                assert(uri@ =~= chars@.subrange(0, 13));
            }
        }
        return ResourceRequest::ConnectionTools(id);
    }
    ResourceRequest::NotFound
}

/// The error for a URI that names no resource.
pub fn resource_not_found(uri: &str) -> (res: ToolError)
    ensures
        res.kind == ToolErrorKind::ResourceNotFound,
        res.message@ == "resource_not_found"@,
        data_view(res.data@) == seq![("uri"@, uri@)],
{
    let mut data: Vec<(String, String)> = Vec::new();
    data.push(("uri".to_owned(), uri.to_owned()));
    let e = ToolError {
        kind: ToolErrorKind::ResourceNotFound,
        message: "resource_not_found".to_owned(),
        data,
    };
    assert(data_view(e.data@) =~= seq![("uri"@, uri@)]);
    e
}

/// A tool as listed for a connection.
#[derive(Debug, Clone)]
pub struct ToolInfo {
    pub name: String,
    pub description: String,
    pub is_static: bool,
}

/// How a tool is labelled: `static` tools serve every connection, `dynamic` ones a
/// single connection.
pub fn tool_kind_label(is_static: bool) -> (res: &'static str)
    ensures
        res@ == (if is_static {
            "static"@
        } else {
            "dynamic"@
        }),
{
    if is_static {
        "static"
    } else {
        "dynamic"
    }
}

/// The tools of `tools` whose flag is `false`, in order.
pub open spec fn unflagged<T>(tools: Seq<(T, bool)>) -> Seq<T>
    decreases tools.len(),
{
    if tools.len() == 0 {
        Seq::empty()
    } else if !tools.last().1 {
        unflagged(tools.drop_last()).push(tools.last().0)
    } else {
        unflagged(tools.drop_last())
    }
}

/// The tools listed while nothing is connected are exactly those that take no
/// connection id, in their order: every flagged tool is dropped and every unflagged
/// one kept.
pub proof fn law_unflagged_keeps_exactly_unflagged<T>(tools: Seq<(T, bool)>)
    ensures
        unflagged(tools) == tools.filter(|e: (T, bool)| !e.1).map_values(|e: (T, bool)| e.0),
    decreases tools.len(),
{
    reveal_with_fuel(Seq::filter, 1);
    if tools.len() > 0 {
        let front = tools.drop_last();
        law_unflagged_keeps_exactly_unflagged(front);
        let f = front.filter(|e: (T, bool)| !e.1);
        if !tools.last().1 {
            assert(tools.filter(|e: (T, bool)| !e.1) == f.push(tools.last()));
            assert(f.push(tools.last()).map_values(|e: (T, bool)| e.0) =~= f.map_values(
                |e: (T, bool)| e.0,
            ).push(tools.last().0));
        } else {
            assert(tools.filter(|e: (T, bool)| !e.1) == f);
        }
    } else {
        assert(tools.filter(|e: (T, bool)| !e.1).map_values(|e: (T, bool)| e.0) =~= Seq::<
            T,
        >::empty());
    }
}

/// The entries whose flag is `false`, in order.
pub fn keep_unflagged<T>(tools: Vec<(T, bool)>) -> (res: Vec<T>)
    ensures
        res@ == unflagged(tools@),
{
    let ghost all = tools@;
    let mut kept: Vec<T> = Vec::new();
    for entry in it: tools.into_iter()
        invariant
            it.seq() == all,
            kept@ == unflagged(all.take(it.index() as int)),
    {
        let ghost i = it.index();
        proof {
            assert(all.take(i + 1).drop_last() =~= all.take(i as int));
            assert(all.take(i + 1).last() == entry);
        }
        let (tool, flagged) = entry;
        if !flagged {
            kept.push(tool);
        }
    }
    assert(all.take(all.len() as int) =~= all);
    kept
}

/// The connection-specific (dynamic) tools among `tools`, in order.
pub fn dynamic_tools(tools: Vec<ToolInfo>) -> (res: Vec<ToolInfo>)
    ensures
        res@ == tools@.filter(|t: ToolInfo| !t.is_static),
{
    let ghost all = tools@;
    let mut kept: Vec<ToolInfo> = Vec::new();
    for tool in it: tools.into_iter()
        invariant
            it.seq() == all,
            kept@ == all.take(it.index() as int).filter(|t: ToolInfo| !t.is_static),
    {
        let ghost i = it.index();
        proof {
            assert(all.take(i + 1).drop_last() =~= all.take(i as int));
            assert(all.take(i + 1).last() == tool);
            reveal_with_fuel(Seq::filter, 1);
        }
        if !tool.is_static {
            kept.push(tool);
        }
    }
    assert(all.take(all.len() as int) =~= all);
    kept
}

/// The tools listed to a client: all of them while a connection exists; otherwise only
/// those that take no connection id (flagged `true` when they take one).
pub fn filter_connection_tools<T>(tools: Vec<(T, bool)>, has_connections: bool) -> (res: Vec<T>)
    ensures
        has_connections ==> res@ == tools@.map_values(|e: (T, bool)| e.0),
        !has_connections ==> res@ == unflagged(tools@),
{
    if has_connections {
        let ghost all = tools@;
        let mut kept: Vec<T> = Vec::new();
        for entry in it: tools.into_iter()
            invariant
                it.seq() == all,
                kept@ == all.take(it.index() as int).map_values(|e: (T, bool)| e.0),
        {
            let ghost i = it.index();
            proof {
                assert(all.take(i + 1) =~= all.take(i as int).push(entry));
                assert(all.take(i + 1).map_values(|e: (T, bool)| e.0) =~= all.take(
                    i as int,
                ).map_values(|e: (T, bool)| e.0).push(entry.0));
            }
            let (tool, _) = entry;
            kept.push(tool);
        }
        assert(all.take(all.len() as int) =~= all);
        kept
    } else {
        keep_unflagged(tools)
    }
}

/// A tool description extended by `extra`: the two paragraphs separated by a blank
/// line and trimmed, or `extra` alone when there was no description.
pub open spec fn merged_description_spec(description: Option<Seq<char>>, extra: Seq<char>) -> Seq<char> {
    match description {
        Some(d) => trim_spec(d + seq!['\n', '\n'] + extra),
        None => extra,
    }
}

/// Appends an extra paragraph to a tool description.
pub fn merge_tool_description(description: Option<&str>, extra: &str) -> (res: String)
    ensures
        res@ == merged_description_spec(
            match description {
                Some(d) => Some(d@),
                None => None,
            },
            extra@,
        ),
{
    match description {
        Some(d) => {
            let mut joined = d.to_owned();
            push_char(&mut joined, '\n');
            push_char(&mut joined, '\n');
            joined.append(extra);
            assert(joined@ =~= d@ + seq!['\n', '\n'] + extra@);
            trim(joined.as_str())
        },
        None => extra.to_owned(),
    }
}

/// The extra description of a tool: the connection instructions for `get_targets`,
/// nothing for the others.
pub fn get_tool_extra_description(name: &str, connections_instruction: &str) -> (res: Option<String>)
    ensures
        name@ == "get_targets"@ ==> (res matches Some(s) && s@ == connections_instruction@),
        name@ != "get_targets"@ ==> res is None,
{
    if crate::text::str_eq(name, "get_targets") {
        Some(connections_instruction.to_owned())
    } else {
        None
    }
}

} // verus!
