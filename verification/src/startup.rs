//! Decisions taken when the server starts: the connection mode, the version banner,
//! and what the server does with the outcome of its first connections.
use vstd::prelude::*;

use crate::text::{chars_vec, concat2, concat3, decimal, push_char, push_decimal, str_eq};

verus! {

/// How the server connects to Neovim at startup.
#[derive(Debug, Clone, PartialEq, Eq)]
pub enum ConnectBehavior {
    /// Wait for the connection tools.
    Manual,
    /// Connect to every instance found for the current project.
    Auto,
    /// Connect to this TCP address or socket path.
    SpecificTarget(String),
}

/// The text that stands for a connection mode.
pub open spec fn connect_behavior_text(b: ConnectBehavior) -> Seq<char> {
    match b {
        ConnectBehavior::Manual => "manual"@,
        ConnectBehavior::Auto => "auto"@,
        ConnectBehavior::SpecificTarget(t) => t@,
    }
}

/// The `Debug` rendering of a string: quoted, with special characters escaped.
pub uninterp spec fn debug_str_text(s: Seq<char>) -> Seq<char>;

/// `format!("{:?}", s)` for a string slice.
#[verifier::external_body]
fn debug_str(s: &str) -> (res: String)
    ensures
        res@ == debug_str_text(s@),
{
    format!("{:?}", s)
}

/// A text holds a path separator: `/`, or `\` as some platforms also read it.
pub open spec fn has_separator(s: Seq<char>) -> bool {
    s.contains('/') || s.contains('\\')
}

/// Whether `s` is an absolute path (`std::path::Path::is_absolute`).  What counts as
/// absolute depends on the platform's path rules; on every platform an absolute path
/// has a root, which is written with a separator, so a text without `/` and `\` (the
/// empty path among them) is not absolute.
#[verifier::external_body]
fn path_is_absolute(s: &str) -> (res: bool)
    ensures
        !has_separator(s@) ==> !res,
{
    std::path::Path::new(s).is_absolute()
}

/// The error for a connection mode that is not understood.
pub open spec fn invalid_target_text(target: Seq<char>) -> Seq<char> {
    "Invalid target: '"@ + target
        + "'. Must be 'manual', 'auto', TCP address (e.g., '127.0.0.1:6666'), or absolute socket path"@
}

impl ConnectBehavior {
    /// The text that stands for the mode: `manual`, `auto`, or the target.
    pub fn to_display_string(&self) -> (res: String)
        ensures
            res@ == connect_behavior_text(*self),
    {
        match self {
            ConnectBehavior::Manual => "manual".to_owned(),
            ConnectBehavior::Auto => "auto".to_owned(),
            ConnectBehavior::SpecificTarget(t) => t.clone(),
        }
    }

    /// Reads a connection mode: `manual`, `auto`, a socket address, or an absolute path
    /// that exists or whose parent directory exists.  Whether `s` parses as a socket
    /// address (`is_socket_address`), whether it is an absolute path (`is_absolute`) and
    /// whether the path or its parent exists (`path_or_parent_exists`) are the facts the
    /// decision rests on.
    pub fn parse_target(
        s: &str,
        is_socket_address: bool,
        is_absolute: bool,
        path_or_parent_exists: bool,
    ) -> (res: Result<ConnectBehavior, String>)
        ensures
            s@ == "manual"@ ==> res == Ok::<ConnectBehavior, String>(ConnectBehavior::Manual),
            s@ == "auto"@ ==> res == Ok::<ConnectBehavior, String>(ConnectBehavior::Auto),
            s@ != "manual"@ && s@ != "auto"@ ==> match res {
                Ok(b) => (b matches ConnectBehavior::SpecificTarget(t) && t@ == s@) && (
                is_socket_address || (is_absolute && path_or_parent_exists)),
                Err(msg) => !is_socket_address && !(is_absolute && path_or_parent_exists) && msg@
                    == invalid_target_text(s@),
            },
    {
        proof {
            reveal_strlit("manual");
            reveal_strlit("auto");
            assert("manual"@.len() != "auto"@.len());
        }
        if str_eq(s, "manual") {
            return Ok(ConnectBehavior::Manual);
        }
        if str_eq(s, "auto") {
            return Ok(ConnectBehavior::Auto);
        }
        if is_socket_address || (is_absolute && path_or_parent_exists) {
            return Ok(ConnectBehavior::SpecificTarget(s.to_owned()));
        }
        Err(
            concat3(
                "Invalid target: '",
                s,
                "'. Must be 'manual', 'auto', TCP address (e.g., '127.0.0.1:6666'), or absolute socket path",
            ),
        )
    }

    /// Reads a connection mode as `parse_target` does, finding out itself whether `s`
    /// is an absolute path by the platform's path rules.  Whether `s` parses as a
    /// socket address and whether the path or its parent exists are found out by the
    /// caller, from the standard library's address syntax and from the file system.
    pub fn parse(s: &str, is_socket_address: bool, path_or_parent_exists: bool) -> (res: Result<
        ConnectBehavior,
        String,
    >)
        ensures
            s@ == "manual"@ ==> res == Ok::<ConnectBehavior, String>(ConnectBehavior::Manual),
            s@ == "auto"@ ==> res == Ok::<ConnectBehavior, String>(ConnectBehavior::Auto),
            s@ != "manual"@ && s@ != "auto"@ ==> match res {
                Ok(b) => (b matches ConnectBehavior::SpecificTarget(t) && t@ == s@) && (
                is_socket_address || path_or_parent_exists),
                Err(msg) => !is_socket_address && msg@ == invalid_target_text(s@),
            },
            s@ != "manual"@ && s@ != "auto"@ && is_socket_address ==> (res matches Ok(
                ConnectBehavior::SpecificTarget(t),
            ) && t@ == s@),
            s@ != "manual"@ && s@ != "auto"@ && !is_socket_address && !path_or_parent_exists ==> (
            res matches Err(msg) && msg@ == invalid_target_text(s@)),
            s@ != "manual"@ && s@ != "auto"@ && !is_socket_address && !has_separator(s@) ==> (
            res matches Err(msg) && msg@ == invalid_target_text(s@)),
    {
        proof {
            reveal_strlit("manual");
            reveal_strlit("auto");
        }
        let is_absolute = path_is_absolute(s);
        ConnectBehavior::parse_target(s, is_socket_address, is_absolute, path_or_parent_exists)
    }
}

/// The long version banner.
pub open spec fn long_version_spec(
    version: Seq<char>,
    commit_sha: Seq<char>,
    build_time: Seq<char>,
    dirty: Seq<char>,
) -> Seq<char> {
    version + " (sha:"@ + debug_str_text(commit_sha) + ", build_time:"@ + debug_str_text(build_time)
        + ")"@ + if dirty == "true"@ {
        "[dirty]"@
    } else {
        Seq::<char>::empty()
    }
}

/// The long version banner: version, quoted commit and build time, and `[dirty]` when
/// the build came from a modified work tree (`dirty` is `true`).
pub fn long_version(version: &str, commit_sha: &str, build_time: &str, dirty: &str) -> (res: String)
    ensures
        res@ == long_version_spec(version@, commit_sha@, build_time@, dirty@),
{
    let sha = debug_str(commit_sha);
    let time = debug_str(build_time);
    let mut res = concat3(version, " (sha:", sha.as_str());
    res.append(", build_time:");
    res.append(time.as_str());
    res.append(")");
    if str_eq(dirty, "true") {
        res.append("[dirty]");
    } else {
        assert(res@ + Seq::<char>::empty() =~= res@);
    }
    res
}

/// The connection ids after connecting to the instances of the current project: those
/// connected, or none when every attempt failed.
pub fn auto_connect_ids(result: Result<Vec<String>, Vec<(String, String)>>) -> (res: Vec<String>)
    ensures
        match result {
            Ok(ids) => res == ids,
            Err(_) => res@.len() == 0,
        },
{
    match result {
        Ok(ids) => ids,
        Err(_) => Vec::new(),
    }
}

/// The connection ids after connecting to one given target, or the error that stops
/// the server.
pub fn specific_target_ids(target: &str, result: Result<String, String>) -> (res: Result<
    Vec<String>,
    String,
>)
    ensures
        match result {
            Ok(id) => res matches Ok(ids) && ids@ == seq![id],
            Err(reason) => res matches Err(msg) && msg@ == "Failed to connect to "@ + target@ + ": "@
                + reason@,
        },
{
    match result {
        Ok(id) => {
            let mut ids: Vec<String> = Vec::new();
            ids.push(id);
            assert(ids@ =~= seq![id]);
            Ok(ids)
        },
        Err(reason) => {
            let mut msg = concat3("Failed to connect to ", target, ": ");
            msg.append(reason.as_str());
            Err(msg)
        },
    }
}

/// Lua tools are discovered once at least one connection exists.
pub fn should_discover_lua_tools(connection_ids: &Vec<String>) -> (res: bool)
    ensures
        res == (connection_ids@.len() > 0),
{
    connection_ids.len() > 0
}

/// Capacity of each HTTP session's channel.
pub const HTTP_SESSION_CHANNEL_CAPACITY: usize = 64;

/// The address the HTTP server binds: `host:port`.
pub fn http_bind_address(host: &str, port: u16) -> (res: String)
    ensures
        res@ == host@ + seq![':'] + decimal(port as nat),
{
    let mut res = host.to_owned();
    push_char(&mut res, ':');
    push_decimal(&mut res, port as u64);
    res
}

/// Correlation id of an HTTP request: `http:peer:method:path`.
pub fn http_context_id(peer: &str, method: &str, path: &str) -> (res: String)
    ensures
        res@ == "http:"@ + peer@ + seq![':'] + method@ + seq![':'] + path@,
{
    let mut res = concat2("http:", peer);
    push_char(&mut res, ':');
    res.append(method);
    push_char(&mut res, ':');
    res.append(path);
    res
}

} // verus!
