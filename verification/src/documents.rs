//! Document identifiers, positions and the parameters exchanged with the Lua helpers
//! that run inside Neovim.
use vstd::prelude::*;

use crate::error::NeovimError;
use crate::text::{concat2, concat3, ends_with_spec, starts_with_spec};

verus! {

/// Information about one Neovim buffer.
#[derive(Debug, Clone)]
pub struct BufferInfo {
    pub id: u64,
    pub name: String,
    pub line_count: u64,
}

/// Text documents are identified using a URI.
#[derive(Debug, Clone)]
pub struct TextDocumentIdentifier {
    /// The text document's URI.
    pub uri: String,
    /// The version number of this document; `None` when the content on disk is the master.
    pub version: Option<i32>,
}

/// Universal identifier for text documents.
#[derive(Debug, Clone)]
pub enum DocumentIdentifier {
    /// Reference by Neovim buffer ID (for currently open files).
    BufferId(u64),
    /// Reference by project-relative path.
    ProjectRelativePath(String),
    /// Reference by absolute file path.
    AbsolutePath(String),
}

impl DocumentIdentifier {
    /// Create from buffer ID.
    pub fn from_buffer_id(buffer_id: u64) -> (res: Self)
        ensures
            res == DocumentIdentifier::BufferId(buffer_id),
    {
        DocumentIdentifier::BufferId(buffer_id)
    }

    /// Create from project-relative path.
    pub fn from_project_path(path: String) -> (res: Self)
        ensures
            res == DocumentIdentifier::ProjectRelativePath(path),
    {
        DocumentIdentifier::ProjectRelativePath(path)
    }

    /// Create from absolute path.
    pub fn from_absolute_path(path: String) -> (res: Self)
        ensures
            res == DocumentIdentifier::AbsolutePath(path),
    {
        DocumentIdentifier::AbsolutePath(path)
    }

    /// Whether the document can only be located once the project root is known.
    pub fn needs_project_root(&self) -> (res: bool)
        ensures
            res == (*self is ProjectRelativePath),
    {
        match self {
            DocumentIdentifier::ProjectRelativePath(_) => true,
            _ => false,
        }
    }
}

/// Position in a text document: zero-based line and zero-based character offset.
#[derive(Debug, Clone, Copy, Default)]
pub struct Position {
    /// Line position in a document (zero-based).
    pub line: u64,
    /// Character offset on a line in a document (zero-based).
    pub character: u64,
}

/// Result of a navigate operation.
#[derive(Debug, Clone)]
pub struct NavigateResult {
    /// The path of the file that was opened.
    pub path: String,
    /// The line number (0-based).
    pub line: u64,
    /// The column number (0-based).
    pub column: u64,
}

/// Parameters for text document position requests.
#[derive(Debug, Clone)]
pub struct TextDocumentPositionParams {
    /// The text document identifier.
    pub text_document: TextDocumentIdentifier,
    /// The position in the text document.
    pub position: Position,
}

/// Parameters of a document read.
#[derive(Debug, Clone)]
pub struct ReadDocumentParams {
    pub buffer_id: Option<u64>,
    pub file_path: Option<String>,
    pub start_line: i64,
    pub end_line: i64,
}

/// A single plain path component: non-empty, with no `/`, `\` or `:`, and neither
/// `.` nor `..`.  On every platform such a component is relative and is kept as it is
/// when joined onto a directory.
pub open spec fn is_plain_component(rel: Seq<char>) -> bool {
    &&& rel.len() > 0
    &&& forall|i: int| 0 <= i < rel.len() ==> #[trigger] rel[i] != '/' && rel[i] != '\\' && rel[i] != ':'
    &&& rel != seq!['.']
    &&& rel != seq!['.', '.']
}

/// A relative path as every platform reads it: non-empty, not starting with a
/// separator (`/` or `\`), and holding no `:` (so no drive or other prefix).  It may
/// hold several components separated by `/`, `.` and `..` among them.
pub open spec fn is_relative_text(rel: Seq<char>) -> bool {
    &&& rel.len() > 0
    &&& rel[0] != '/'
    &&& rel[0] != '\\'
    &&& forall|i: int| 0 <= i < rel.len() ==> #[trigger] rel[i] != ':'
}

/// `root` begins with the verbatim prefix `\\?\`, under which some platforms
/// normalize what is joined onto a path.
pub open spec fn has_verbatim_prefix(root: Seq<char>) -> bool {
    starts_with_spec(root, seq!['\\', '\\', '?', '\\'])
}

/// `res` is `rel` appended to `root`, with no separator or with one of the two that
/// platforms write (`/` or `\`) between them.
pub open spec fn appended_path(root: Seq<char>, rel: Seq<char>, res: Seq<char>) -> bool {
    ||| res == root + rel
    ||| res == root + seq!['/'] + rel
    ||| res == root + seq!['\\'] + rel
}

/// A path appended to a root keeps the whole root in front and the whole relative
/// path at the end, every component of it included, with at most one separator
/// between: nothing of either is dropped or changed.
pub proof fn law_appended_path_keeps_both(root: Seq<char>, rel: Seq<char>, res: Seq<char>)
    requires
        appended_path(root, rel, res),
    ensures
        starts_with_spec(res, root),
        ends_with_spec(res, rel),
        root.len() + rel.len() <= res.len() <= root.len() + rel.len() + 1,
        res.len() == root.len() + rel.len() ==> res == root + rel,
{
    if res == root + rel {
        assert(res.subrange(0, root.len() as int) =~= root);
        assert(res.subrange(res.len() - rel.len(), res.len() as int) =~= rel);
    } else if res == root + seq!['/'] + rel {
        assert(res.subrange(0, root.len() as int) =~= root);
        assert(res.subrange(res.len() - rel.len(), res.len() as int) =~= rel);
    } else {
        assert(res.subrange(0, root.len() as int) =~= root);
        assert(res.subrange(res.len() - rel.len(), res.len() as int) =~= rel);
    }
}

/// `rel` joined onto the directory `root` by `std::path::Path::join`.  The separator,
/// and what counts as an absolute path that replaces `root`, depend on the platform,
/// so the joined text is not stated in full.  On every platform: joining onto the
/// empty directory gives `rel`; joining a non-empty `rel` gives a non-empty path; a
/// relative path (one or more components, no leading separator, no `:`) is appended
/// to `root` whole (unless `root` has a verbatim prefix), with at most one separator
/// between them and none after a `root` that already ends with `/`; and a plain
/// component always ends the result, which is longer than it when `root` is not
/// empty.
#[verifier::external_body]
fn join_path(root: &str, rel: &str) -> (res: String)
    ensures
        root@.len() == 0 ==> res@ == rel@,
        rel@.len() > 0 ==> res@.len() > 0,
        is_plain_component(rel@) ==> ends_with_spec(res@, rel@),
        is_plain_component(rel@) && root@.len() > 0 ==> res@.len() > rel@.len(),
        is_plain_component(rel@) && !has_verbatim_prefix(root@) ==> appended_path(root@, rel@, res@),
        is_plain_component(rel@) && !has_verbatim_prefix(root@) && root@.len() > 0 && root@.last()
            == '/' ==> res@ == root@ + rel@,
        is_relative_text(rel@) && !has_verbatim_prefix(root@) ==> appended_path(root@, rel@, res@),
        is_relative_text(rel@) && !has_verbatim_prefix(root@) && root@.len() > 0 && root@.last()
            == '/' ==> res@ == root@ + rel@,
{
    std::path::Path::new(root).join(rel).to_string_lossy().into_owned()
}

/// The file that a document names: a project-relative path is joined onto
/// `project_root` by the platform's path rules (see `join_path` for what holds of the
/// joined text on every platform), an absolute path is itself, and a buffer names no
/// file.
pub fn document_file(document: &DocumentIdentifier, project_root: &str) -> (res: Option<String>)
    ensures
        match *document {
            DocumentIdentifier::BufferId(_) => res is None,
            DocumentIdentifier::ProjectRelativePath(rel) => res matches Some(p) && {
                &&& project_root@.len() == 0 ==> p@ == rel@
                &&& rel@.len() > 0 ==> p@.len() > 0
                &&& is_plain_component(rel@) ==> ends_with_spec(p@, rel@)
                &&& is_plain_component(rel@) && project_root@.len() > 0 ==> p@.len() > rel@.len()
                &&& is_plain_component(rel@) && !has_verbatim_prefix(project_root@) ==> appended_path(
                    project_root@,
                    rel@,
                    p@,
                )
                &&& is_plain_component(rel@) && !has_verbatim_prefix(project_root@)
                    && project_root@.len() > 0 && project_root@.last() == '/' ==> p@ == project_root@
                    + rel@
                &&& is_relative_text(rel@) && !has_verbatim_prefix(project_root@) ==> appended_path(
                    project_root@,
                    rel@,
                    p@,
                )
                &&& is_relative_text(rel@) && !has_verbatim_prefix(project_root@)
                    && project_root@.len() > 0 && project_root@.last() == '/' ==> p@ == project_root@
                    + rel@
            },
            DocumentIdentifier::AbsolutePath(abs) => res matches Some(p) && p@ == abs@,
        },
{
    match document {
        DocumentIdentifier::BufferId(_) => None,
        DocumentIdentifier::ProjectRelativePath(rel) => Some(join_path(project_root, rel.as_str())),
        DocumentIdentifier::AbsolutePath(abs) => Some(abs.clone()),
    }
}

impl ReadDocumentParams {
    /// Parameters to read a buffer.
    pub fn buffer_id(id: u64, start: i64, end: i64) -> (res: Self)
        ensures
            res.buffer_id == Some(id),
            res.file_path is None,
            res.start_line == start,
            res.end_line == end,
    {
        ReadDocumentParams { buffer_id: Some(id), file_path: None, start_line: start, end_line: end }
    }

    /// Parameters to read a file.
    pub fn path(path: &str, start: i64, end: i64) -> (res: Self)
        ensures
            res.buffer_id is None,
            res.file_path matches Some(p) && p@ == path@,
            res.start_line == start,
            res.end_line == end,
    {
        ReadDocumentParams {
            buffer_id: None,
            file_path: Some(path.to_owned()),
            start_line: start,
            end_line: end,
        }
    }

    /// Parameters to read `document`: a buffer by its id, any other document as the
    /// file `file` (the one that `document_file` gives for it).
    pub fn for_document(document: &DocumentIdentifier, start: i64, end: i64, file: Option<String>) -> (res: Self)
        ensures
            res.start_line == start,
            res.end_line == end,
            match *document {
                DocumentIdentifier::BufferId(id) => res.buffer_id == Some(id) && res.file_path is None,
                _ => res.buffer_id is None && res.file_path == file,
            },
    {
        match document {
            DocumentIdentifier::BufferId(id) => ReadDocumentParams::buffer_id(*id, start, end),
            _ => ReadDocumentParams { buffer_id: None, file_path: file, start_line: start, end_line: end },
        }
    }
}

/// Configuration for Neovim client operations.
#[derive(Debug, Clone, Copy, Default)]
pub struct NeovimClientConfig {}

/// What a Lua helper inside Neovim answers: an error message or a result.
#[derive(Debug, Clone)]
pub enum NvimExecuteLuaResult<T> {
    Error(String),
    Success(T),
}

/// The result that a Lua helper's answer stands for.
pub open spec fn lua_answer_result<T>(answer: NvimExecuteLuaResult<T>) -> Result<T, NeovimError> {
    match answer {
        NvimExecuteLuaResult::Success(v) => Ok(v),
        NvimExecuteLuaResult::Error(msg) => Err(NeovimError::Api(msg)),
    }
}

impl<T> NvimExecuteLuaResult<T> {
    /// The answer as a result: an error message becomes an API error.
    pub fn into_result(self) -> (res: Result<T, NeovimError>)
        ensures
            res == lua_answer_result(self),
    {
        match self {
            NvimExecuteLuaResult::Success(v) => Ok(v),
            NvimExecuteLuaResult::Error(msg) => Err(NeovimError::Api(msg)),
        }
    }
}

impl<T> From<NvimExecuteLuaResult<T>> for Result<T, NeovimError> {
    fn from(val: NvimExecuteLuaResult<T>) -> (res: Self) {
        val.into_result()
    }
}

impl<T> vstd::std_specs::convert::FromSpecImpl<NvimExecuteLuaResult<T>> for Result<T, NeovimError> {
    open spec fn obeys_from_spec() -> bool {
        true
    }

    open spec fn from_spec(v: NvimExecuteLuaResult<T>) -> Self {
        lua_answer_result(v)
    }
}

/// The text document identifier of a file, from its canonical absolute path or the
/// reason why the path could not be resolved.
pub fn make_text_document_identifier_from_path(path: &str, canonical: Result<String, String>) -> (res: Result<TextDocumentIdentifier, NeovimError>)
    ensures
        match canonical {
            Ok(abs) => res matches Ok(id) && id.uri@ == "file://"@ + abs@ && id.version is None,
            Err(reason) => res matches Err(NeovimError::Api(msg)) && msg@ == "Failed to resolve path "@ + path@ + ": "@ + reason@,
        },
{
    match canonical {
        Ok(abs) => Ok(TextDocumentIdentifier { uri: concat2("file://", abs.as_str()), version: None }),
        Err(reason) => {
            let mut msg = concat3("Failed to resolve path ", path, ": ");
            msg.append(reason.as_str());
            Err(NeovimError::Api(msg))
        },
    }
}

} // verus!
