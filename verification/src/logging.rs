//! Helpers that shape values for log lines and correlate log records.
use vstd::prelude::*;

use crate::text::{
    chars_vec, concat2, is_white_space, lemma_trim_ends, lemma_trim_identity, push_char,
    string_from_chars, string_from_range, trim_bounds, trim_spec,
};

verus! {

/// The escaped form of one character in a log value.
pub open spec fn escape_log_char(c: char) -> Seq<char> {
    if c == '\n' {
        seq!['\\', 'n']
    } else if c == '\r' {
        seq!['\\', 'r']
    } else {
        seq![c]
    }
}

/// `value` with every line feed written as `\n` and every carriage return as `\r`.
pub open spec fn sanitize_spec(value: Seq<char>) -> Seq<char>
    decreases value.len(),
{
    if value.len() == 0 {
        Seq::empty()
    } else {
        sanitize_spec(value.drop_last()) + escape_log_char(value.last())
    }
}

/// A trimmed, sanitized value, cut to `limit` characters and marked with `...` when cut.
pub open spec fn preview_spec(value: Seq<char>, limit: nat) -> Seq<char> {
    let sanitized = sanitize_spec(trim_spec(value));
    if sanitized.len() <= limit {
        sanitized
    } else {
        sanitized.take(limit as int) + seq!['.', '.', '.']
    }
}

fn sanitize_chars(value: &Vec<char>) -> (res: Vec<char>)
    ensures
        res@ == sanitize_spec(value@),
{
    let mut res: Vec<char> = Vec::new();
    let mut i: usize = 0;
    while i < value.len()
        invariant
            i <= value.len(),
            res@ == sanitize_spec(value@.take(i as int)),
        decreases value.len() - i,
    {
        let c = value[i];
        if c == '\n' {
            res.push('\\');
            res.push('n');
        } else if c == '\r' {
            res.push('\\');
            res.push('r');
        } else {
            res.push(c);
        }
        assert(value@.take(i + 1).drop_last() == value@.take(i as int));
        i = i + 1;
    }
    assert(value@.take(value.len() as int) == value@);
    res
}

/// Escapes line breaks so that a value stays on one log line.
pub fn sanitize_log_value(value: &str) -> (res: String)
    ensures
        res@ == sanitize_spec(value@),
{
    let chars = chars_vec(value);
    let sanitized = sanitize_chars(&chars);
    string_from_chars(&sanitized)
}

/// A short, single-line rendering of `value` for log lines.
pub fn preview_text(value: &str, limit: usize) -> (res: String)
    ensures
        res@ == preview_spec(value@, limit as nat),
{
    let chars = chars_vec(value);
    let (start, end) = trim_bounds(&chars);
    let mut trimmed: Vec<char> = Vec::new();
    let mut i = start;
    while i < end
        invariant
            start <= i <= end <= chars.len(),
            trimmed@ == chars@.subrange(start as int, i as int),
        decreases end - i,
    {
        trimmed.push(chars[i]);
        assert(chars@.subrange(start as int, i + 1) == chars@.subrange(start as int, i as int).push(
            chars@[i as int],
        ));
        i = i + 1;
    }
    let sanitized = sanitize_chars(&trimmed);
    if sanitized.len() <= limit {
        string_from_chars(&sanitized)
    } else {
        let mut prefix = string_from_range(&sanitized, 0, limit);
        prefix.append("...");
        proof {
            reveal_strlit("...");
            assert(sanitized@.subrange(0, limit as int) == sanitized@.take(limit as int));
        }
        prefix
    }
}

/// `serde_json::Value`, carried through to its textual form.
#[verifier::external_type_specification]
#[verifier::external_body]
pub struct ExJsonValue(serde_json::Value);

/// The compact JSON text of a value, as `serde_json` writes it.
pub uninterp spec fn json_text_of(value: serde_json::Value) -> Seq<char>;

/// Compact JSON text of `value` (`serde_json::Value`'s `Display`, reached through
/// `ToString::to_string`).  The text depends on the value alone; what it is, for a
/// given value, is left to `serde_json`.
#[verifier::external_body]
fn json_text(value: &serde_json::Value) -> (res: String)
    ensures
        res@ == json_text_of(*value),
{
    value.to_string()
}

/// A short, single-line rendering of a JSON value for log lines.
pub fn preview_json(value: &serde_json::Value, limit: usize) -> (res: String)
    ensures
        res@ == preview_spec(json_text_of(*value), limit as nat),
{
    let text = json_text(value);
    preview_text(text.as_str(), limit)
}

/// Correlation id of an operation on a connection: `operation:connection_id`.
pub fn connection_context_id(connection_id: &str, operation: &str) -> (res: String)
    ensures
        res@ == operation@ + seq![':'] + connection_id@,
{
    let mut res = operation.to_owned();
    push_char(&mut res, ':');
    res.append(connection_id);
    res
}

/// What a request context carries that matters for correlating log lines.
pub struct RequestContextInfo {
    /// The `claudecode/toolUseId` meta entry, when it is a string.
    pub tool_use_id: Option<String>,
    /// The `progressToken` meta entry, as JSON text.
    pub progress_token: Option<String>,
    /// The request id, as its debug rendering.
    pub request_id: String,
}

/// The correlation id chosen for a request.
pub open spec fn request_context_id_spec(
    tool_use_id: Option<Seq<char>>,
    progress_token: Option<Seq<char>>,
    request_id: Seq<char>,
    fallback: Seq<char>,
) -> Seq<char> {
    match tool_use_id {
        Some(id) => id,
        None => match progress_token {
            Some(token) => seq!['p', 'r', 'o', 'g', 'r', 'e', 's', 's', '_'] + sanitize_spec(token),
            None => fallback + seq!['_'] + request_id,
        },
    }
}

/// The view of an optional string.
pub open spec fn opt_view(s: Option<String>) -> Option<Seq<char>> {
    match s {
        Some(v) => Some(v@),
        None => None,
    }
}

/// Correlation id of a request: the tool-use id when the client sent one, else the
/// progress token, else `fallback_requestid`.
pub fn request_context_id(ctx: &RequestContextInfo, fallback: &str) -> (res: String)
    ensures
        res@ == request_context_id_spec(
            opt_view(ctx.tool_use_id),
            opt_view(ctx.progress_token),
            ctx.request_id@,
            fallback@,
        ),
{
    match &ctx.tool_use_id {
        Some(id) => id.clone(),
        None => match &ctx.progress_token {
            Some(token) => {
                let sanitized = sanitize_log_value(token.as_str());
                let res = concat2("progress_", sanitized.as_str());
                proof {
                    reveal_strlit("progress_");
                }
                res
            },
            None => {
                let mut res = fallback.to_owned();
                push_char(&mut res, '_');
                res.append(ctx.request_id.as_str());
                res
            },
        },
    }
}


proof fn lemma_sanitize_single_line(value: Seq<char>)
    ensures
        forall|i: int|
            0 <= i < sanitize_spec(value).len() ==> #[trigger] sanitize_spec(value)[i] != '\n'
                && sanitize_spec(value)[i] != '\r',
    decreases value.len(),
{
    if value.len() > 0 {
        lemma_sanitize_single_line(value.drop_last());
        let prev = sanitize_spec(value.drop_last());
        let piece = escape_log_char(value.last());
        assert forall|i: int| 0 <= i < (prev + piece).len() implies #[trigger] (prev + piece)[i] != '\n'
            && (prev + piece)[i] != '\r' by {
            if i >= prev.len() {
                assert((prev + piece)[i] == piece[i - prev.len()]);
            } else {
                assert((prev + piece)[i] == prev[i]);
            }
        }
    }
}

/// A value without line breaks is its own sanitized form.
proof fn lemma_sanitize_plain(value: Seq<char>)
    requires
        forall|i: int| 0 <= i < value.len() ==> #[trigger] value[i] != '\n' && value[i] != '\r',
    ensures
        sanitize_spec(value) == value,
    decreases value.len(),
{
    if value.len() > 0 {
        let front = value.drop_last();
        assert forall|i: int| 0 <= i < front.len() implies #[trigger] front[i] != '\n' && front[i]
            != '\r' by {
            assert(front[i] == value[i]);
        }
        lemma_sanitize_plain(front);
        assert(value.last() == value[value.len() - 1]);
        assert(front + seq![value.last()] =~= value);
    }
}

/// A non-empty value whose first character is not a line break sanitizes to text
/// that begins with that character.
proof fn lemma_sanitize_first(value: Seq<char>)
    requires
        value.len() > 0,
        value[0] != '\n' && value[0] != '\r',
    ensures
        sanitize_spec(value).len() > 0,
        sanitize_spec(value)[0] == value[0],
    decreases value.len(),
{
    let front = value.drop_last();
    let e = escape_log_char(value.last());
    assert(sanitize_spec(value) == sanitize_spec(front) + e);
    if front.len() > 0 {
        assert(front[0] == value[0]);
        lemma_sanitize_first(front);
        assert((sanitize_spec(front) + e)[0] == sanitize_spec(front)[0]);
    } else {
        assert(sanitize_spec(front) =~= Seq::<char>::empty());
        assert(value.last() == value[0]);
        assert(e =~= seq![value[0]]);
        assert((sanitize_spec(front) + e)[0] == e[0]);
    }
}

/// Sanitizing keeps a first and a last character that are not line breaks.
proof fn lemma_sanitize_ends(value: Seq<char>)
    requires
        value.len() > 0,
        value[0] != '\n' && value[0] != '\r',
        value.last() != '\n' && value.last() != '\r',
    ensures
        sanitize_spec(value).len() > 0,
        sanitize_spec(value)[0] == value[0],
        sanitize_spec(value).last() == value.last(),
{
    lemma_sanitize_first(value);
    let front = value.drop_last();
    let e = escape_log_char(value.last());
    assert(sanitize_spec(value) == sanitize_spec(front) + e);
    assert(e =~= seq![value.last()]);
    assert((sanitize_spec(front) + e).last() == e.last());
}

/// A preview of a preview is the preview itself: previewing again with the same limit
/// changes nothing.
pub proof fn law_preview_is_idempotent(value: Seq<char>, limit: nat)
    ensures
        preview_spec(preview_spec(value, limit), limit) == preview_spec(value, limit),
{
    let t = trim_spec(value);
    let s = sanitize_spec(t);
    let r = preview_spec(value, limit);
    lemma_trim_ends(value);
    lemma_sanitize_single_line(t);
    if t.len() > 0 {
        assert(is_white_space('\n') && is_white_space('\r'));
        lemma_sanitize_ends(t);
    }
    if s.len() <= limit {
        lemma_trim_identity(s);
        lemma_sanitize_plain(s);
    } else {
        let dots = seq!['.', '.', '.'];
        let head = s.take(limit as int);
        assert(r == head + dots);
        assert(r.last() == '.');
        if limit > 0 {
            assert(r[0] == s[0]);
        } else {
            assert(r[0] == '.');
        }
        lemma_trim_identity(r);
        assert forall|i: int| 0 <= i < r.len() implies #[trigger] r[i] != '\n' && r[i] != '\r' by {
            if i < limit {
                assert(r[i] == s[i]);
            }
        }
        lemma_sanitize_plain(r);
        assert(r.take(limit as int) =~= head);
    }
}

/// Log values stay on one line: a sanitized value holds no line feed and no carriage
/// return, and a preview holds none either and is at most `limit` characters plus the
/// three dots that mark a cut.
pub proof fn law_log_values_are_single_line(value: Seq<char>, limit: nat)
    ensures
        forall|i: int|
            0 <= i < sanitize_spec(value).len() ==> #[trigger] sanitize_spec(value)[i] != '\n'
                && sanitize_spec(value)[i] != '\r',
        forall|i: int|
            0 <= i < preview_spec(value, limit).len() ==> #[trigger] preview_spec(value, limit)[i]
                != '\n' && preview_spec(value, limit)[i] != '\r',
        preview_spec(value, limit).len() <= limit + 3,
{
    lemma_sanitize_single_line(value);
    let s = sanitize_spec(trim_spec(value));
    lemma_sanitize_single_line(trim_spec(value));
    let p = preview_spec(value, limit);
    if s.len() > limit {
        assert forall|i: int| 0 <= i < p.len() implies #[trigger] p[i] != '\n' && p[i] != '\r' by {
            if i < limit {
                assert(p[i] == s[i]);
            }
        }
    }
}

} // verus!
