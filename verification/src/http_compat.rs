//! Decisions of the HTTP compatibility layer placed in front of the streamable HTTP
//! transport: which requests are initial event-stream probes, how they are answered,
//! and when an "unauthorized" status is reported as a bad request instead.
use vstd::prelude::*;

use crate::text::{
    ascii_lower, char_ascii_lower, chars_vec, contains, contains_spec, eq_ignore_ascii_case_spec,
    string_from_chars, trim_bounds, trim_spec,
};

verus! {

/// What the compatibility layer reads of an HTTP request.
pub struct ProbeRequest {
    /// The request method, e.g. `GET`.
    pub method: String,
    /// The `Accept` header, when present and made of visible ASCII.
    pub accept: Option<String>,
    /// The `mcp-session-id` header, when present and made of visible ASCII.
    pub session_id: Option<String>,
}

/// `s.split(sep)`: the pieces of `s` between occurrences of `sep`.
pub open spec fn split_char(s: Seq<char>, sep: char) -> Seq<Seq<char>>
    decreases s.len(),
{
    if s.len() == 0 {
        seq![Seq::<char>::empty()]
    } else {
        let r = split_char(s.drop_last(), sep);
        if s.last() == sep {
            r.push(Seq::<char>::empty())
        } else {
            r.update(r.len() - 1, r.last().push(s.last()))
        }
    }
}

/// The media type that announces a server-sent event stream.
pub open spec fn event_stream_media_type() -> Seq<char> {
    "text/event-stream"@
}

/// An `Accept` header value lists `text/event-stream` (any ASCII case, surrounding white
/// space ignored) among its comma-separated entries.
pub open spec fn lists_event_stream(accept: Seq<char>) -> bool {
    exists|i: int|
        0 <= i < split_char(accept, ',').len() && eq_ignore_ascii_case_spec(
            trim_spec(#[trigger] split_char(accept, ',')[i]),
            event_stream_media_type(),
        )
}

/// The request accepts an event stream.
pub open spec fn accepts_event_stream_spec(request: ProbeRequest) -> bool {
    match request.accept {
        Some(a) => lists_event_stream(a@),
        None => false,
    }
}

/// The request carries a session id that is not blank.
pub open spec fn has_session_spec(request: ProbeRequest) -> bool {
    match request.session_id {
        Some(id) => trim_spec(id@).len() > 0,
        None => false,
    }
}

/// A `GET` that accepts an event stream and carries no session yet.
pub open spec fn is_initial_sse_probe_spec(request: ProbeRequest) -> bool {
    request.method@ == "GET"@ && accepts_event_stream_spec(request) && !has_session_spec(request)
}

proof fn lemma_split_char_nonempty(s: Seq<char>, sep: char)
    ensures
        split_char(s, sep).len() >= 1,
    decreases s.len(),
{
    if s.len() > 0 {
        lemma_split_char_nonempty(s.drop_last(), sep);
    }
}

/// `chars[from..to]` equals `target` when ASCII case is ignored.
fn range_eq_ignore_ascii_case(chars: &Vec<char>, from: usize, to: usize, target: &Vec<char>) -> (res:
    bool)
    requires
        from <= to <= chars.len(),
    ensures
        res == eq_ignore_ascii_case_spec(chars@.subrange(from as int, to as int), target@),
{
    if to - from != target.len() {
        return false;
    }
    let mut i: usize = 0;
    while i < target.len()
        invariant
            from <= to <= chars.len(),
            to - from == target.len(),
            i <= target.len(),
            forall|t: int|
                0 <= t < i ==> #[trigger] ascii_lower(chars@[from + t]) == ascii_lower(target@[t]),
        decreases target.len() - i,
    {
        if char_ascii_lower(chars[from + i]) != char_ascii_lower(target[i]) {
            assert(chars@.subrange(from as int, to as int)[i as int] == chars@[from + i]);
            return false;
        }
        i = i + 1;
    }
    let ghost piece = chars@.subrange(from as int, to as int);
    assert forall|t: int| 0 <= t < piece.len() implies #[trigger] ascii_lower(piece[t]) == ascii_lower(
        target@[t],
    ) by {
        assert(piece[t] == chars@[from + t]);
    }
    true
}

/// `piece`, trimmed, is `text/event-stream` up to ASCII case.
fn piece_is_event_stream(piece: &Vec<char>, target: &Vec<char>) -> (res: bool)
    requires
        target@ == event_stream_media_type(),
    ensures
        res == eq_ignore_ascii_case_spec(trim_spec(piece@), event_stream_media_type()),
{
    let (start, end) = trim_bounds(piece);
    range_eq_ignore_ascii_case(piece, start, end, target)
}

/// Whether an `Accept` header value lists `text/event-stream`.
pub fn lists_event_stream_exec(accept: &str) -> (res: bool)
    ensures
        res == lists_event_stream(accept@),
{
    let chars = chars_vec(accept);
    let target = chars_vec("text/event-stream");
    let mut current: Vec<char> = Vec::new();
    let mut found = false;
    let ghost mut done: Seq<Seq<char>> = Seq::empty();
    let mut i: usize = 0;
    while i < chars.len()
        invariant
            target@ == event_stream_media_type(),
            i <= chars.len(),
            split_char(chars@.take(i as int), ',') == done.push(current@),
            found == exists|j: int|
                0 <= j < done.len() && eq_ignore_ascii_case_spec(
                    trim_spec(#[trigger] done[j]),
                    event_stream_media_type(),
                ),
        decreases chars.len() - i,
    {
        let c = chars[i];
        let ghost prefix = chars@.take(i + 1);
        assert(prefix.drop_last() =~= chars@.take(i as int));
        assert(prefix.last() == c);
        if c == ',' {
            let hit = piece_is_event_stream(&current, &target);
            proof {
                let old_done = done;
                done = done.push(current@);
                if hit {
                    assert(done[old_done.len() as int] == current@);
                }
                assert forall|j: int| 0 <= j < old_done.len() implies done[j] == old_done[j] by {}
            }
            found = found || hit;
            current = Vec::new();
            assert(split_char(prefix, ',') =~= done.push(current@));
        } else {
            current.push(c);
            assert(split_char(prefix, ',') =~= done.push(current@));
        }
        i = i + 1;
    }
    let last_hit = piece_is_event_stream(&current, &target);
    assert(chars@.take(chars.len() as int) =~= chars@);
    let ghost pieces = done.push(current@);
    assert(pieces[done.len() as int] == current@);
    assert forall|j: int| 0 <= j < done.len() implies pieces[j] == done[j] by {}
    found || last_hit
}

/// Whether the request accepts an event stream.
pub fn accepts_event_stream(request: &ProbeRequest) -> (res: bool)
    ensures
        res == accepts_event_stream_spec(*request),
{
    match &request.accept {
        Some(a) => lists_event_stream_exec(a.as_str()),
        None => false,
    }
}

/// Whether the request carries a session id that is not blank.
pub fn has_non_empty_session_id(request: &ProbeRequest) -> (res: bool)
    ensures
        res == has_session_spec(*request),
{
    match &request.session_id {
        Some(id) => {
            let chars = chars_vec(id.as_str());
            let (start, end) = trim_bounds(&chars);
            start < end
        },
        None => false,
    }
}

/// Whether the request is a client's first probe for an event stream: a `GET` that
/// accepts `text/event-stream` and carries no session id.
pub fn is_initial_sse_probe(request: &ProbeRequest) -> (res: bool)
    ensures
        res == is_initial_sse_probe_spec(*request),
{
    crate::text::str_eq(request.method.as_str(), "GET") && accepts_event_stream(request)
        && !has_non_empty_session_id(request)
}

/// HTTP status 200.
pub const STATUS_OK: u16 = 200;

/// HTTP status 400.
pub const STATUS_BAD_REQUEST: u16 = 400;

/// HTTP status 401.
pub const STATUS_UNAUTHORIZED: u16 = 401;

/// What the transport writes in the body of its answer to a request that carries no
/// session id.
pub open spec fn missing_session_marker() -> Seq<char> {
    "Session ID is required"@
}

/// Whether an answer's body reports that the request carried no session id.
pub open spec fn reports_missing_session(body: Seq<char>) -> bool {
    contains_spec(body, missing_session_marker())
}

/// Whether the body of an answer reports that the request carried no session id.
pub fn body_reports_missing_session(body: &str) -> (res: bool)
    ensures
        res == reports_missing_session(body@),
{
    proof {
        reveal_strlit("Session ID is required");
    }
    let chars = chars_vec(body);
    contains(&chars, "Session ID is required")
}

/// The status passed on to the client.
pub open spec fn rewritten_status(status: u16, missing_session: bool) -> u16 {
    if status == STATUS_UNAUTHORIZED && missing_session {
        STATUS_BAD_REQUEST
    } else {
        status
    }
}

/// The status passed on to the client: an "unauthorized" answer whose body reports a
/// missing session id (`missing_session`) becomes "bad request", so that a missing
/// session is not taken for a missing login.  Every other status, an "unauthorized"
/// answer for an expired or unknown session among them, passes unchanged.
pub fn rewrite_unauthorized_status(status: u16, missing_session: bool) -> (res: u16)
    ensures
        res == rewritten_status(status, missing_session),
{
    if status == STATUS_UNAUTHORIZED && missing_session {
        STATUS_BAD_REQUEST
    } else {
        status
    }
}

/// The answer to an initial event-stream probe.
pub struct ProbeResponse {
    pub status: u16,
    pub content_type: String,
    pub cache_control: String,
    /// A single keep-alive comment frame.
    pub body: String,
}

/// The answer to an initial event-stream probe: `200 OK`, an event stream that is not
/// cached, holding one keep-alive comment.
pub fn initial_sse_probe_response() -> (res: ProbeResponse)
    ensures
        res.status == STATUS_OK,
        res.content_type@ == event_stream_media_type(),
        res.cache_control@ == "no-cache"@,
        res.body@ == ": keep-alive\n\n"@,
{
    ProbeResponse {
        status: STATUS_OK,
        content_type: "text/event-stream".to_owned(),
        cache_control: "no-cache".to_owned(),
        body: ": keep-alive\n\n".to_owned(),
    }
}

/// `s.split("\n\n")`: the pieces between blank-line separators, found left to right.
pub open spec fn split_blank_line(s: Seq<char>) -> Seq<Seq<char>>
    decreases s.len(),
{
    if s.len() < 2 {
        seq![s]
    } else if s[0] == '\n' && s[1] == '\n' {
        seq![Seq::<char>::empty()] + split_blank_line(s.skip(2))
    } else {
        let r = split_blank_line(s.drop_first());
        r.update(0, seq![s[0]] + r[0])
    }
}

/// The pieces of `ps` that are not empty, in order.
pub open spec fn non_empty_pieces(ps: Seq<Seq<char>>) -> Seq<Seq<char>>
    decreases ps.len(),
{
    if ps.len() == 0 {
        Seq::empty()
    } else if ps.last().len() > 0 {
        non_empty_pieces(ps.drop_last()).push(ps.last())
    } else {
        non_empty_pieces(ps.drop_last())
    }
}

/// The events of a server-sent event body: its non-empty blank-line-separated pieces.
pub open spec fn sse_events_spec(body: Seq<char>) -> Seq<Seq<char>> {
    non_empty_pieces(split_blank_line(body))
}

/// `r` with `c` put in front of its first piece.
pub open spec fn cons_first(c: Seq<char>, r: Seq<Seq<char>>) -> Seq<Seq<char>> {
    r.update(0, c + r[0])
}

proof fn lemma_split_blank_line_nonempty(s: Seq<char>)
    ensures
        split_blank_line(s).len() >= 1,
    decreases s.len(),
{
    if s.len() >= 2 {
        if s[0] == '\n' && s[1] == '\n' {
            lemma_split_blank_line_nonempty(s.skip(2));
        } else {
            lemma_split_blank_line_nonempty(s.drop_first());
        }
    }
}

/// The view of a sequence of strings.
pub open spec fn strings_view(v: Seq<String>) -> Seq<Seq<char>> {
    v.map_values(|s: String| s@)
}

/// Splits a server-sent event body into its events.
pub fn parse_sse_events(body: &str) -> (res: Vec<String>)
    ensures
        strings_view(res@) == sse_events_spec(body@),
{
    let chars = chars_vec(body);
    let ghost s = chars@;
    let mut events: Vec<String> = Vec::new();
    let mut current: Vec<char> = Vec::new();
    let ghost mut done: Seq<Seq<char>> = Seq::empty();
    let mut i: usize = 0;
    proof {
        assert(s.skip(0) =~= s);
        lemma_split_blank_line_nonempty(s);
        assert(cons_first(Seq::<char>::empty(), split_blank_line(s)) =~= split_blank_line(s));
        assert(done + split_blank_line(s) =~= split_blank_line(s));
    }
    while chars.len() - i > 1
        invariant
            s == chars@,
            i <= chars.len(),
            split_blank_line(s) == done + cons_first(current@, split_blank_line(s.skip(i as int))),
            strings_view(events@) == non_empty_pieces(done),
        decreases chars.len() - i,
    {
        let ghost rest = s.skip(i as int);
        assert(rest[0] == s[i as int]);
        assert(rest[1] == s[i + 1]);
        if chars[i] == '\n' && chars[i + 1] == '\n' {
            proof {
                assert(rest.skip(2) =~= s.skip(i + 2));
                lemma_split_blank_line_nonempty(s.skip(i + 2));
                let tail = split_blank_line(s.skip(i + 2));
                assert(cons_first(current@, seq![Seq::<char>::empty()] + tail) =~= seq![current@] + tail);
                assert(cons_first(Seq::<char>::empty(), tail) =~= tail);
                assert((done + seq![current@]) + tail =~= done + (seq![current@] + tail));
            }
            let ghost old_done = done;
            proof {
                done = done.push(current@);
                assert(done.drop_last() =~= old_done);
            }
            if current.len() > 0 {
                let piece = string_from_chars(&current);
                events.push(piece);
                assert(strings_view(events@) =~= non_empty_pieces(old_done).push(current@));
            }
            current = Vec::new();
            proof {
                assert(done + cons_first(current@, split_blank_line(s.skip(i + 2))) =~= split_blank_line(s));
            }
            i = i + 2;
        } else {
            proof {
                assert(rest.drop_first() =~= s.skip(i + 1));
                lemma_split_blank_line_nonempty(s.skip(i + 1));
                let r = split_blank_line(s.skip(i + 1));
                assert(current@ + (seq![s[i as int]] + r[0]) =~= current@.push(s[i as int]) + r[0]);
                assert(cons_first(current@, r.update(0, seq![s[i as int]] + r[0])) =~= cons_first(
                    current@.push(s[i as int]),
                    r,
                ));
            }
            current.push(chars[i]);
            i = i + 1;
        }
    }
    proof {
        let rest = s.skip(i as int);
        assert(rest.len() < 2);
        assert(cons_first(current@, seq![rest]) =~= seq![current@ + rest]);
    }
    let ghost old_done = done;
    let ghost start_current = current@;
    let mut j = i;
    while j < chars.len()
        invariant
            s == chars@,
            i <= j <= chars.len(),
            current@ == start_current + s.subrange(i as int, j as int),
        decreases chars.len() - j,
    {
        assert(s.subrange(i as int, j + 1) =~= s.subrange(i as int, j as int).push(s[j as int]));
        current.push(chars[j]);
        j = j + 1;
    }
    proof {
        assert(s.subrange(i as int, s.len() as int) =~= s.skip(i as int));
        done = done.push(current@);
        assert(done.drop_last() =~= old_done);
        assert(split_blank_line(s) =~= done);
    }
    if current.len() > 0 {
        let piece = string_from_chars(&current);
        events.push(piece);
        assert(strings_view(events@) =~= non_empty_pieces(old_done).push(current@));
    }
    events
}

proof fn lemma_non_empty_pieces(ps: Seq<Seq<char>>)
    ensures
        forall|i: int|
            0 <= i < non_empty_pieces(ps).len() ==> #[trigger] non_empty_pieces(ps)[i].len() > 0,
    decreases ps.len(),
{
    if ps.len() > 0 {
        lemma_non_empty_pieces(ps.drop_last());
        let prev = non_empty_pieces(ps.drop_last());
        if ps.last().len() > 0 {
            assert forall|i: int| 0 <= i < prev.push(ps.last()).len() implies #[trigger] prev.push(
                ps.last(),
            )[i].len() > 0 by {
                if i < prev.len() {
                    assert(prev.push(ps.last())[i] == prev[i]);
                }
            }
        }
    }
}

/// What the compatibility layer intercepts and rewrites: only a `GET` without a
/// non-blank session id can be answered as a probe (so initialization requests and
/// requests of an established session always reach the transport); an "unauthorized"
/// answer becomes "bad request" exactly when its body reports a missing session id,
/// so an expired or unknown session is still reported as unauthorized; every other
/// status passes unchanged.
pub proof fn law_compatibility_scope(request: ProbeRequest, status: u16, body: Seq<char>)
    ensures
        request.method@ != "GET"@ ==> !is_initial_sse_probe_spec(request),
        has_session_spec(request) ==> !is_initial_sse_probe_spec(request),
        status == STATUS_UNAUTHORIZED && reports_missing_session(body) ==> rewritten_status(
            status,
            reports_missing_session(body),
        ) == STATUS_BAD_REQUEST,
        status == STATUS_UNAUTHORIZED && !reports_missing_session(body) ==> rewritten_status(
            status,
            reports_missing_session(body),
        ) == STATUS_UNAUTHORIZED,
        status != STATUS_UNAUTHORIZED ==> rewritten_status(status, reports_missing_session(body))
            == status,
{
}

/// Every event split out of a server-sent event body is non-empty.
pub proof fn law_sse_events_are_non_empty(body: Seq<char>)
    ensures
        forall|i: int|
            0 <= i < sse_events_spec(body).len() ==> #[trigger] sse_events_spec(body)[i].len() > 0,
{
    lemma_non_empty_pieces(split_blank_line(body));
}

} // verus!
