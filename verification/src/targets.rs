//! Discovery of the sockets that Neovim instances announce: which socket names count,
//! which belong to the current project, and the order in which targets are offered.
//!
//! An instance announces itself with a socket `/tmp/nvim-mcp.{project}.{pid}.sock`,
//! where `{project}` is its project directory with every `/` written as `%`.
use vstd::prelude::*;

use crate::text::{chars_vec, concat2, ends_with, ends_with_spec, starts_with_spec, string_from_chars};

verus! {

/// A path with every `/` written as `%`.
pub open spec fn escape_project_path_spec(path: Seq<char>) -> Seq<char> {
    path.map_values(|c: char| if c == '/' { '%' } else { c })
}

/// Escaping keeps the text's length and every character but `/`, each `/` becoming
/// `%`: nothing else of the project path is changed, so an announced socket name
/// carries the project directory exactly as it is written, letter case included.
pub proof fn law_escape_changes_only_slashes(path: Seq<char>)
    ensures
        escape_project_path_spec(path).len() == path.len(),
        forall|i: int|
            0 <= i < path.len() ==> (path[i] == '/' ==> #[trigger] escape_project_path_spec(path)[i]
                == '%') && (path[i] != '/' ==> escape_project_path_spec(path)[i] == path[i]),
{
}

/// Writes every `/` of `path` as `%`, the form a project takes in socket names.
pub fn escape_project_path(path: &str) -> (res: String)
    ensures
        res@ == escape_project_path_spec(path@),
{
    let chars = chars_vec(path);
    let mut out: Vec<char> = Vec::new();
    let mut i: usize = 0;
    while i < chars.len()
        invariant
            chars@ == path@,
            i <= chars.len(),
            out@ == escape_project_path_spec(chars@.take(i as int)),
        decreases chars.len() - i,
    {
        let c = chars[i];
        if c == '/' {
            out.push('%');
        } else {
            out.push(c);
        }
        assert(escape_project_path_spec(chars@.take(i + 1)) =~= escape_project_path_spec(
            chars@.take(i as int),
        ).push(if c == '/' { '%' } else { c }));
        i = i + 1;
    }
    assert(chars@.take(chars.len() as int) =~= chars@);
    string_from_chars(&out)
}

/// The start of the socket names announced for `project` (an escaped project path),
/// or of every announced socket name when no project is given.
pub open spec fn socket_name_prefix(project: Option<Seq<char>>) -> Seq<char> {
    match project {
        Some(p) => "nvim-mcp."@ + p + "."@,
        None => "nvim-mcp."@,
    }
}

/// `name` matches the pattern `{prefix}*.sock`: it starts with the prefix and ends
/// with `.sock`, the two not overlapping.
pub open spec fn socket_name_matches(name: Seq<char>, project: Option<Seq<char>>) -> bool {
    let prefix = socket_name_prefix(project);
    &&& starts_with_spec(name, prefix)
    &&& ends_with_spec(name, ".sock"@)
    &&& name.len() >= prefix.len() + 5
}

/// Whether the file name `name` is an announced socket, of `project` when one is given.
pub fn is_announced_socket(name: &str, project: Option<&str>) -> (res: bool)
    ensures
        res == socket_name_matches(
            name@,
            match project {
                Some(p) => Some(p@),
                None => None,
            },
        ),
{
    proof {
        reveal_strlit(".sock");
    }
    let prefix = match project {
        Some(p) => {
            let mut prefix = concat2("nvim-mcp.", p);
            prefix.append(".");
            prefix
        },
        None => "nvim-mcp.".to_owned(),
    };
    let ghost proj = match project {
        Some(p) => Some(p@),
        None => None,
    };
    assert(prefix@ == socket_name_prefix(proj));
    let chars = chars_vec(name);
    let p = chars_vec(prefix.as_str());
    if p.len() > chars.len() || chars.len() - p.len() < 5 {
        return false;
    }
    let mut i: usize = 0;
    while i < p.len()
        invariant
            p@ == prefix@,
            prefix@ == socket_name_prefix(proj),
            proj == (match project {
                Some(p) => Some(p@),
                None => None,
            }),
            chars@ == name@,
            p.len() <= chars.len(),
            i <= p.len(),
            forall|t: int| 0 <= t < i ==> chars@[t] == p@[t],
        decreases p.len() - i,
    {
        if chars[i] != p[i] {
            assert(chars@.subrange(0, p.len() as int)[i as int] == chars@[i as int]);
            return false;
        }
        i = i + 1;
    }
    assert(chars@.subrange(0, p.len() as int) =~= p@);
    ends_with(&chars, ".sock")
}

/// `a` comes no later than `b` when texts are ordered character by character, by code
/// point, a text before every longer text that it begins.
pub open spec fn lex_le(a: Seq<char>, b: Seq<char>) -> bool
    decreases a.len(),
{
    if a.len() == 0 {
        true
    } else if b.len() == 0 {
        false
    } else if (a[0] as u32) < (b[0] as u32) {
        true
    } else if (a[0] as u32) > (b[0] as u32) {
        false
    } else {
        lex_le(a.drop_first(), b.drop_first())
    }
}

proof fn lemma_lex_total(a: Seq<char>, b: Seq<char>)
    ensures
        lex_le(a, b) || lex_le(b, a),
    decreases a.len(),
{
    if a.len() > 0 && b.len() > 0 && (a[0] as u32) == (b[0] as u32) {
        lemma_lex_total(a.drop_first(), b.drop_first());
    }
}

proof fn lemma_lex_trans(a: Seq<char>, b: Seq<char>, c: Seq<char>)
    requires
        lex_le(a, b),
        lex_le(b, c),
    ensures
        lex_le(a, c),
    decreases a.len(),
{
    if a.len() > 0 && b.len() > 0 && c.len() > 0 && (a[0] as u32) == (b[0] as u32) && (b[0] as u32)
        == (c[0] as u32) {
        lemma_lex_trans(a.drop_first(), b.drop_first(), c.drop_first());
    }
}

/// Whether `a` comes no later than `b`.
fn lex_le_exec(a: &Vec<char>, b: &Vec<char>) -> (res: bool)
    ensures
        res == lex_le(a@, b@),
{
    let mut i: usize = 0;
    assert(a@.skip(0) =~= a@);
    assert(b@.skip(0) =~= b@);
    while i < a.len() && i < b.len()
        invariant
            i <= a.len(),
            i <= b.len(),
            lex_le(a@, b@) == lex_le(a@.skip(i as int), b@.skip(i as int)),
        decreases a.len() - i,
    {
        let x = a[i] as u32;
        let y = b[i] as u32;
        assert(a@.skip(i as int)[0] == a@[i as int]);
        assert(b@.skip(i as int)[0] == b@[i as int]);
        if x < y {
            return true;
        }
        if x > y {
            return false;
        }
        assert(a@.skip(i as int).drop_first() =~= a@.skip(i + 1));
        assert(b@.skip(i as int).drop_first() =~= b@.skip(i + 1));
        i = i + 1;
    }
    assert(i == a.len() ==> a@.skip(i as int).len() == 0);
    i == a.len()
}

/// The views of a sequence of character vectors.
pub open spec fn char_views(items: Seq<Vec<char>>) -> Seq<Seq<char>> {
    items.map_values(|v: Vec<char>| v@)
}

/// The views of a sequence of strings.
pub open spec fn string_views(items: Seq<String>) -> Seq<Seq<char>> {
    items.map_values(|s: String| s@)
}

/// Texts in order: each comes no later than every one after it.
pub open spec fn is_sorted(items: Seq<Seq<char>>) -> bool {
    forall|i: int, j: int| 0 <= i < j < items.len() ==> lex_le(#[trigger] items[i], #[trigger] items[j])
}

/// The socket path of an announced socket name.
pub open spec fn socket_path(name: Seq<char>) -> Seq<char> {
    "/tmp/"@ + name
}

/// The socket paths of the names that are announced sockets (of `project`, when one is
/// given), in the order of `names`.
pub open spec fn announced_paths(names: Seq<Seq<char>>, project: Option<Seq<char>>) -> Seq<Seq<char>>
    decreases names.len(),
{
    if names.len() == 0 {
        Seq::empty()
    } else {
        let rest = announced_paths(names.drop_last(), project);
        if socket_name_matches(names.last(), project) {
            rest.push(socket_path(names.last()))
        } else {
            rest
        }
    }
}

/// Puts `x` into the ordered `sorted` after every text that comes no later than it.
fn insert_sorted(sorted: &mut Vec<Vec<char>>, x: Vec<char>)
    requires
        is_sorted(char_views(old(sorted)@)),
    ensures
        is_sorted(char_views(final(sorted)@)),
        char_views(final(sorted)@).to_multiset() == char_views(old(sorted)@).to_multiset().insert(x@),
{
    let mut k: usize = 0;
    while k < sorted.len() && lex_le_exec(&sorted[k], &x)
        invariant
            k <= sorted.len(),
            forall|t: int| 0 <= t < k ==> lex_le(#[trigger] sorted@[t]@, x@),
        decreases sorted.len() - k,
    {
        k = k + 1;
    }
    let ghost before = char_views(sorted@);
    let ghost xv = x@;
    proof {
        if k < sorted.len() {
            lemma_lex_total(sorted@[k as int]@, xv);
            assert(before[k as int] == sorted@[k as int]@);
        }
    }
    sorted.insert(k, x);
    let ghost after = char_views(sorted@);
    assert(after =~= before.insert(k as int, xv));
    proof {
        broadcast use vstd::seq_lib::group_to_multiset_ensures;
        assert forall|i: int, j: int| 0 <= i < j < after.len() implies lex_le(
            #[trigger] after[i],
            #[trigger] after[j],
        ) by {
            if j < k {
                assert(after[i] == before[i] && after[j] == before[j]);
            } else if j == k {
                assert(after[i] == before[i]);
                assert(after[i] == sorted@[i]@);
            } else if i < k {
                assert(after[i] == before[i] && after[j] == before[j - 1]);
                assert(lex_le(before[i], xv));
                assert(lex_le(xv, before[k as int]));
                if j - 1 > k {
                    assert(lex_le(before[k as int], before[j - 1]));
                    lemma_lex_trans(xv, before[k as int], before[j - 1]);
                }
                lemma_lex_trans(before[i], xv, before[j - 1]);
            } else if i == k {
                assert(after[j] == before[j - 1]);
                if j - 1 > k {
                    assert(lex_le(before[k as int], before[j - 1]));
                    lemma_lex_trans(xv, before[k as int], before[j - 1]);
                }
            } else {
                assert(after[i] == before[i - 1] && after[j] == before[j - 1]);
            }
        }
    }
}

/// The announced sockets among the file names `names` of the socket directory (of
/// `project`, when one is given), as socket paths in character order.
pub fn announced_targets(names: Vec<String>, project: Option<&str>) -> (res: Vec<String>)
    ensures
        string_views(res@).to_multiset() == announced_paths(
            string_views(names@),
            match project {
                Some(p) => Some(p@),
                None => None,
            },
        ).to_multiset(),
        is_sorted(string_views(res@)),
{
    let ghost proj = match project {
        Some(p) => Some(p@),
        None => None,
    };
    broadcast use vstd::seq_lib::group_to_multiset_ensures;

    let ghost all = names@;
    let mut sorted: Vec<Vec<char>> = Vec::new();
    let mut i: usize = 0;
    assert(string_views(names@.take(0)) =~= Seq::<Seq<char>>::empty());
    assert(char_views(sorted@) =~= Seq::<Seq<char>>::empty());
    while i < names.len()
        invariant
            all == names@,
            proj == (match project {
                Some(p) => Some(p@),
                None => None,
            }),
            i <= names.len(),
            is_sorted(char_views(sorted@)),
            char_views(sorted@).to_multiset() == announced_paths(
                string_views(names@.take(i as int)),
                proj,
            ).to_multiset(),
        decreases names.len() - i,
    {
        let name = &names[i];
        let ghost prev = string_views(names@.take(i as int));
        let ghost cur = string_views(names@.take(i + 1));
        assert(cur.drop_last() =~= prev);
        assert(cur.last() == name@);
        assert(announced_paths(cur, proj) == (if socket_name_matches(name@, proj) {
            announced_paths(prev, proj).push(socket_path(name@))
        } else {
            announced_paths(prev, proj)
        }));
        if is_announced_socket(name.as_str(), project) {
            let path = concat2("/tmp/", name.as_str());
            let chars = chars_vec(path.as_str());
            assert(chars@ == socket_path(name@));
            insert_sorted(&mut sorted, chars);
            proof {
                vstd::seq_lib::to_multiset_build(announced_paths(prev, proj), socket_path(name@));
            }
        }
        i = i + 1;
    }
    assert(names@.take(names.len() as int) =~= names@);
    let mut res: Vec<String> = Vec::new();
    let mut j: usize = 0;
    while j < sorted.len()
        invariant
            j <= sorted.len(),
            string_views(res@) == char_views(sorted@).take(j as int),
        decreases sorted.len() - j,
    {
        let s = string_from_chars(&sorted[j]);
        assert(char_views(sorted@)[j as int] == sorted@[j as int]@);
        let ghost old_res = res@;
        res.push(s);
        assert(string_views(res@) =~= string_views(old_res).push(s@));
        assert(char_views(sorted@).take(j + 1) =~= char_views(sorted@).take(j as int).push(
            char_views(sorted@)[j as int],
        ));
        j = j + 1;
    }
    assert(char_views(sorted@).take(sorted.len() as int) =~= char_views(sorted@));
    res
}

} // verus!
