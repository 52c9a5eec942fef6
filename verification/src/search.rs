//! Workspace search: which kind of entity a Markdown file belongs to, and
//! the first line of a file that holds a query, ignoring case.

use crate::text::{
    chars_of, contains, eq_lit, has_substring, lines_of, lowercase, split_chars, split_on, string_of,
    str_eq, text_lines, to_lowercase, trim, trim_str,
};
use vstd::prelude::*;

verus! {

/// The most results a search returns.
pub const MAX_RESULTS: usize = 50;

/// One file that matched a search: the kind of entity it belongs to, its
/// path relative to the workspace, and the first matching line (1-based)
/// with surrounding whitespace removed.
#[derive(Debug)]
pub struct SearchResult {
    pub entity_type: String,
    pub file_path: String,
    pub line_number: usize,
    pub matching_line: String,
}

// ───────────────────────── path segments ─────────────────────────

/// The non-empty pieces of `p`, in order.
pub open spec fn nonempty(p: Seq<Seq<char>>) -> Seq<Seq<char>>
    decreases p.len(),
{
    if p.len() == 0 {
        p
    } else if p.last().len() == 0 {
        nonempty(p.drop_last())
    } else {
        nonempty(p.drop_last()).push(p.last())
    }
}

/// The non-empty `/`-separated segments of a relative path.
pub open spec fn path_segments(path: Seq<char>) -> Seq<Seq<char>> {
    nonempty(split_on(path, '/'))
}

/// The segments of `path` that are not empty.
pub fn segments_of(path: &str) -> (r: Vec<Vec<char>>)
    ensures
        r@.len() == path_segments(path@).len(),
        forall|i: int| 0 <= i < r@.len() ==> (#[trigger] r@[i])@ == path_segments(path@)[i],
{
    let v = chars_of(path);
    let parts = split_chars(&v, '/');
    let ghost p = split_on(path@, '/');
    let mut out: Vec<Vec<char>> = Vec::new();
    let mut i: usize = 0;
    while i < parts.len()
        invariant
            i <= parts@.len(),
            parts@.len() == p.len(),
            forall|j: int| 0 <= j < parts@.len() ==> (#[trigger] parts@[j])@ == p[j],
            out@.len() == nonempty(p.take(i as int)).len(),
            forall|j: int| 0 <= j < out@.len() ==> (#[trigger] out@[j])@ == nonempty(p.take(i as int))[j],
        decreases parts.len() - i,
    {
        assert(p.take(i + 1).drop_last() =~= p.take(i as int));
        assert(p.take(i + 1).last() == p[i as int]);
        if parts[i].len() > 0 {
            out.push(parts[i].clone());
        }
        i = i + 1;
    }
    assert(p.take(parts.len() as int) =~= p);
    out
}

// ───────────────────────── entity kinds ─────────────────────────

/// The kind of entity that a directory of this name holds, if any.
pub open spec fn marker_of(seg: Seq<char>) -> Option<Seq<char>> {
    if seg == "findings"@ {
        Some("finding"@)
    } else if seg == "requirements"@ {
        Some("requirement"@)
    } else if seg == "notes"@ {
        Some("note"@)
    } else if seg == "documents"@ {
        Some("document"@)
    } else if seg == "docs"@ {
        Some("section"@)
    } else {
        None
    }
}

/// The kind named by the first segment, from `i` on, that is a known
/// directory.
pub open spec fn first_marker_from(segs: Seq<Seq<char>>, i: int) -> Option<Seq<char>>
    decreases segs.len() - i,
{
    if i < 0 || i >= segs.len() {
        None
    } else {
        match marker_of(segs[i]) {
            Some(t) => Some(t),
            None => first_marker_from(segs, i + 1),
        }
    }
}

/// The kind of a file's entity: `template` under `templates/`; else the
/// kind of the first known directory on its path (`findings`,
/// `requirements`, `notes`, `documents`, `docs`); else `scope` for
/// `scope.md`; else, by depth, the config or the file of the workspace,
/// a client, a project or an engagement.
pub open spec fn classify_spec(path: Seq<char>) -> Seq<char> {
    let segs = path_segments(path);
    if segs.len() > 0 && segs[0] == "templates"@ {
        "template"@
    } else if first_marker_from(segs, 0) is Some {
        first_marker_from(segs, 0)->0
    } else if segs.len() > 0 && segs.last() == "scope.md"@ {
        "scope"@
    } else if segs.len() > 0 && segs.last() == "config.toml"@ {
        if segs.len() == 1 {
            "workspace"@
        } else if segs.len() == 2 {
            "client"@
        } else if segs.len() == 3 {
            "project"@
        } else {
            "engagement"@
        }
    } else if segs.len() == 1 {
        "client"@
    } else if segs.len() == 2 {
        "project"@
    } else if segs.len() == 3 {
        "engagement"@
    } else {
        "file"@
    }
}

fn marker_exec(seg: &Vec<char>) -> (r: Option<&'static str>)
    ensures
        match r {
            Some(t) => marker_of(seg@) == Some(t@),
            None => marker_of(seg@) is None,
        },
{
    if eq_lit(seg, "findings") {
        Some("finding")
    } else if eq_lit(seg, "requirements") {
        Some("requirement")
    } else if eq_lit(seg, "notes") {
        Some("note")
    } else if eq_lit(seg, "documents") {
        Some("document")
    } else if eq_lit(seg, "docs") {
        Some("section")
    } else {
        None
    }
}

/// Classifies a workspace-relative path by the kind of entity it belongs to.
pub fn classify_entity(rel_path: &str) -> (r: &'static str)
    ensures
        r@ == classify_spec(rel_path@),
{
    let segs = segments_of(rel_path);
    let ghost s = path_segments(rel_path@);
    let n = segs.len();
    if n > 0 && eq_lit(&segs[0], "templates") {
        return "template";
    }
    let mut i: usize = 0;
    while i < n
        invariant
            i <= n,
            n == segs@.len() == s.len(),
            s == path_segments(rel_path@),
            !(n > 0 && s[0] == "templates"@),
            forall|j: int| 0 <= j < n ==> (#[trigger] segs@[j])@ == s[j],
            first_marker_from(s, 0) == first_marker_from(s, i as int),
        decreases n - i,
    {
        match marker_exec(&segs[i]) {
            Some(t) => {
                return t;
            },
            None => {},
        }
        i = i + 1;
    }
    assert(first_marker_from(s, n as int) is None);
    if n > 0 && eq_lit(&segs[n - 1], "scope.md") {
        return "scope";
    }
    if n > 0 && eq_lit(&segs[n - 1], "config.toml") {
        if n == 1 {
            "workspace"
        } else if n == 2 {
            "client"
        } else if n == 3 {
            "project"
        } else {
            "engagement"
        }
    } else if n == 1 {
        "client"
    } else if n == 2 {
        "project"
    } else if n == 3 {
        "engagement"
    } else {
        "file"
    }
}

// ───────────────────────── matching lines ─────────────────────────

/// Whether `line` holds `query`, both lower-cased.
pub open spec fn line_hits(line: Seq<char>, query: Seq<char>) -> bool {
    contains(lowercase(line), lowercase(query))
}

/// The index of the first line, from `i` on, that holds the query.
pub open spec fn first_hit_from(lines: Seq<Seq<char>>, query: Seq<char>, i: int) -> Option<int>
    decreases lines.len() - i,
{
    if i < 0 || i >= lines.len() {
        None
    } else if line_hits(lines[i], query) {
        Some(i)
    } else {
        first_hit_from(lines, query, i + 1)
    }
}

/// A search reports the first line that holds the query: that line holds
/// it, and no line before it does; when none is reported, no line does.
pub proof fn law_first_hit(lines: Seq<Seq<char>>, query: Seq<char>, i: int)
    requires
        0 <= i,
    ensures
        first_hit_from(lines, query, i) matches Some(k) ==> i <= k < lines.len() && line_hits(lines[k], query)
            && forall|j: int| i <= j < k ==> !line_hits(#[trigger] lines[j], query),
        first_hit_from(lines, query, i) is None ==> forall|j: int| i <= j < lines.len() ==> !line_hits(#[trigger] lines[j], query),
    decreases lines.len() - i,
{
    if i < lines.len() && !line_hits(lines[i], query) {
        law_first_hit(lines, query, i + 1);
    }
}

/// The first line of `content` (as `str::lines` splits it) that holds
/// `query`, ignoring case: its 1-based number and its text trimmed.
pub fn first_matching_line(content: &str, query: &str) -> (r: Option<(usize, String)>)
    ensures
        match first_hit_from(text_lines(content@), query@, 0) {
            Some(k) => r matches Some((n, l)) && n == k + 1 && l@ == trim(text_lines(content@)[k]),
            None => r is None,
        },
{
    let lines = lines_of(&chars_of(content));
    let ghost ls = text_lines(content@);
    let q = chars_of(to_lowercase(query).as_str());
    let mut i: usize = 0;
    while i < lines.len()
        invariant
            i <= lines@.len(),
            lines@.len() == ls.len(),
            ls == text_lines(content@),
            forall|j: int| 0 <= j < lines@.len() ==> (#[trigger] lines@[j])@ == ls[j],
            q@ == lowercase(query@),
            first_hit_from(ls, query@, 0) == first_hit_from(ls, query@, i as int),
        decreases lines.len() - i,
    {
        let text = string_of(&lines[i]);
        let low = chars_of(to_lowercase(text.as_str()).as_str());
        if has_substring(&low, &q) {
            assert(text@ == ls[i as int]);
            assert(low@ == lowercase(ls[i as int]));
            assert(line_hits(ls[i as int], query@));
            assert(first_hit_from(ls, query@, i as int) == Some(i as int));
            let n = i + 1;
            let line = trim_str(text.as_str());
            assert(line@ == trim(ls[i as int]));
            return Some((n, line));
        }
        i = i + 1;
    }
    None
}

// ───────────────────────── one file ─────────────────────────

/// The client a relative path lies under: its first segment.
pub open spec fn client_of(path: Seq<char>) -> Option<Seq<char>> {
    let segs = path_segments(path);
    if segs.len() > 0 {
        Some(segs[0])
    } else {
        None
    }
}

/// What searching one Markdown file gives: nothing when a filter on the
/// entity kind or on the client leaves it out or no line holds the query,
/// else the file's result.
pub open spec fn search_file_spec(
    rel: Seq<char>,
    content: Seq<char>,
    query: Seq<char>,
    type_filter: Option<Seq<char>>,
    client_filter: Option<Seq<char>>,
) -> Option<(Seq<char>, Seq<char>, int, Seq<char>)> {
    let kind = classify_spec(rel);
    if type_filter matches Some(t) && kind != t {
        None
    } else if client_filter matches Some(c) && client_of(rel) != Some(c) {
        None
    } else {
        match first_hit_from(text_lines(content), query, 0) {
            Some(k) => Some((kind, rel, k + 1, trim(text_lines(content)[k]))),
            None => None,
        }
    }
}

pub open spec fn opt_str_view(o: Option<&str>) -> Option<Seq<char>> {
    match o {
        Some(s) => Some(s@),
        None => None,
    }
}

/// Searches one Markdown file of the workspace, at `rel_path`, holding
/// `content`.
pub fn search_file(
    rel_path: &str,
    content: &str,
    query: &str,
    entity_type_filter: Option<&str>,
    client_filter: Option<&str>,
) -> (r: Option<SearchResult>)
    ensures
        match search_file_spec(rel_path@, content@, query@, opt_str_view(entity_type_filter),
            opt_str_view(client_filter)) {
            Some((kind, path, n, line)) => r matches Some(res) && res.entity_type@ == kind
                && res.file_path@ == path && res.line_number == n && res.matching_line@ == line,
            None => r is None,
        },
{
    let kind = classify_entity(rel_path);
    match entity_type_filter {
        Some(t) => {
            if !str_eq(kind, t) {
                return None;
            }
        },
        None => {},
    }
    match client_filter {
        Some(c) => {
            let segs = segments_of(rel_path);
            if segs.len() == 0 {
                return None;
            }
            if !eq_lit(&segs[0], c) {
                return None;
            }
        },
        None => {},
    }
    match first_matching_line(content, query) {
        Some((n, line)) => Some(
            SearchResult {
                entity_type: crate::text::lit(kind),
                file_path: crate::text::lit(rel_path),
                line_number: n,
                matching_line: line,
            },
        ),
        None => None,
    }
}

} // verus!
