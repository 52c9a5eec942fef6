//! Engagement notes kept under `notes/`: identifiers, file names and the
//! rule for the names given to remove one.

use crate::text::{chars_of, eq_lit, first_chars, has_char, lit, parse_unsigned, parse_unsigned_max, starts_with, ends_with, string_of, take_chars, zero_padded, zero_padded_string};
use crate::workspace::{slug_from_title, slug_from_title_spec, WorkspaceError};
use vstd::prelude::*;

verus! {

/// A note as listed.
pub struct NoteEntry {
    pub id: String,
    pub filename: String,
}

/// A requirement as listed.
pub struct RequirementEntry {
    pub id: String,
    pub status: String,
    pub filename: String,
}

/// The number in a `NOTE-<n>` identifier, read as a `u32`.
pub open spec fn note_number(id: Seq<char>) -> Option<nat> {
    if starts_with(id, "NOTE-"@) {
        parse_unsigned(id.skip(5), u32::MAX as nat)
    } else {
        None
    }
}

/// The largest note number among the identifiers (0 when none is one).
pub open spec fn max_note_number(ids: Seq<Seq<char>>) -> nat
    decreases ids.len(),
{
    if ids.len() == 0 {
        0
    } else {
        let p = max_note_number(ids.drop_last());
        match note_number(ids.last()) {
            Some(n) => if n > p { n } else { p },
            None => p,
        }
    }
}

proof fn lemma_max_note_bound(ids: Seq<Seq<char>>)
    ensures
        max_note_number(ids) <= u32::MAX,
    decreases ids.len(),
{
    if ids.len() > 0 {
        lemma_max_note_bound(ids.drop_last());
    }
}

/// The next note number for notes with the given identifiers: one more
/// than the largest `NOTE-<n>`.
pub fn next_note_number(ids: &Vec<String>) -> (r: u32)
    requires
        max_note_number(ids@.map_values(|s: String| s@)) < u32::MAX,
    ensures
        r == max_note_number(ids@.map_values(|s: String| s@)) + 1,
{
    let ghost all = ids@.map_values(|s: String| s@);
    let mut max: u32 = 0;
    let mut i: usize = 0;
    assert(all.take(0) =~= Seq::<Seq<char>>::empty());
    while i < ids.len()
        invariant
            i <= ids@.len(),
            all == ids@.map_values(|s: String| s@),
            max == max_note_number(all.take(i as int)),
        decreases ids.len() - i,
    {
        assert(all.take(i + 1).drop_last() =~= all.take(i as int));
        assert(all.take(i + 1).last() == ids@[i as int]@);
        let v = chars_of(ids[i].as_str());
        let p = chars_of("NOTE-");
        proof {
            reveal_strlit("NOTE-");
        }
        if crate::text::has_prefix(&v, &p) {
            let mut rest: Vec<char> = Vec::new();
            let mut k: usize = 5;
            while k < v.len()
                invariant
                    5 <= k <= v@.len(),
                    rest@ == v@.subrange(5, k as int),
                decreases v.len() - k,
            {
                rest.push(v[k]);
                k = k + 1;
                assert(rest@ =~= v@.subrange(5, k as int));
            }
            assert(rest@ =~= v@.skip(5));
            match parse_unsigned_max(&rest, u32::MAX as u64) {
                Some(n) => {
                    if n as u32 > max {
                        max = n as u32;
                    }
                },
                None => {},
            }
        }
        i = i + 1;
    }
    assert(all.take(i as int) =~= all);
    proof {
        lemma_max_note_bound(all);
    }
    max + 1
}

/// The identifier of note number `n`: `NOTE-` and three padded digits.
pub fn note_id(n: u32) -> (r: String)
    ensures
        r@ == "NOTE-"@ + zero_padded(n as nat, 3),
{
    let mut r = lit("NOTE-");
    let d = zero_padded_string(n as u64, 3);
    r.append(d.as_str());
    r
}

/// The date with `-` turned into `_`.
pub open spec fn underscored(s: Seq<char>) -> Seq<char> {
    s.map_values(|c: char| if c == '-' { '_' } else { c })
}

/// The file name of a note: its date with `_` for `-`, `_`, the first 40
/// characters of the slug of its message, and `.md`.
pub open spec fn note_filename_spec(today: Seq<char>, message: Seq<char>) -> Seq<char> {
    underscored(today) + "_"@ + first_chars(slug_from_title_spec(message), 40) + ".md"@
}

/// Builds the file name of a note written on `today` (`YYYY-MM-DD`).
pub fn note_filename(today: &str, message: &str) -> (r: String)
    ensures
        r@ == note_filename_spec(today@, message@),
{
    let t = chars_of(today);
    let mut u: Vec<char> = Vec::new();
    let mut i: usize = 0;
    while i < t.len()
        invariant
            i <= t@.len(),
            u@ == t@.take(i as int).map_values(|c: char| if c == '-' { '_' } else { c }),
        decreases t.len() - i,
    {
        let c = if t[i] == '-' { '_' } else { t[i] };
        u.push(c);
        assert(t@.take(i + 1).map_values(|c: char| if c == '-' { '_' } else { c }) =~= t@.take(i as int).map_values(
            |c: char| if c == '-' { '_' } else { c },
        ).push(c));
        i = i + 1;
    }
    assert(t@.take(i as int) =~= t@);
    let slug = slug_from_title(message);
    let short = take_chars(&slug, 40);
    let mut r = string_of(&u);
    r.append("_");
    r.append(short.as_str());
    r.append(".md");
    r
}

/// The note to remove: the given name without a trailing `.md`; it must be
/// a single file name (not empty, `.` or `..`, and without `/`, `\`, `:` or
/// a NUL character).
pub open spec fn note_slug_spec(name: Seq<char>) -> Option<Seq<char>> {
    let slug = if ends_with(name, ".md"@) { name.take(name.len() - 3) } else { name };
    if slug.len() == 0 || slug == "."@ || slug == ".."@ || slug.contains('/') || slug.contains('\\')
        || slug.contains(':') || slug.contains('\0') {
        None
    } else {
        Some(slug)
    }
}

/// Checks the name of a note to remove and returns its slug; an unsafe
/// name is an `InvalidName` error.
pub fn note_slug(name: &str) -> (r: Result<String, WorkspaceError>)
    ensures
        match r {
            Ok(s) => note_slug_spec(name@) == Some(s@),
            Err(e) => note_slug_spec(name@) is None && e matches WorkspaceError::InvalidName(_),
        },
{
    let v = chars_of(name);
    let md = chars_of(".md");
    proof {
        reveal_strlit(".md");
    }
    let slug: Vec<char> = if crate::text::has_suffix(&v, &md) {
        let mut s: Vec<char> = Vec::new();
        let n = v.len() - 3;
        let mut i: usize = 0;
        while i < n
            invariant
                i <= n,
                n == v@.len() - 3,
                s@ == v@.take(i as int),
            decreases n - i,
        {
            s.push(v[i]);
            i = i + 1;
            assert(s@ =~= v@.take(i as int));
        }
        s
    } else {
        let mut s: Vec<char> = Vec::new();
        let mut i: usize = 0;
        while i < v.len()
            invariant
                i <= v@.len(),
                s@ == v@.take(i as int),
            decreases v.len() - i,
        {
            s.push(v[i]);
            i = i + 1;
            assert(s@ =~= v@.take(i as int));
        }
        assert(v@.take(i as int) =~= v@);
        s
    };
    if slug.len() == 0 || eq_lit(&slug, ".") || eq_lit(&slug, "..") || has_char(&slug, '/') || has_char(&slug, '\\')
        || has_char(&slug, ':') || has_char(&slug, '\0') {
        return Err(WorkspaceError::InvalidName(lit("Note names must be a single filename.")));
    }
    Ok(string_of(&slug))
}

} // verus!
