//! Findings of the workspace files: their IDs and file names, how a file is
//! found again by its ID, filtered listings, and fix deadlines.

use crate::commands::email::{date_text, epoch_date_text};
use crate::text::{chars_of, ends_with, eq_lit, has_prefix, has_suffix, lit, lowercase, starts_with, str_eq, string_of, to_lowercase};
use crate::stats::{str_less, str_lt};
use crate::workspace::{slug_from_title, slug_from_title_spec};
use vstd::prelude::*;

verus! {

/// A finding ID: `<client prefix>-<project abbreviation>-<sequence>`.
pub fn finding_id(prefix: &str, abbreviation: &str, sequence: &str) -> (r: String)
    ensures
        r@ == prefix@ + "-"@ + abbreviation@ + "-"@ + sequence@,
{
    let mut r = lit(prefix);
    r.append("-");
    r.append(abbreviation);
    r.append("-");
    r.append(sequence);
    r
}

/// `-` turned into `_`.
pub open spec fn dash_to_underscore(c: char) -> char {
    if c == '-' {
        '_'
    } else {
        c
    }
}

/// The start of the file name of a finding: its ID lower-cased, with `-`
/// turned into `_`.
pub open spec fn file_stem_spec(id: Seq<char>) -> Seq<char> {
    lowercase(id).map_values(|c: char| dash_to_underscore(c))
}

/// The start of the file name of the finding with this ID.
pub fn finding_file_stem(finding_id: &str) -> (r: String)
    ensures
        r@ == file_stem_spec(finding_id@),
{
    let low = chars_of(to_lowercase(finding_id).as_str());
    let mut out: Vec<char> = Vec::new();
    let mut i: usize = 0;
    while i < low.len()
        invariant
            i <= low@.len(),
            low@ == lowercase(finding_id@),
            out@ == low@.take(i as int).map_values(|c: char| dash_to_underscore(c)),
        decreases low.len() - i,
    {
        let c = low[i];
        out.push(if c == '-' { '_' } else { c });
        i = i + 1;
        assert(out@ =~= low@.take(i as int).map_values(|c: char| dash_to_underscore(c)));
    }
    assert(low@.take(low.len() as int) =~= low@);
    string_of(&out)
}

/// The file name of a new finding: `<stem>_<slug of the title>.md`.
pub open spec fn finding_file_name_spec(id: Seq<char>, title: Seq<char>) -> Seq<char> {
    file_stem_spec(id) + "_"@ + slug_from_title_spec(title) + ".md"@
}

/// The file name of a new finding with this ID and title.
pub fn finding_file_name(finding_id: &str, title: &str) -> (r: String)
    ensures
        r@ == finding_file_name_spec(finding_id@, title@),
{
    let mut r = finding_file_stem(finding_id);
    r.append("_");
    let slug = slug_from_title(title);
    r.append(slug.as_str());
    r.append(".md");
    r
}

/// Whether a file in a `findings` directory is the one for the ID: its
/// name starts with the ID's stem and ends with `.md`.
pub open spec fn is_finding_file_for(name: Seq<char>, id: Seq<char>) -> bool {
    starts_with(name, file_stem_spec(id)) && ends_with(name, ".md"@)
}

/// The index of the first name that is the file of the finding with this
/// ID.
pub fn find_finding_name(names: &Vec<String>, finding_id: &str) -> (r: Option<usize>)
    ensures
        match r {
            Some(i) => i < names@.len() && is_finding_file_for(names@[i as int]@, finding_id@)
                && forall|j: int| 0 <= j < i ==> !is_finding_file_for(#[trigger] names@[j]@, finding_id@),
            None => forall|j: int| 0 <= j < names@.len() ==> !is_finding_file_for(#[trigger] names@[j]@, finding_id@),
        },
{
    let stem = chars_of(finding_file_stem(finding_id).as_str());
    let md = chars_of(".md");
    let mut i: usize = 0;
    while i < names.len()
        invariant
            i <= names@.len(),
            stem@ == file_stem_spec(finding_id@),
            md@ == ".md"@,
            forall|j: int| 0 <= j < i ==> !is_finding_file_for(#[trigger] names@[j]@, finding_id@),
        decreases names.len() - i,
    {
        let n = chars_of(names[i].as_str());
        if has_prefix(&n, &stem) && has_suffix(&n, &md) {
            return Some(i);
        }
        i = i + 1;
    }
    None
}

// ───────────────────────── listing ─────────────────────────

/// A finding as listed: the strings of its frontmatter ("" when absent),
/// its file name and its path.
#[derive(Debug)]
pub struct FindingEntry {
    pub id: String,
    pub status: String,
    pub severity: String,
    pub filename: String,
    pub path: String,
}

pub open spec fn opt_str_view(o: Option<&str>) -> Option<Seq<char>> {
    match o {
        Some(s) => Some(s@),
        None => None,
    }
}

/// Whether a finding passes the optional severity and status filters.
pub open spec fn passes_filters(
    severity: Seq<char>,
    status: Seq<char>,
    severity_filter: Option<Seq<char>>,
    status_filter: Option<Seq<char>>,
) -> bool {
    (severity_filter matches Some(s) ==> severity == s) && (status_filter matches Some(s) ==> status == s)
}

/// Whether a finding with this severity and status is listed under the
/// filters.
pub fn finding_passes_filters(
    severity: &str,
    status: &str,
    severity_filter: Option<&str>,
    status_filter: Option<&str>,
) -> (r: bool)
    ensures
        r == passes_filters(severity@, status@, opt_str_view(severity_filter), opt_str_view(status_filter)),
{
    let sev_ok = match severity_filter {
        Some(s) => str_eq(severity, s),
        None => true,
    };
    let st_ok = match status_filter {
        Some(s) => str_eq(status, s),
        None => true,
    };
    sev_ok && st_ok
}

// ───────────────────────── fix deadlines ─────────────────────────

/// Days allowed to fix a finding of this severity: critical 30, high 60,
/// medium 90, low 180; other severities have no deadline.
pub open spec fn fix_days_spec(severity: Seq<char>) -> Option<i32> {
    if severity == "critical"@ {
        Some(30)
    } else if severity == "high"@ {
        Some(60)
    } else if severity == "medium"@ {
        Some(90)
    } else if severity == "low"@ {
        Some(180)
    } else {
        None
    }
}

/// The more severe a finding, the sooner it must be fixed: critical within
/// 30 days, high 60, medium 90, low 180; informational findings (and any
/// other level) get no deadline.
pub proof fn law_fix_days_by_severity()
    ensures
        fix_days_spec("critical"@) == Some(30i32),
        fix_days_spec("high"@) == Some(60i32),
        fix_days_spec("medium"@) == Some(90i32),
        fix_days_spec("low"@) == Some(180i32),
        fix_days_spec("informational"@) is None,
        fix_days_spec("critical"@)->0 < fix_days_spec("high"@)->0 < fix_days_spec("medium"@)->0 < fix_days_spec(
            "low"@,
        )->0,
{
    reveal_strlit("critical");
    reveal_strlit("high");
    reveal_strlit("medium");
    reveal_strlit("low");
    reveal_strlit("informational");
    assert("critical"@.len() == 8 && "high"@.len() == 4 && "medium"@.len() == 6 && "low"@.len() == 3
        && "informational"@.len() == 13);
}

/// The days allowed to fix a finding of this severity.
pub fn fix_deadline_days(severity: &str) -> (r: Option<i32>)
    ensures
        r == fix_days_spec(severity@),
{
    let v = chars_of(severity);
    if eq_lit(&v, "critical") {
        Some(30)
    } else if eq_lit(&v, "high") {
        Some(60)
    } else if eq_lit(&v, "medium") {
        Some(90)
    } else if eq_lit(&v, "low") {
        Some(180)
    } else {
        None
    }
}

/// The deadline for a finding of this severity found on day `today` (days
/// since 1970-01-01), as `YYYY-MM-DD`: empty when the severity has no
/// deadline or the day is past what a date can hold.
pub open spec fn fix_deadline_spec(severity: Seq<char>, today: i32) -> Seq<char> {
    match fix_days_spec(severity) {
        None => Seq::empty(),
        Some(d) => if today + d > i32::MAX {
            Seq::empty()
        } else {
            match epoch_date_text((today + d) as i32) {
                Some(t) => t,
                None => Seq::empty(),
            }
        },
    }
}

/// The fix deadline of a finding of this severity found on day `today`.
pub fn fix_deadline_on(severity: &str, today: i32) -> (r: String)
    ensures
        r@ == fix_deadline_spec(severity@, today),
{
    match fix_deadline_days(severity) {
        None => String::new(),
        Some(d) => {
            if today > i32::MAX - d {
                return String::new();
            }
            match date_text(today + d) {
                Some(t) => t,
                None => String::new(),
            }
        },
    }
}

/// Calls `chrono::Utc::now().date_naive().to_epoch_days()`: today's date
/// in UTC, as days since 1970-01-01. Nothing is stated of the value.
#[verifier::external_body]
fn utc_today() -> (r: i32) {
    chrono::Utc::now().date_naive().to_epoch_days()
}

/// The fix deadline of a finding of this severity found today (UTC).
pub fn calculate_fix_deadline(severity: &str) -> (r: String)
    ensures
        fix_days_spec(severity@) is None ==> r@.len() == 0,
        fix_days_spec(severity@) is Some ==> exists|today: i32| r@ == fix_deadline_spec(severity@, today),
{
    let today = utc_today();
    fix_deadline_on(severity, today)
}


// ───────────────────────── new files ─────────────────────────

/// `str::replace(pat, rep)` for a non-empty pattern: every occurrence,
/// found left to right without overlap, replaced.
pub open spec fn replace_all(s: Seq<char>, pat: Seq<char>, rep: Seq<char>) -> Seq<char>
    decreases s.len(),
{
    if pat.len() == 0 || s.len() == 0 {
        s
    } else if pat.len() <= s.len() && s.take(pat.len() as int) == pat {
        rep + replace_all(s.skip(pat.len() as int), pat, rep)
    } else {
        seq![s[0]] + replace_all(s.drop_first(), pat, rep)
    }
}

fn occurs_here(s: &Vec<char>, pat: &Vec<char>, i: usize) -> (r: bool)
    requires
        i <= s@.len(),
    ensures
        r == (pat@.len() <= s@.skip(i as int).len() && s@.skip(i as int).take(pat@.len() as int) == pat@),
{
    if pat.len() > s.len() - i {
        return false;
    }
    let mut k: usize = 0;
    while k < pat.len()
        invariant
            k <= pat@.len(),
            i + pat@.len() <= s.len(),
            forall|j: int| 0 <= j < k ==> s@[i + j] == pat@[j],
        decreases pat.len() - k,
    {
        if s[i + k] != pat[k] {
            assert(s@.skip(i as int).take(pat@.len() as int)[k as int] != pat@[k as int]);
            return false;
        }
        k = k + 1;
    }
    assert(s@.skip(i as int).take(pat@.len() as int) =~= pat@);
    true
}

/// Replaces every occurrence of a non-empty pattern.
pub fn replace_str(s: &str, pat: &str, rep: &str) -> (r: String)
    requires
        pat@.len() > 0,
    ensures
        r@ == replace_all(s@, pat@, rep@),
{
    let sv = chars_of(s);
    let pv = chars_of(pat);
    let mut out = String::new();
    let mut i: usize = 0;
    assert(sv@.skip(0) =~= sv@);
    while i < sv.len()
        invariant
            i <= sv@.len(),
            sv@ == s@,
            pv@ == pat@,
            pat@.len() > 0,
            out@ + replace_all(sv@.skip(i as int), pv@, rep@) == replace_all(s@, pat@, rep@),
        decreases sv.len() - i,
    {
        let ghost rest = sv@.skip(i as int);
        if occurs_here(&sv, &pv, i) {
            out.append(rep);
            assert(rest.skip(pv@.len() as int) =~= sv@.skip(i + pv@.len()));
            assert(out@ + replace_all(sv@.skip(i + pv@.len()), pv@, rep@) =~= replace_all(s@, pat@, rep@));
            i = i + pv.len();
        } else {
            crate::text::push_char(&mut out, sv[i]);
            assert(rest.drop_first() =~= sv@.skip(i + 1));
            assert(rest[0] == sv@[i as int]);
            assert(out@ + replace_all(sv@.skip(i + 1), pv@, rep@) =~= replace_all(s@, pat@, rep@));
            i = i + 1;
        }
    }
    assert(sv@.skip(i as int) =~= Seq::<char>::empty());
    assert(out@ =~= replace_all(s@, pat@, rep@));
    out
}

/// The body of a new finding or requirement: the template with every
/// `{{title}}` replaced by the title, or a bare `# <title>` heading.
pub open spec fn entity_body_spec(template: Option<Seq<char>>, title: Seq<char>) -> Seq<char> {
    match template {
        Some(t) => replace_all(t, "{{title}}"@, title),
        None => "# "@ + title + "\n\n"@,
    }
}

/// Builds the body of a new finding or requirement.
pub fn entity_body(template: Option<&str>, title: &str) -> (r: String)
    ensures
        r@ == entity_body_spec(opt_str_view(template), title@),
{
    match template {
        Some(t) => {
            proof {
                reveal_strlit("{{title}}");
            }
            replace_str(t, "{{title}}", title)
        },
        None => {
            let mut r = lit("# ");
            r.append(title);
            r.append("\n\n");
            r
        },
    }
}

/// Whether a requirement's status may change from `current` to `target`:
/// any change is allowed from no status; otherwise the move must be one of
/// the requirement state machine's.
pub fn check_requirement_status_change(current: &str, target: &str) -> (r: Result<(), crate::workspace::WorkspaceError>)
    ensures
        r is Ok <==> (current@.len() == 0 || crate::entities::requirement_transition_ok(current@, target@)),
        r matches Err(e) ==> e == crate::workspace::WorkspaceError::InvalidStatusSeverity(e->InvalidStatusSeverity_0)
            && e->InvalidStatusSeverity_0@ == "Invalid requirement status transition: "@ + current@ + " -> "@ + target@,
{
    if chars_of(current).len() > 0 && !crate::entities::is_valid_requirement_transition(current, target) {
        let mut m = lit("Invalid requirement status transition: ");
        m.append(current);
        m.append(" -> ");
        m.append(target);
        Err(crate::workspace::WorkspaceError::InvalidStatusSeverity(m))
    } else {
        Ok(())
    }
}

// ───────────────────────── ordering by ID ─────────────────────────

/// `a` comes no later than `b` in the order of strings.
pub open spec fn str_le(a: Seq<char>, b: Seq<char>) -> bool {
    !str_lt(b, a)
}

pub open spec fn ids_view(v: Seq<String>) -> Seq<Seq<char>> {
    v.map_values(|s: String| s@)
}

/// `order` lists each index of `ids` once, in the order of a stable sort by
/// ID: IDs never decrease along it, and equal IDs keep their order.
pub open spec fn stable_order(ids: Seq<Seq<char>>, order: Seq<usize>) -> bool {
    &&& order.len() == ids.len()
    &&& forall|k: int| 0 <= k < order.len() ==> (#[trigger] order[k]) < ids.len()
    &&& forall|a: int, b: int| 0 <= a < b < order.len() ==> #[trigger] order[a] != #[trigger] order[b]
    &&& forall|a: int, b: int| 0 <= a < b < order.len() ==> str_le(ids[#[trigger] order[a] as int], ids[#[trigger] order[b] as int])
    &&& forall|a: int, b: int| 0 <= a < b < order.len() && ids[#[trigger] order[a] as int] == ids[#[trigger] order[b] as int] ==> order[a] < order[b]
}

/// The order in which `sort_by` on the IDs puts the entries: the index of
/// each entry, a stable sort by ID.
pub fn sort_order(ids: &Vec<String>) -> (r: Vec<usize>)
    ensures
        stable_order(ids_view(ids@), r@),
{
    let ghost iv = ids_view(ids@);
    let mut order: Vec<usize> = Vec::new();
    let mut i: usize = 0;
    while i < ids.len()
        invariant
            i <= ids@.len(),
            iv == ids_view(ids@),
            order@.len() == i,
            forall|k: int| 0 <= k < order@.len() ==> (#[trigger] order@[k]) < i,
            forall|a: int, b: int| 0 <= a < b < order@.len() ==> #[trigger] order@[a] != #[trigger] order@[b],
            forall|a: int, b: int| 0 <= a < b < order@.len() ==> str_le(iv[#[trigger] order@[a] as int], iv[#[trigger] order@[b] as int]),
            forall|a: int, b: int| 0 <= a < b < order@.len() && iv[#[trigger] order@[a] as int] == iv[#[trigger] order@[b] as int] ==> order@[a] < order@[b],
        decreases ids.len() - i,
    {
        let key = chars_of(ids[i].as_str());
        assert(key@ == iv[i as int]);
        // The place after every entry whose ID is not greater than ids[i].
        let mut p: usize = order.len();
        while p > 0 && str_less(&key, &chars_of(ids[order[p - 1]].as_str()))
            invariant
                p <= order@.len() == i,
                i < ids@.len(),
                iv == ids_view(ids@),
                key@ == iv[i as int],
                forall|k: int| 0 <= k < order@.len() ==> (#[trigger] order@[k]) < i,
                forall|k: int| p <= k < order@.len() ==> str_lt(iv[i as int], iv[#[trigger] order@[k] as int]),
            decreases p,
        {
            assert(iv[order@[p - 1] as int] == ids@[order@[p - 1] as int]@);
            p = p - 1;
        }
        proof {
            if p > 0 {
                assert(iv[order@[p - 1] as int] == ids@[order@[p - 1] as int]@);
                assert(!str_lt(iv[i as int], iv[order@[p - 1] as int]));
            }
        }
        let ghost before = order@;
        order.insert(p, i);
        proof {
            let o = order@;
            assert(o =~= before.insert(p as int, i));
            assert forall|k: int| 0 <= k < o.len() implies (#[trigger] o[k]) < i + 1 by {
                if k < p {
                    assert(o[k] == before[k]);
                } else if k > p {
                    assert(o[k] == before[k - 1]);
                }
            }
            assert forall|a: int, b: int| 0 <= a < b < o.len() implies #[trigger] o[a] != #[trigger] o[b] by {
                if a == p {
                    assert(o[b] == before[b - 1]);
                } else if b == p {
                    assert(o[a] == before[a]);
                } else {
                    let a0 = if a < p { a } else { a - 1 };
                    let b0 = if b < p { b } else { b - 1 };
                    assert(o[a] == before[a0] && o[b] == before[b0]);
                }
            }
            assert forall|a: int, b: int| 0 <= a < b < o.len() implies str_le(iv[#[trigger] o[a] as int], iv[#[trigger] o[b] as int]) by {
                let x = iv[i as int];
                if a == p {
                    assert(o[b] == before[b - 1]);
                    crate::stats::lemma_str_lt_total(x, iv[before[b - 1] as int]);
                } else if b == p {
                    assert(o[a] == before[a]);
                    // before[a] is no later than before[p - 1], which is no later than x.
                    if a < p - 1 {
                        assert(str_le(iv[before[a] as int], iv[before[p - 1] as int]));
                        if str_lt(x, iv[before[a] as int]) {
                            crate::stats::lemma_str_lt_total(iv[before[a] as int], iv[before[p - 1] as int]);
                            if iv[before[a] as int] == iv[before[p - 1] as int] {
                            } else {
                                crate::stats::lemma_str_lt_transitive(x, iv[before[a] as int], iv[before[p - 1] as int]);
                            }
                        }
                    }
                } else {
                    let a0 = if a < p { a } else { a - 1 };
                    let b0 = if b < p { b } else { b - 1 };
                    assert(o[a] == before[a0] && o[b] == before[b0]);
                }
            }
            assert forall|a: int, b: int| 0 <= a < b < o.len() && iv[#[trigger] o[a] as int] == iv[#[trigger] o[b] as int] implies o[a] < o[b] by {
                let x = iv[i as int];
                if a == p {
                    assert(o[b] == before[b - 1]);
                    crate::stats::lemma_str_lt_irreflexive(x);
                } else if b == p {
                    assert(o[a] == before[a]);
                } else {
                    let a0 = if a < p { a } else { a - 1 };
                    let b0 = if b < p { b } else { b - 1 };
                    assert(o[a] == before[a0] && o[b] == before[b0]);
                }
            }
        }
        i = i + 1;
    }
    order
}

} // verus!
