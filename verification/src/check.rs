//! Health checks of a workspace: what each check reports for the values it
//! read from the files of one engagement.

use crate::credentials::magic;
use crate::entities::{
    date_shape, engagement_statuses, finding_statuses, is_valid_date, is_valid_engagement_status,
    requirement_statuses, severities,
};
use crate::text::{chars_of, lit, str_eq};
use vstd::prelude::*;

verus! {

/// How serious an issue is.
#[derive(PartialEq, Eq, Structural, Clone, Copy, Debug)]
pub enum IssueSeverity {
    Error,
    Warning,
}

/// One problem that a health check found.
#[derive(Debug)]
pub struct CheckIssue {
    pub severity: IssueSeverity,
    pub message: String,
    pub path: Option<String>,
}

/// An issue as (severity, message, path).
pub open spec fn issue_view(i: CheckIssue) -> (IssueSeverity, Seq<char>, Option<Seq<char>>) {
    (i.severity, i.message@, crate::parsers::opt_view(i.path))
}

pub open spec fn issues_view(v: Seq<CheckIssue>) -> Seq<(IssueSeverity, Seq<char>, Option<Seq<char>>)> {
    v.map_values(|i: CheckIssue| issue_view(i))
}

fn issue(severity: IssueSeverity, message: String, path: &Option<String>) -> (r: CheckIssue)
    ensures
        issue_view(r) == (severity, message@, crate::parsers::opt_view(*path)),
{
    let p = match path {
        Some(s) => Some(s.clone()),
        None => None,
    };
    CheckIssue { severity, message, path: p }
}

/// `a`, then `b`, then `c`.
fn join3(a: &str, b: &str, c: &str) -> (r: String)
    ensures
        r@ == a@ + b@ + c@,
{
    let mut r = lit(a);
    r.append(b);
    r.append(c);
    r
}

pub open spec fn in_list(v: Seq<char>, list: Seq<Seq<char>>) -> bool {
    list.contains(v)
}

/// Whether `v` is one of the five literals.
fn one_of5(v: &str, a: &str, b: &str, c: &str, d: &str, e: &str) -> (r: bool)
    ensures
        r == seq![a@, b@, c@, d@, e@].contains(v@),
{
    let r = str_eq(v, a) || str_eq(v, b) || str_eq(v, c) || str_eq(v, d) || str_eq(v, e);
    proof {
        let l = seq![a@, b@, c@, d@, e@];
        if l.contains(v@) {
            let k = choose|k: int| 0 <= k < l.len() && l[k] == v@;
            assert(k == 0 || k == 1 || k == 2 || k == 3 || k == 4);
        }
        if r {
            if v@ == a@ { assert(l[0] == v@); }
            if v@ == b@ { assert(l[1] == v@); }
            if v@ == c@ { assert(l[2] == v@); }
            if v@ == d@ { assert(l[3] == v@); }
            if v@ == e@ { assert(l[4] == v@); }
        }
    }
    r
}

/// The message for a value that is not allowed.
fn not_valid_message(v: &str, what: &str) -> (r: String)
    ensures
        r@ == "`"@ + v@ + "` is not a valid "@ + what@ + "."@,
{
    let mut m = join3("`", v, "` is not a valid ");
    m.append(what);
    m.append(".");
    m
}

// ───────────────────────── duplicate finding IDs ─────────────────────────

/// The issues for finding IDs met before, in order: each `(id, path)` whose
/// ID an earlier entry already had is an error.
pub open spec fn duplicate_issues_spec(ids: Seq<(Seq<char>, Option<Seq<char>>)>) -> Seq<
    (IssueSeverity, Seq<char>, Option<Seq<char>>),
>
    decreases ids.len(),
{
    if ids.len() == 0 {
        Seq::empty()
    } else {
        let before = ids.drop_last();
        let rest = duplicate_issues_spec(before);
        if exists|j: int| 0 <= j < before.len() && (#[trigger] before[j]).0 == ids.last().0 {
            rest.push((IssueSeverity::Error, "Duplicate finding ID: "@ + ids.last().0, ids.last().1))
        } else {
            rest
        }
    }
}

pub open spec fn id_paths_view(v: Seq<(String, Option<String>)>) -> Seq<(Seq<char>, Option<Seq<char>>)> {
    v.map_values(|p: (String, Option<String>)| (p.0@, crate::parsers::opt_view(p.1)))
}

/// Reports every finding whose ID an earlier finding already used.
pub fn duplicate_id_issues(ids: &Vec<(String, Option<String>)>) -> (r: Vec<CheckIssue>)
    ensures
        issues_view(r@) == duplicate_issues_spec(id_paths_view(ids@)),
{
    let ghost all = id_paths_view(ids@);
    let mut out: Vec<CheckIssue> = Vec::new();
    let mut i: usize = 0;
    while i < ids.len()
        invariant
            i <= ids@.len(),
            all == id_paths_view(ids@),
            issues_view(out@) == duplicate_issues_spec(all.take(i as int)),
        decreases ids.len() - i,
    {
        let ghost pre = all.take(i as int);
        assert(all.take(i + 1).drop_last() =~= pre);
        assert(all.take(i + 1).last() == all[i as int]);
        let mut seen = false;
        let mut j: usize = 0;
        while j < i
            invariant
                j <= i < ids@.len(),
                all == id_paths_view(ids@),
                pre == all.take(i as int),
                seen == exists|k: int| 0 <= k < j && (#[trigger] pre[k]).0 == all[i as int].0,
            decreases i - j,
        {
            if str_eq(ids[j].0.as_str(), ids[i].0.as_str()) {
                assert(pre[j as int].0 == all[i as int].0);
                seen = true;
            }
            j = j + 1;
        }
        let ghost before = issues_view(out@);
        if seen {
            let m = crate::text::concat("Duplicate finding ID: ", ids[i].0.as_str());
            let it = issue(IssueSeverity::Error, m, &ids[i].1);
            out.push(it);
            assert(issues_view(out@) =~= before.push(issue_view(it)));
        }
        i = i + 1;
    }
    assert(all.take(ids.len() as int) =~= all);
    out
}

// ───────────────────────── frontmatter ─────────────────────────

/// The message for a missing field of an entity.
pub open spec fn missing_message(label: Seq<char>, id: Seq<char>, field: Seq<char>) -> Seq<char> {
    label + " `"@ + id + "` is missing required field `"@ + field + "`."@
}

/// The issues for the missing fields of one file, in order; the entity is
/// named by its ID, or `unknown` when it has none.
pub fn missing_field_issues(label: &str, id: Option<&str>, missing: &Vec<String>, path: &Option<String>) -> (r: Vec<CheckIssue>)
    ensures
        r@.len() == missing@.len(),
        forall|i: int| 0 <= i < r@.len() ==> issue_view(#[trigger] r@[i]) == (
            IssueSeverity::Error,
            missing_message(label@, match id { Some(s) => s@, None => "unknown"@ }, missing@[i]@),
            crate::parsers::opt_view(*path),
        ),
{
    let name: &str = match id {
        Some(s) => s,
        None => "unknown",
    };
    let mut out: Vec<CheckIssue> = Vec::new();
    let mut i: usize = 0;
    while i < missing.len()
        invariant
            i <= missing@.len(),
            out@.len() == i,
            name@ == (match id { Some(s) => s@, None => "unknown"@ }),
            forall|k: int| 0 <= k < i ==> issue_view(#[trigger] out@[k]) == (
                IssueSeverity::Error,
                missing_message(label@, name@, missing@[k]@),
                crate::parsers::opt_view(*path),
            ),
        decreases missing.len() - i,
    {
        let mut m = join3(label, " `", name);
        m.append("` is missing required field `");
        m.append(missing[i].as_str());
        m.append("`.");
        out.push(issue(IssueSeverity::Error, m, path));
        i = i + 1;
    }
    out
}

// ───────────────────────── values ─────────────────────────

/// The issue for a value that is present but not allowed.
pub open spec fn value_issue(
    value: Option<Seq<char>>,
    allowed: Seq<Seq<char>>,
    what: Seq<char>,
    path: Option<Seq<char>>,
) -> Seq<(IssueSeverity, Seq<char>, Option<Seq<char>>)> {
    match value {
        Some(v) => if allowed.contains(v) {
            Seq::empty()
        } else {
            seq![(IssueSeverity::Error, "`"@ + v + "` is not a valid "@ + what + "."@, path)]
        },
        None => Seq::empty(),
    }
}

pub open spec fn opt_str_view(o: Option<&str>) -> Option<Seq<char>> {
    match o {
        Some(s) => Some(s@),
        None => None,
    }
}

/// The issues for a finding's `status` and `severity`, where present.
pub fn finding_value_issues(status: Option<&str>, severity: Option<&str>, path: &Option<String>) -> (r: Vec<CheckIssue>)
    ensures
        issues_view(r@) == value_issue(opt_str_view(status), finding_statuses(), "Finding status"@,
            crate::parsers::opt_view(*path)) + value_issue(opt_str_view(severity), severities(),
            "Finding severity"@, crate::parsers::opt_view(*path)),
{
    let mut out: Vec<CheckIssue> = Vec::new();
    if let Some(v) = status {
        if !one_of5(v, "open", "fixed", "false_positive", "not_applicable", "risk_accepted") {
            out.push(issue(IssueSeverity::Error, not_valid_message(v, "Finding status"), path));
        }
    }
    let ghost first = issues_view(out@);
    if let Some(v) = severity {
        if !one_of5(v, "critical", "high", "medium", "low", "informational") {
            let it = issue(IssueSeverity::Error, not_valid_message(v, "Finding severity"), path);
            out.push(it);
            assert(issues_view(out@) =~= first.push(issue_view(it)));
        }
    }
    assert(issues_view(out@) =~= value_issue(opt_str_view(status), finding_statuses(), "Finding status"@,
        crate::parsers::opt_view(*path)) + value_issue(opt_str_view(severity), severities(),
        "Finding severity"@, crate::parsers::opt_view(*path)));
    out
}


/// The issue for a requirement's `status`, where present.
pub fn requirement_value_issues(status: Option<&str>, path: &Option<String>) -> (r: Vec<CheckIssue>)
    ensures
        issues_view(r@) == value_issue(opt_str_view(status), requirement_statuses(),
            "Requirement status"@, crate::parsers::opt_view(*path)),
{
    let mut out: Vec<CheckIssue> = Vec::new();
    if let Some(v) = status {
        if !one_of5(v, "open", "in_progress", "verified", "rejected", "deferred") {
            out.push(issue(IssueSeverity::Error, not_valid_message(v, "Requirement status"), path));
        }
    }
    assert(issues_view(out@) =~= value_issue(opt_str_view(status), requirement_statuses(),
        "Requirement status"@, crate::parsers::opt_view(*path)));
    out
}

/// The issue for one configured date: none when it is empty or has the
/// `YYYY-MM-DD` shape.
pub open spec fn date_issue(date: Seq<char>, path: Option<Seq<char>>) -> Seq<(IssueSeverity, Seq<char>, Option<Seq<char>>)> {
    if date.len() == 0 || date_shape(date) {
        Seq::empty()
    } else {
        seq![(IssueSeverity::Error, "Date `"@ + date + "` is not in YYYY-MM-DD format."@, path)]
    }
}

/// A configured date is reported exactly when it is set and not written
/// as four ASCII digits, a dash, two digits, a dash and two digits; the
/// report is one error naming the date. In particular a date with a `/`
/// in it is always reported.
pub proof fn law_date_issue_exactly_malformed(date: Seq<char>, path: Option<Seq<char>>)
    ensures
        date.len() == 0 ==> date_issue(date, path).len() == 0,
        date.len() > 0 ==> (date_issue(date, path).len() == 0 <==> (date.len() == 10 && forall|i: int|
            0 <= i < 10 ==> (if i == 4 || i == 7 {
                #[trigger] date[i] == '-'
            } else {
                '0' <= date[i] && date[i] <= '9'
            }))),
        date_issue(date, path).len() <= 1,
        date_issue(date, path).len() == 1 ==> date_issue(date, path)[0].0 == IssueSeverity::Error
            && date_issue(date, path)[0].2 == path,
        (exists|i: int| 0 <= i < date.len() && date[i] == '/') ==> date_issue(date, path).len() == 1,
{
}

/// The issues for an engagement's start and end dates, in that order.
pub fn config_date_issues(start_date: &str, end_date: &str, path: &Option<String>) -> (r: Vec<CheckIssue>)
    ensures
        issues_view(r@) == date_issue(start_date@, crate::parsers::opt_view(*path)) + date_issue(
            end_date@,
            crate::parsers::opt_view(*path),
        ),
{
    let mut out: Vec<CheckIssue> = Vec::new();
    if chars_of(start_date).len() > 0 && !is_valid_date(start_date) {
        out.push(issue(IssueSeverity::Error, join3("Date `", start_date, "` is not in YYYY-MM-DD format."), path));
    }
    let ghost first = issues_view(out@);
    if chars_of(end_date).len() > 0 && !is_valid_date(end_date) {
        let it = issue(IssueSeverity::Error, join3("Date `", end_date, "` is not in YYYY-MM-DD format."), path);
        out.push(it);
        assert(issues_view(out@) =~= first.push(issue_view(it)));
    }
    assert(issues_view(out@) =~= date_issue(start_date@, crate::parsers::opt_view(*path)) + date_issue(
        end_date@,
        crate::parsers::opt_view(*path),
    ));
    out
}

/// The issue for an engagement status that is not one of the statuses.
pub open spec fn engagement_status_issue_spec(status: Seq<char>, path: Option<Seq<char>>) -> Option<(IssueSeverity, Seq<char>, Option<Seq<char>>)> {
    if engagement_statuses().contains(status) {
        None
    } else {
        Some((
            IssueSeverity::Error,
            "`"@ + status
                + "` is not a valid engagement status. Use: draft, planned, in_progress, paused, completed, closed."@,
            path,
        ))
    }
}

pub open spec fn opt_issue_view(o: Option<CheckIssue>) -> Option<(IssueSeverity, Seq<char>, Option<Seq<char>>)> {
    match o {
        Some(i) => Some(issue_view(i)),
        None => None,
    }
}

/// Reports an engagement status that is not one of the statuses, listing
/// those that are.
pub fn engagement_status_issue(status: &str, path: &Option<String>) -> (r: Option<CheckIssue>)
    ensures
        opt_issue_view(r) == engagement_status_issue_spec(status@, crate::parsers::opt_view(*path)),
{
    if is_valid_engagement_status(status) {
        None
    } else {
        Some(issue(
            IssueSeverity::Error,
            join3(
                "`",
                status,
                "` is not a valid engagement status. Use: draft, planned, in_progress, paused, completed, closed.",
            ),
            path,
        ))
    }
}

/// The issue for a credential store: an unreadable file, or one that does
/// not start with the magic bytes.
pub open spec fn credential_store_issue_spec(content: Option<Seq<u8>>, path: Seq<char>) -> Option<(IssueSeverity, Seq<char>, Option<Seq<char>>)> {
    match content {
        None => Some((IssueSeverity::Error, "Cannot read credential store file."@, Some(path))),
        Some(b) => if b.len() < 7 || b.take(7) != magic() {
            Some((IssueSeverity::Error, "Credential store has invalid format (bad magic header)."@, Some(path)))
        } else {
            None
        },
    }
}

pub open spec fn opt_bytes_view(o: Option<&[u8]>) -> Option<Seq<u8>> {
    match o {
        Some(b) => Some(b@),
        None => None,
    }
}

/// Checks the header of an existing credential store, given its bytes
/// (`None` when the file could not be read).
pub fn credential_store_issue(content: Option<&[u8]>, path: &str) -> (r: Option<CheckIssue>)
    ensures
        opt_issue_view(r) == credential_store_issue_spec(opt_bytes_view(content), path@),
{
    let p = Some(lit(path));
    match content {
        None => Some(issue(IssueSeverity::Error, lit("Cannot read credential store file."), &p)),
        Some(b) => {
            if b.len() < 7 {
                return Some(issue(IssueSeverity::Error, lit("Credential store has invalid format (bad magic header)."), &p));
            }
            let ok = b[0] == 0x53u8 && b[1] == 0x53u8 && b[2] == 0x43u8 && b[3] == 0x52u8 && b[4] == 0x45u8
                && b[5] == 0x44u8 && b[6] == 0x01u8;
            if ok {
                assert(b@.take(7) =~= magic());
                None
            } else {
                assert(b@.take(7) != magic()) by {
                    if b@.take(7) == magic() {
                        assert(b@.take(7)[0] == b@[0]);
                        assert(b@.take(7)[1] == b@[1]);
                        assert(b@.take(7)[2] == b@[2]);
                        assert(b@.take(7)[3] == b@[3]);
                        assert(b@.take(7)[4] == b@[4]);
                        assert(b@.take(7)[5] == b@[5]);
                        assert(b@.take(7)[6] == b@[6]);
                    }
                }
                Some(issue(IssueSeverity::Error, lit("Credential store has invalid format (bad magic header)."), &p))
            }
        },
    }
}

/// Reports a client directory without a config that holds a project; the
/// `templates` directory is never a client.
pub fn orphan_client_issue(name: &str, has_config: bool, has_project: bool, path: &Option<String>) -> (r: Option<CheckIssue>)
    ensures
        opt_issue_view(r) == (if name@ != "templates"@ && !has_config && has_project {
            Some((IssueSeverity::Warning, "Client directory `"@ + name@ + "` has no config.toml"@,
                crate::parsers::opt_view(*path)))
        } else {
            None
        }),
{
    if str_eq(name, "templates") || has_config || !has_project {
        None
    } else {
        Some(issue(IssueSeverity::Warning, join3("Client directory `", name, "` has no config.toml"), path))
    }
}

/// Reports a registered workspace whose directory no longer exists.
pub fn stale_workspace_issue(name: &str, path: &str, exists: bool) -> (r: Option<CheckIssue>)
    ensures
        opt_issue_view(r) == (if exists {
            None
        } else {
            Some((IssueSeverity::Error, "Stale workspace entry: "@ + name@ + " at "@ + path@
                + " (path no longer exists)"@, Some(path@)))
        }),
{
    if exists {
        None
    } else {
        let mut m = join3("Stale workspace entry: ", name, " at ");
        m.append(path);
        m.append(" (path no longer exists)");
        Some(issue(IssueSeverity::Error, m, &Some(lit(path))))
    }
}

/// The warning for one evidence hash mismatch.
pub fn evidence_hash_issue(mismatch: &str, path: &Option<String>) -> (r: CheckIssue)
    ensures
        issue_view(r) == (IssueSeverity::Warning, "Evidence "@ + mismatch@, crate::parsers::opt_view(*path)),
{
    issue(IssueSeverity::Warning, crate::text::concat("Evidence ", mismatch), path)
}

/// The warning for one possible secret in evidence.
pub fn evidence_secret_issue(warning: &str, path: &Option<String>) -> (r: CheckIssue)
    ensures
        issue_view(r) == (IssueSeverity::Warning, "Potential secret in evidence: "@ + warning@,
            crate::parsers::opt_view(*path)),
{
    issue(IssueSeverity::Warning, crate::text::concat("Potential secret in evidence: ", warning), path)
}

} // verus!
