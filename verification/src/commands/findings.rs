//! Findings of the application: their records and the rules they must meet.

use super::clients::{check, checked};
use crate::text::{byte_len, chars_of, lit, one_of, str_len, trim, trim_str};
use vstd::prelude::*;

verus! {

/// An affected endpoint of a finding.
pub struct AffectedEndpoint {
    pub method: String,
    pub path: String,
    pub description: String,
}

/// A piece of evidence: a title with a request and its response.
pub struct Evidence {
    pub title: String,
    pub request: String,
    pub response: String,
}

/// An impact item of a finding.
pub struct ImpactItem {
    pub title: String,
    pub explanation: String,
}

/// A remediation step of a finding.
pub struct RemediationItem {
    pub action: String,
    pub fix: String,
    pub code_snippet: Option<String>,
}

/// A reference of a finding.
pub struct Reference {
    pub title: String,
    pub url: String,
}

/// Finding counts: the total and the count per severity.
pub struct FindingCounts {
    pub total: u32,
    pub by_severity: Vec<(String, u32)>,
}

/// A finding as entered. The CVSS score is held by the bits of its `f32`
/// (`f32::to_bits`).
pub struct FindingInput {
    pub engagement_id: u32,
    pub title: String,
    pub severity: String,
    pub overview: String,
    pub summary: String,
    pub affected_endpoints: Vec<AffectedEndpoint>,
    pub evidence: Vec<Evidence>,
    pub impact_items: Vec<ImpactItem>,
    pub remediation_items: Vec<RemediationItem>,
    pub steps_to_reproduce: String,
    pub cvss_score_bits: Option<u32>,
    pub owasp_category: Option<String>,
    pub cwe_id: Option<String>,
    pub references: Option<Vec<Reference>>,
    pub tags: Option<Vec<String>>,
    pub notes: Option<String>,
}

/// The severity levels.
pub open spec fn severity_levels() -> Seq<Seq<char>> {
    seq!["critical"@, "high"@, "medium"@, "low"@, "informational"@]
}

/// The finding statuses of the application.
pub open spec fn finding_status_values() -> Seq<Seq<char>> {
    seq!["draft"@, "confirmed"@, "reported"@, "fixed"@, "accepted"@, "false_positive"@, "wont_fix"@]
}

pub open spec fn severity_rule(s: Seq<char>) -> Result<(), Seq<char>> {
    check(severity_levels().contains(s), "Invalid severity. Must be: critical, high, medium, low, or informational."@)
}

pub open spec fn status_rule(s: Seq<char>) -> Result<(), Seq<char>> {
    check(
        finding_status_values().contains(s),
        "Invalid status. Must be: draft, confirmed, reported, fixed, accepted, false_positive, or wont_fix."@,
    )
}

fn listed(v: &Vec<char>, opts: &[&str]) -> (r: bool)
    ensures
        r == opts@.map_values(|s: &str| s@).contains(v@),
{
    let r = one_of(v, opts);
    proof {
        let m = opts@.map_values(|s: &str| s@);
        if r {
            let i = choose|i: int| 0 <= i < opts@.len() && v@ == (#[trigger] opts@[i])@;
            assert(m[i] == v@);
        } else {
            assert forall|i: int| 0 <= i < m.len() implies m[i] != v@ by {
                assert(m[i] == opts@[i]@);
            }
        }
    }
    r
}

/// Checks a severity level.
pub fn validate_severity(s: &str) -> (r: Result<(), String>)
    ensures
        checked(r, severity_rule(s@)),
{
    let v = chars_of(s);
    let opts = ["critical", "high", "medium", "low", "informational"];
    assert(opts@.map_values(|s: &str| s@) =~= severity_levels());
    if listed(&v, &opts) {
        Ok(())
    } else {
        Err(lit("Invalid severity. Must be: critical, high, medium, low, or informational."))
    }
}

/// Checks a finding status.
pub fn validate_status(s: &str) -> (r: Result<(), String>)
    ensures
        checked(r, status_rule(s@)),
{
    let v = chars_of(s);
    let opts = ["draft", "confirmed", "reported", "fixed", "accepted", "false_positive", "wont_fix"];
    assert(opts@.map_values(|s: &str| s@) =~= finding_status_values());
    if listed(&v, &opts) {
        Ok(())
    } else {
        Err(lit("Invalid status. Must be: draft, confirmed, reported, fixed, accepted, false_positive, or wont_fix."))
    }
}

/// Whether the bits of an `f32` stand for a number in `0.0..=10.0`: +0.0 up
/// to 10.0 (bit patterns up to `0x4120_0000`), or -0.0.
pub open spec fn cvss_in_range(bits: u32) -> bool {
    bits <= 0x4120_0000 || bits == 0x8000_0000
}

/// The first endpoint problem: a method over 32 bytes or a path over 2,000.
pub open spec fn endpoints_rule(eps: Seq<AffectedEndpoint>) -> Result<(), Seq<char>>
    decreases eps.len(),
{
    if eps.len() == 0 {
        Ok(())
    } else if byte_len(eps[0].method@) > 32 {
        Err("Endpoint method must be 32 characters or fewer."@)
    } else if byte_len(eps[0].path@) > 2000 {
        Err("Endpoint path must be 2,000 characters or fewer."@)
    } else {
        endpoints_rule(eps.drop_first())
    }
}

/// The first evidence problem: title, request and response over 100,000
/// bytes together, or a title over 255.
pub open spec fn evidence_rule(evs: Seq<Evidence>) -> Result<(), Seq<char>>
    decreases evs.len(),
{
    if evs.len() == 0 {
        Ok(())
    } else if byte_len(evs[0].title@) + byte_len(evs[0].request@) + byte_len(evs[0].response@) > 100_000 {
        Err("Evidence entry exceeds 100KB limit."@)
    } else if byte_len(evs[0].title@) > 255 {
        Err("Evidence title must be 255 characters or fewer."@)
    } else {
        evidence_rule(evs.drop_first())
    }
}

/// The first reference problem: a title over 255 bytes or a URL over 4,000.
pub open spec fn references_rule(rs: Seq<Reference>) -> Result<(), Seq<char>>
    decreases rs.len(),
{
    if rs.len() == 0 {
        Ok(())
    } else if byte_len(rs[0].title@) > 255 {
        Err("Reference title must be 255 characters or fewer."@)
    } else if byte_len(rs[0].url@) > 4000 {
        Err("Reference URL must be 4,000 characters or fewer."@)
    } else {
        references_rule(rs.drop_first())
    }
}

/// Whether some tag is over 64 bytes.
pub open spec fn tags_rule(ts: Seq<String>) -> Result<(), Seq<char>> {
    check(forall|i: int| 0 <= i < ts.len() ==> byte_len((#[trigger] ts[i])@) <= 64, "Each tag must be 64 characters or fewer."@)
}

/// The rules a finding must meet, checked in this order: title (not blank,
/// at most 500 bytes trimmed), severity, overview (not blank, at most 1,000
/// bytes trimmed), summary (not blank, at most 50,000), 1 to 100 endpoints
/// with bounded method and path, 1 to 50 evidence entries of bounded size,
/// 1 to 20 impact items, 1 to 20 remediation items, steps to reproduce (not
/// blank, at most 50,000), a CVSS score in 0.0..=10.0, an OWASP category of
/// at most 80 bytes, a CWE ID of at most 20, at most 50 references of
/// bounded size, tags of at most 64 bytes and notes of at most 20,000.
pub open spec fn finding_rule(f: FindingInput) -> Result<(), Seq<char>> {
    let title = trim(f.title@);
    let overview = trim(f.overview@);
    let summary = trim(f.summary@);
    let steps = trim(f.steps_to_reproduce@);
    if title.len() == 0 {
        Err("Title is required."@)
    } else if byte_len(title) > 500 {
        Err("Title must be 500 characters or fewer."@)
    } else if severity_rule(f.severity@) is Err {
        severity_rule(f.severity@)
    } else if overview.len() == 0 {
        Err("Overview is required."@)
    } else if byte_len(overview) > 1_000 {
        Err("Overview must be 1,000 characters or fewer."@)
    } else if summary.len() == 0 {
        Err("Summary is required."@)
    } else if byte_len(summary) > 50_000 {
        Err("Summary must be 50,000 characters or fewer."@)
    } else if f.affected_endpoints@.len() == 0 {
        Err("At least one affected endpoint is required."@)
    } else if f.affected_endpoints@.len() > 100 {
        Err("Maximum 100 affected endpoints per finding."@)
    } else if endpoints_rule(f.affected_endpoints@) is Err {
        endpoints_rule(f.affected_endpoints@)
    } else if f.evidence@.len() == 0 {
        Err("At least one evidence entry is required."@)
    } else if f.evidence@.len() > 50 {
        Err("Maximum 50 evidence entries per finding."@)
    } else if evidence_rule(f.evidence@) is Err {
        evidence_rule(f.evidence@)
    } else if f.impact_items@.len() == 0 {
        Err("At least one impact item is required."@)
    } else if f.impact_items@.len() > 20 {
        Err("Maximum 20 impact items per finding."@)
    } else if f.remediation_items@.len() == 0 {
        Err("At least one remediation item is required."@)
    } else if f.remediation_items@.len() > 20 {
        Err("Maximum 20 remediation items per finding."@)
    } else if steps.len() == 0 {
        Err("Steps to reproduce are required."@)
    } else if byte_len(steps) > 50_000 {
        Err("Steps to reproduce must be 50,000 characters or fewer."@)
    } else if f.cvss_score_bits matches Some(b) && !cvss_in_range(b) {
        Err("CVSS score must be between 0.0 and 10.0."@)
    } else if f.owasp_category matches Some(c) && byte_len(c@) > 80 {
        Err("OWASP category must be 80 characters or fewer."@)
    } else if f.cwe_id matches Some(c) && byte_len(c@) > 20 {
        Err("CWE ID must be 20 characters or fewer."@)
    } else if f.references matches Some(rs) && rs@.len() > 50 {
        Err("Maximum 50 references per finding."@)
    } else if f.references matches Some(rs) && references_rule(rs@) is Err {
        references_rule(f.references->Some_0@)
    } else if f.tags matches Some(ts) && tags_rule(ts@) is Err {
        tags_rule(f.tags->Some_0@)
    } else if f.notes matches Some(n) && byte_len(n@) > 20_000 {
        Err("Notes must be 20,000 characters or fewer."@)
    } else {
        Ok(())
    }
}

fn check_endpoints(eps: &Vec<AffectedEndpoint>) -> (r: Result<(), String>)
    ensures
        checked(r, endpoints_rule(eps@)),
{
    let mut i: usize = 0;
    assert(eps@.skip(0) =~= eps@);
    while i < eps.len()
        invariant
            i <= eps@.len(),
            endpoints_rule(eps@) == endpoints_rule(eps@.skip(i as int)),
        decreases eps.len() - i,
    {
        assert(eps@.skip(i as int)[0] == eps@[i as int]);
        assert(eps@.skip(i as int).drop_first() =~= eps@.skip(i + 1));
        if str_len(eps[i].method.as_str()) > 32 {
            return Err(lit("Endpoint method must be 32 characters or fewer."));
        }
        if str_len(eps[i].path.as_str()) > 2_000 {
            return Err(lit("Endpoint path must be 2,000 characters or fewer."));
        }
        i = i + 1;
    }
    Ok(())
}

fn check_evidence(evs: &Vec<Evidence>) -> (r: Result<(), String>)
    ensures
        checked(r, evidence_rule(evs@)),
{
    let mut i: usize = 0;
    assert(evs@.skip(0) =~= evs@);
    while i < evs.len()
        invariant
            i <= evs@.len(),
            evidence_rule(evs@) == evidence_rule(evs@.skip(i as int)),
        decreases evs.len() - i,
    {
        assert(evs@.skip(i as int)[0] == evs@[i as int]);
        assert(evs@.skip(i as int).drop_first() =~= evs@.skip(i + 1));
        let t = str_len(evs[i].title.as_str()) as u128;
        let q = str_len(evs[i].request.as_str()) as u128;
        let p = str_len(evs[i].response.as_str()) as u128;
        if t + q + p > 100_000 {
            return Err(lit("Evidence entry exceeds 100KB limit."));
        }
        if t > 255 {
            return Err(lit("Evidence title must be 255 characters or fewer."));
        }
        i = i + 1;
    }
    Ok(())
}

fn check_references(rs: &Vec<Reference>) -> (r: Result<(), String>)
    ensures
        checked(r, references_rule(rs@)),
{
    let mut i: usize = 0;
    assert(rs@.skip(0) =~= rs@);
    while i < rs.len()
        invariant
            i <= rs@.len(),
            references_rule(rs@) == references_rule(rs@.skip(i as int)),
        decreases rs.len() - i,
    {
        assert(rs@.skip(i as int)[0] == rs@[i as int]);
        assert(rs@.skip(i as int).drop_first() =~= rs@.skip(i + 1));
        if str_len(rs[i].title.as_str()) > 255 {
            return Err(lit("Reference title must be 255 characters or fewer."));
        }
        if str_len(rs[i].url.as_str()) > 4_000 {
            return Err(lit("Reference URL must be 4,000 characters or fewer."));
        }
        i = i + 1;
    }
    Ok(())
}

fn check_tags(ts: &Vec<String>) -> (r: Result<(), String>)
    ensures
        checked(r, tags_rule(ts@)),
{
    let mut i: usize = 0;
    while i < ts.len()
        invariant
            i <= ts@.len(),
            forall|j: int| 0 <= j < i ==> byte_len((#[trigger] ts@[j])@) <= 64,
        decreases ts.len() - i,
    {
        if str_len(ts[i].as_str()) > 64 {
            return Err(lit("Each tag must be 64 characters or fewer."));
        }
        i = i + 1;
    }
    Ok(())
}

/// Checks a finding as entered against every rule, reporting the first one
/// it breaks.
pub fn validate_finding(input: &FindingInput) -> (r: Result<(), String>)
    ensures
        checked(r, finding_rule(*input)),
{
    let title = trim_str(input.title.as_str());
    if title.as_str().is_empty() {
        return Err(lit("Title is required."));
    }
    if str_len(title.as_str()) > 500 {
        return Err(lit("Title must be 500 characters or fewer."));
    }
    match validate_severity(input.severity.as_str()) {
        Ok(()) => {},
        Err(e) => return Err(e),
    }
    let overview = trim_str(input.overview.as_str());
    if overview.as_str().is_empty() {
        return Err(lit("Overview is required."));
    }
    if str_len(overview.as_str()) > 1_000 {
        return Err(lit("Overview must be 1,000 characters or fewer."));
    }
    let summary = trim_str(input.summary.as_str());
    if summary.as_str().is_empty() {
        return Err(lit("Summary is required."));
    }
    if str_len(summary.as_str()) > 50_000 {
        return Err(lit("Summary must be 50,000 characters or fewer."));
    }
    if input.affected_endpoints.len() == 0 {
        return Err(lit("At least one affected endpoint is required."));
    }
    if input.affected_endpoints.len() > 100 {
        return Err(lit("Maximum 100 affected endpoints per finding."));
    }
    match check_endpoints(&input.affected_endpoints) {
        Ok(()) => {},
        Err(e) => return Err(e),
    }
    if input.evidence.len() == 0 {
        return Err(lit("At least one evidence entry is required."));
    }
    if input.evidence.len() > 50 {
        return Err(lit("Maximum 50 evidence entries per finding."));
    }
    match check_evidence(&input.evidence) {
        Ok(()) => {},
        Err(e) => return Err(e),
    }
    if input.impact_items.len() == 0 {
        return Err(lit("At least one impact item is required."));
    }
    if input.impact_items.len() > 20 {
        return Err(lit("Maximum 20 impact items per finding."));
    }
    if input.remediation_items.len() == 0 {
        return Err(lit("At least one remediation item is required."));
    }
    if input.remediation_items.len() > 20 {
        return Err(lit("Maximum 20 remediation items per finding."));
    }
    let steps = trim_str(input.steps_to_reproduce.as_str());
    if steps.as_str().is_empty() {
        return Err(lit("Steps to reproduce are required."));
    }
    if str_len(steps.as_str()) > 50_000 {
        return Err(lit("Steps to reproduce must be 50,000 characters or fewer."));
    }
    match input.cvss_score_bits {
        Some(b) => {
            if !(b <= 0x4120_0000 || b == 0x8000_0000) {
                return Err(lit("CVSS score must be between 0.0 and 10.0."));
            }
        },
        None => {},
    }
    match &input.owasp_category {
        Some(c) => {
            if str_len(c.as_str()) > 80 {
                return Err(lit("OWASP category must be 80 characters or fewer."));
            }
        },
        None => {},
    }
    match &input.cwe_id {
        Some(c) => {
            if str_len(c.as_str()) > 20 {
                return Err(lit("CWE ID must be 20 characters or fewer."));
            }
        },
        None => {},
    }
    match &input.references {
        Some(rs) => {
            if rs.len() > 50 {
                return Err(lit("Maximum 50 references per finding."));
            }
            match check_references(rs) {
                Ok(()) => {},
                Err(e) => return Err(e),
            }
        },
        None => {},
    }
    match &input.tags {
        Some(ts) => match check_tags(ts) {
            Ok(()) => {},
            Err(e) => return Err(e),
        },
        None => {},
    }
    match &input.notes {
        Some(n) => {
            if str_len(n.as_str()) > 20_000 {
                return Err(lit("Notes must be 20,000 characters or fewer."));
            }
        },
        None => {},
    }
    Ok(())
}

} // verus!
