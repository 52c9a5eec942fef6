//! Scanner-output parsers: Burp, Nessus, Nmap, Nuclei, OWASP ZAP and CSV
//! exports become `ParsedFinding` values ready for import.

pub mod burp;
pub mod csv_import;
pub mod nessus;
pub mod nmap;
pub mod nuclei;
pub mod xml;
pub mod zap;

use crate::text::{chars_of, eq_lit, lit, lowercase, to_lowercase, trim, trim_chars};
use vstd::prelude::*;

verus! {

/// One affected endpoint of a finding.
#[derive(Debug)]
pub struct AffectedEndpoint {
    pub method: String,
    pub path: String,
    pub description: String,
}

/// One remediation step of a finding.
#[derive(Debug)]
pub struct RemediationItem {
    pub action: String,
    pub fix: String,
    pub code_snippet: Option<String>,
}

/// A reference link of a finding.
#[derive(Debug)]
pub struct Reference {
    pub title: String,
    pub url: String,
}

/// A finding read from a scanner export, before import.
#[derive(Debug)]
pub struct ParsedFinding {
    pub title: String,
    pub severity: String,
    pub overview: String,
    pub summary: String,
    pub affected_endpoints: Vec<AffectedEndpoint>,
    pub remediation_items: Vec<RemediationItem>,
    pub references: Vec<Reference>,
    pub source_tool: String,
    pub source_id: Option<String>,
    pub is_duplicate: bool,
    pub duplicate_of: Option<u32>,
}

/// The preview shown before an import is committed.
#[derive(Debug)]
pub struct ImportPreview {
    pub findings: Vec<ParsedFinding>,
    pub total_parsed: u32,
    pub duplicates_found: u32,
    pub format: String,
}

/// What an import committed.
#[derive(Debug)]
pub struct ImportResult {
    pub imported_count: u32,
    pub skipped_count: u32,
}

/// Which CSV columns hold which finding fields (0-based indices).
#[derive(Debug, Clone, Copy)]
pub struct CsvColumnMapping {
    pub title: usize,
    pub severity: usize,
    pub description: Option<usize>,
    pub remediation: Option<usize>,
    pub affected_url: Option<usize>,
}

/// A parser of one scanner export format.
pub trait FindingParser {
    /// Parses the raw bytes of an export into findings, or a message saying
    /// why the export could not be read.
    fn parse(&self, content: &[u8]) -> Result<Vec<ParsedFinding>, String>;

    /// The short name of the format.
    fn format_name(&self) -> &'static str;
}

// ───────────────────────── models ─────────────────────────

pub struct EndpointView {
    pub method: Seq<char>,
    pub path: Seq<char>,
    pub description: Seq<char>,
}

pub struct RemediationView {
    pub action: Seq<char>,
    pub fix: Seq<char>,
    pub code_snippet: Option<Seq<char>>,
}

pub struct ReferenceView {
    pub title: Seq<char>,
    pub url: Seq<char>,
}

pub struct FindingView {
    pub title: Seq<char>,
    pub severity: Seq<char>,
    pub overview: Seq<char>,
    pub summary: Seq<char>,
    pub affected_endpoints: Seq<EndpointView>,
    pub remediation_items: Seq<RemediationView>,
    pub references: Seq<ReferenceView>,
    pub source_tool: Seq<char>,
    pub source_id: Option<Seq<char>>,
    pub is_duplicate: bool,
    pub duplicate_of: Option<u32>,
}

pub open spec fn opt_view(o: Option<String>) -> Option<Seq<char>> {
    match o {
        Some(s) => Some(s@),
        None => None,
    }
}

impl View for AffectedEndpoint {
    type V = EndpointView;

    open spec fn view(&self) -> EndpointView {
        EndpointView { method: self.method@, path: self.path@, description: self.description@ }
    }
}

impl View for RemediationItem {
    type V = RemediationView;

    open spec fn view(&self) -> RemediationView {
        RemediationView {
            action: self.action@,
            fix: self.fix@,
            code_snippet: opt_view(self.code_snippet),
        }
    }
}

impl View for Reference {
    type V = ReferenceView;

    open spec fn view(&self) -> ReferenceView {
        ReferenceView { title: self.title@, url: self.url@ }
    }
}

pub open spec fn endpoints_view(v: Seq<AffectedEndpoint>) -> Seq<EndpointView> {
    v.map_values(|e: AffectedEndpoint| e@)
}

pub open spec fn remediations_view(v: Seq<RemediationItem>) -> Seq<RemediationView> {
    v.map_values(|e: RemediationItem| e@)
}

pub open spec fn references_view(v: Seq<Reference>) -> Seq<ReferenceView> {
    v.map_values(|e: Reference| e@)
}

impl View for ParsedFinding {
    type V = FindingView;

    open spec fn view(&self) -> FindingView {
        FindingView {
            title: self.title@,
            severity: self.severity@,
            overview: self.overview@,
            summary: self.summary@,
            affected_endpoints: endpoints_view(self.affected_endpoints@),
            remediation_items: remediations_view(self.remediation_items@),
            references: references_view(self.references@),
            source_tool: self.source_tool@,
            source_id: opt_view(self.source_id),
            is_duplicate: self.is_duplicate,
            duplicate_of: self.duplicate_of,
        }
    }
}

pub open spec fn findings_view(v: Seq<ParsedFinding>) -> Seq<FindingView> {
    v.map_values(|f: ParsedFinding| f@)
}

pub open spec fn endpoint_model(method: Seq<char>, path: Seq<char>, description: Seq<char>) -> EndpointView {
    EndpointView { method, path, description }
}

pub open spec fn remediation_model(action: Seq<char>, fix: Seq<char>) -> RemediationView {
    RemediationView { action, fix, code_snippet: None }
}

/// A finding of `tool` with the given fields, no references, not a duplicate.
pub open spec fn finding_model(
    title: Seq<char>,
    severity: Seq<char>,
    overview: Seq<char>,
    summary: Seq<char>,
    endpoints: Seq<EndpointView>,
    remediation: Seq<RemediationView>,
    tool: Seq<char>,
    source_id: Option<Seq<char>>,
) -> FindingView {
    FindingView {
        title,
        severity,
        overview,
        summary,
        affected_endpoints: endpoints,
        remediation_items: remediation,
        references: Seq::empty(),
        source_tool: tool,
        source_id,
        is_duplicate: false,
        duplicate_of: None,
    }
}

// ───────────────────────── constructors ─────────────────────────

pub fn make_endpoint(method: String, path: String, description: String) -> (e: AffectedEndpoint)
    ensures
        e@ == endpoint_model(method@, path@, description@),
{
    AffectedEndpoint { method, path, description }
}

pub fn make_remediation(action: String, fix: String) -> (r: RemediationItem)
    ensures
        r@ == remediation_model(action@, fix@),
{
    RemediationItem { action, fix, code_snippet: None }
}

/// A finding of `tool`, with no references, not marked as a duplicate.
pub fn make_finding(
    title: String,
    severity: String,
    overview: String,
    summary: String,
    endpoints: Vec<AffectedEndpoint>,
    remediation: Vec<RemediationItem>,
    tool: String,
    source_id: Option<String>,
) -> (f: ParsedFinding)
    ensures
        f@ == finding_model(
            title@,
            severity@,
            overview@,
            summary@,
            endpoints_view(endpoints@),
            remediations_view(remediation@),
            tool@,
            opt_view(source_id),
        ),
{
    let f = ParsedFinding {
        title,
        severity,
        overview,
        summary,
        affected_endpoints: endpoints,
        remediation_items: remediation,
        references: Vec::new(),
        source_tool: tool,
        source_id,
        is_duplicate: false,
        duplicate_of: None,
    };
    assert(references_view(f.references@) =~= Seq::<ReferenceView>::empty());
    f
}

pub proof fn lemma_push_view(v: Seq<ParsedFinding>, f: ParsedFinding)
    ensures
        findings_view(v.push(f)) == findings_view(v).push(f@),
{
    assert(findings_view(v.push(f)) =~= findings_view(v).push(f@));
}

pub proof fn lemma_push_endpoint_view(v: Seq<AffectedEndpoint>, e: AffectedEndpoint)
    ensures
        endpoints_view(v.push(e)) == endpoints_view(v).push(e@),
{
    assert(endpoints_view(v.push(e)) =~= endpoints_view(v).push(e@));
}

pub proof fn lemma_push_remediation_view(v: Seq<RemediationItem>, e: RemediationItem)
    ensures
        remediations_view(v.push(e)) == remediations_view(v).push(e@),
{
    assert(remediations_view(v.push(e)) =~= remediations_view(v).push(e@));
}

// ───────────────────────── severity ─────────────────────────

/// The severity class of an already lower-cased, trimmed label.
pub open spec fn severity_class(s: Seq<char>) -> Seq<char> {
    if s == "critical"@ || s == "severe"@ || s == "high (critical)"@ {
        "critical"@
    } else if s == "high"@ || s == "serious"@ {
        "high"@
    } else if s == "medium"@ || s == "moderate"@ || s == "2"@ {
        "medium"@
    } else if s == "low"@ || s == "minor"@ || s == "1"@ {
        "low"@
    } else {
        "informational"@
    }
}

/// Each level of the five-level scale stands for itself, and the common
/// scanner synonyms for their level: severe and `high (critical)` are
/// critical, serious is high, moderate is medium, minor is low.
pub proof fn law_severity_class_levels()
    ensures
        severity_class("critical"@) == "critical"@,
        severity_class("high"@) == "high"@,
        severity_class("medium"@) == "medium"@,
        severity_class("low"@) == "low"@,
        severity_class("informational"@) == "informational"@,
        severity_class("severe"@) == "critical"@,
        severity_class("serious"@) == "high"@,
        severity_class("moderate"@) == "medium"@,
        severity_class("minor"@) == "low"@,
{
    reveal_strlit("critical");
    reveal_strlit("severe");
    reveal_strlit("high (critical)");
    reveal_strlit("high");
    reveal_strlit("serious");
    reveal_strlit("medium");
    reveal_strlit("moderate");
    reveal_strlit("2");
    reveal_strlit("low");
    reveal_strlit("minor");
    reveal_strlit("1");
    reveal_strlit("informational");
    assert("critical"@[0] != "severe"@[0] && "critical"@.len() != "high (critical)"@.len());
    assert("high"@.len() != "critical"@.len() && "high"@.len() != "severe"@.len() && "high"@.len()
        != "high (critical)"@.len());
    assert("medium"@[0] != "severe"@[0] && "medium"@.len() != "critical"@.len() && "medium"@.len()
        != "high"@.len() && "medium"@.len() != "serious"@.len() && "medium"@.len() != "high (critical)"@.len());
    assert("low"@.len() != "critical"@.len() && "low"@.len() != "severe"@.len() && "low"@.len() != "high"@.len()
        && "low"@.len() != "serious"@.len() && "low"@.len() != "medium"@.len() && "low"@.len()
        != "moderate"@.len() && "low"@.len() != "2"@.len() && "low"@.len() != "high (critical)"@.len());
    assert("informational"@.len() == 13 && "minor"@.len() == 5 && "1"@.len() == 1 && "2"@.len() == 1);
    assert("severe"@.len() == 6 && "serious"@.len() == 7 && "moderate"@.len() == 8 && "medium"@.len() == 6);
    assert("serious"@[0] != "severe"@[0] || "serious"@.len() != "severe"@.len());
    assert("moderate"@.len() != "critical"@.len() || "moderate"@[0] != "critical"@[0]);
    assert("minor"@.len() != "medium"@.len());
}

/// The severity that a scanner label stands for: the label is lower-cased
/// and trimmed, then mapped onto the five-level scale; anything unknown is
/// informational.
pub open spec fn normalize_severity_spec(raw: Seq<char>) -> Seq<char> {
    severity_class(trim(lowercase(raw)))
}

/// Maps a scanner severity label onto critical/high/medium/low/informational.
pub fn normalize_severity(raw: &str) -> (r: String)
    ensures
        r@ == normalize_severity_spec(raw@),
{
    let lower = to_lowercase(raw);
    let lv = chars_of(lower.as_str());
    let t = trim_chars(&lv);
    if eq_lit(&t, "critical") || eq_lit(&t, "severe") || eq_lit(&t, "high (critical)") {
        lit("critical")
    } else if eq_lit(&t, "high") || eq_lit(&t, "serious") {
        lit("high")
    } else if eq_lit(&t, "medium") || eq_lit(&t, "moderate") || eq_lit(&t, "2") {
        lit("medium")
    } else if eq_lit(&t, "low") || eq_lit(&t, "minor") || eq_lit(&t, "1") {
        lit("low")
    } else {
        lit("informational")
    }
}

} // verus!
