//! Nuclei JSON-lines output: one finding per non-blank line.

use super::burp::parse_matches;

use super::{endpoint_model, finding_model, findings_view, lemma_push_view, make_endpoint, make_finding, make_remediation, opt_view, remediation_model, AffectedEndpoint, FindingParser, FindingView, ParsedFinding, RemediationItem, RemediationView};
use crate::text::{chars_of, concat, copy_string, eq_lit, first_chars, lines_of, take_chars, lit, lowercase, push_string, string_of, text_lines, to_lowercase, trim, trim_chars};
use vstd::prelude::*;

verus! {

/// Parser of Nuclei JSON-lines output.
pub struct NucleiParser;

/// The message of `std::str::from_utf8`'s error for invalid UTF-8 bytes.
pub uninterp spec fn utf8_error_message(b: Seq<u8>) -> Seq<char>;

/// The message of `serde_json`'s error for a text that is not one JSON
/// value, or `None` when it is one.
pub uninterp spec fn json_error(text: Seq<char>) -> Option<Seq<char>>;

/// The string at `key` of a JSON object text, when the text parses, is an
/// object, and holds a string there.
pub uninterp spec fn json_top_string(text: Seq<char>, key: Seq<char>) -> Option<Seq<char>>;

/// The string at `key` of the object at `outer` of a JSON object text, when
/// all of these exist and the value is a string.
pub uninterp spec fn json_nested_string(text: Seq<char>, outer: Seq<char>, key: Seq<char>) -> Option<
    Seq<char>,
>;

/// Calls `std::str::from_utf8`: the decoded text for valid UTF-8, otherwise
/// the error's message.
#[verifier::external_body]
fn utf8_text(b: &[u8]) -> (r: Result<String, String>)
    ensures
        r is Ok <==> vstd::utf8::valid_utf8(b@),
        match r {
            Ok(s) => s@ == vstd::utf8::decode_utf8(b@),
            Err(e) => e@ == utf8_error_message(b@),
        },
{
    match std::str::from_utf8(b) {
        Ok(s) => Ok(s.to_string()),
        Err(e) => Err(e.to_string()),
    }
}

/// Calls `serde_json::from_str::<serde_json::Value>` and keeps its error
/// message, if any.
#[verifier::external_body]
fn json_check(text: &str) -> (r: Option<String>)
    ensures
        opt_view(r) == json_error(text@),
{
    match serde_json::from_str::<serde_json::Value>(text) {
        Ok(_) => None,
        Err(e) => Some(e.to_string()),
    }
}

/// Parses `text` with `serde_json` and reads the string at `key`.
#[verifier::external_body]
fn json_top_str(text: &str, key: &str) -> (r: Option<String>)
    ensures
        opt_view(r) == json_top_string(text@, key@),
{
    let v: serde_json::Value = serde_json::from_str(text).ok()?;
    Some(v.get(key)?.as_str()?.to_string())
}

/// Parses `text` with `serde_json` and reads the string at `outer`/`key`,
/// where `outer` must hold an object.
#[verifier::external_body]
fn json_nested_str(text: &str, outer: &str, key: &str) -> (r: Option<String>)
    ensures
        opt_view(r) == json_nested_string(text@, outer@, key@),
{
    let v: serde_json::Value = serde_json::from_str(text).ok()?;
    Some(v.get(outer)?.as_object()?.get(key)?.as_str()?.to_string())
}

/// The value, or a default when absent.
pub open spec fn or_default(o: Option<Seq<char>>, d: Seq<char>) -> Seq<char> {
    match o {
        Some(s) => s,
        None => d,
    }
}

/// The Nuclei severity words that are kept; anything else is informational.
pub open spec fn nuclei_level(lower: Seq<char>) -> Seq<char> {
    if lower == "critical"@ {
        "critical"@
    } else if lower == "high"@ {
        "high"@
    } else if lower == "medium"@ {
        "medium"@
    } else if lower == "low"@ {
        "low"@
    } else {
        "informational"@
    }
}

/// The finding that one JSON line stands for.
pub open spec fn nuclei_finding(line: Seq<char>) -> FindingView {
    let name = or_default(json_nested_string(line, "info"@, "name"@), "Nuclei finding"@);
    let severity = or_default(json_nested_string(line, "info"@, "severity"@), "info"@);
    let description = or_default(json_nested_string(line, "info"@, "description"@), Seq::empty());
    let remediation = or_default(json_nested_string(line, "info"@, "remediation"@), Seq::empty());
    let host = or_default(json_top_string(line, "host"@), Seq::empty());
    let matched = or_default(json_top_string(line, "matched-at"@), Seq::empty());
    let template = or_default(json_top_string(line, "template-id"@), Seq::empty());
    finding_model(
        first_chars(name, 500),
        nuclei_level(lowercase(severity)),
        description,
        template + " Matched at: "@ + matched,
        seq![endpoint_model("GET"@, if matched.len() == 0 { host } else { matched }, host)],
        if remediation.len() == 0 {
            Seq::empty()
        } else {
            seq![remediation_model("Fix vulnerability"@, remediation)]
        },
        "Nuclei"@,
        Some(template),
    )
}

/// The findings of the remaining lines: blank lines are skipped, a line that
/// is not JSON ends the parse with an error.
pub open spec fn nuclei_lines(ls: Seq<Seq<char>>) -> Result<Seq<FindingView>, Seq<char>>
    decreases ls.len(),
{
    if ls.len() == 0 {
        Ok(Seq::empty())
    } else {
        let l = trim(ls[0]);
        if l.len() == 0 {
            nuclei_lines(ls.drop_first())
        } else {
            match json_error(l) {
                Some(e) => Err("Invalid JSON line: "@ + e),
                None => match nuclei_lines(ls.drop_first()) {
                    Ok(rest) => Ok(seq![nuclei_finding(l)] + rest),
                    Err(e) => Err(e),
                },
            }
        }
    }
}

/// What the Nuclei parser makes of an output file.
pub open spec fn nuclei_parse_spec(content: Seq<u8>) -> Result<Seq<FindingView>, Seq<char>> {
    if vstd::utf8::valid_utf8(content) {
        nuclei_lines(text_lines(vstd::utf8::decode_utf8(content)))
    } else {
        Err("Invalid UTF-8: "@ + utf8_error_message(content))
    }
}

fn str_or(o: Option<String>, d: &str) -> (r: String)
    ensures
        r@ == or_default(opt_view(o), d@),
{
    match o {
        Some(s) => s,
        None => lit(d),
    }
}

/// The finding of one non-blank JSON line.
fn nuclei_finding_exec(line: &str) -> (f: ParsedFinding)
    ensures
        f@ == nuclei_finding(line@),
{
    let name = str_or(json_nested_str(line, "info", "name"), "Nuclei finding");
    let severity = str_or(json_nested_str(line, "info", "severity"), "info");
    let description = str_or(json_nested_str(line, "info", "description"), "");
    let remediation = str_or(json_nested_str(line, "info", "remediation"), "");
    let host = str_or(json_top_str(line, "host"), "");
    let matched = str_or(json_top_str(line, "matched-at"), "");
    let template = str_or(json_top_str(line, "template-id"), "");
    proof {
        assert(""@ =~= Seq::<char>::empty()) by {
            reveal_strlit("");
        }
    }
    let lower = to_lowercase(severity.as_str());
    let lv = chars_of(lower.as_str());
    let sev = if eq_lit(&lv, "critical") {
        lit("critical")
    } else if eq_lit(&lv, "high") {
        lit("high")
    } else if eq_lit(&lv, "medium") {
        lit("medium")
    } else if eq_lit(&lv, "low") {
        lit("low")
    } else {
        lit("informational")
    };
    let title = take_chars(&name, 500);
    let mut summary = copy_string(&template);
    summary.append(" Matched at: ");
    push_string(&mut summary, &matched);
    let mv = chars_of(matched.as_str());
    let path = if mv.len() == 0 { copy_string(&host) } else { copy_string(&matched) };
    let e = make_endpoint(lit("GET"), path, host);
    let mut eps: Vec<AffectedEndpoint> = Vec::new();
    eps.push(e);
    assert(crate::parsers::endpoints_view(eps@) =~= seq![e@]);
    let rv = chars_of(remediation.as_str());
    let mut rs: Vec<RemediationItem> = Vec::new();
    if rv.len() != 0 {
        let r = make_remediation(lit("Fix vulnerability"), remediation);
        rs.push(r);
        assert(crate::parsers::remediations_view(rs@) =~= seq![r@]);
    } else {
        assert(crate::parsers::remediations_view(rs@) =~= Seq::<RemediationView>::empty());
    }
    make_finding(title, sev, description, summary, eps, rs, lit("Nuclei"), Some(template))
}

impl NucleiParser {
    /// Reads one finding per non-blank line: name, severity (critical, high,
    /// medium, low, else informational), description and remediation from
    /// `info`; host, `matched-at` and `template-id` from the top level.
    pub fn parse_export(&self, content: &[u8]) -> (r: Result<Vec<ParsedFinding>, String>)
        ensures
            parse_matches(r, nuclei_parse_spec(content@)),
    {
        let text = match utf8_text(content) {
            Ok(t) => t,
            Err(e) => {
                return Err(concat("Invalid UTF-8: ", e.as_str()));
            },
        };
        let tv = chars_of(text.as_str());
        let ls = lines_of(&tv);
        let ghost all = text_lines(tv@);
        let mut findings: Vec<ParsedFinding> = Vec::new();
        let mut i: usize = 0;
        proof {
            assert(all.skip(0) =~= all);
            assert(findings_view(findings@) =~= Seq::<FindingView>::empty());
        }
        while i < ls.len()
            invariant
                i <= ls.len(),
                ls@.len() == all.len(),
                all == text_lines(tv@),
                tv@ == vstd::utf8::decode_utf8(content@),
                vstd::utf8::valid_utf8(content@),
                forall|k: int| 0 <= k < ls@.len() ==> (#[trigger] ls@[k])@ == all[k],
                nuclei_parse_spec(content@) == (match nuclei_lines(all.skip(i as int)) {
                    Ok(rest) => Ok::<Seq<FindingView>, Seq<char>>(findings_view(findings@) + rest),
                    Err(e) => Err::<Seq<FindingView>, Seq<char>>(e),
                }),
            decreases ls.len() - i,
        {
            let ghost rest = all.skip(i as int);
            assert(rest[0] == all[i as int]);
            assert(rest.drop_first() =~= all.skip(i + 1));
            let l = trim_chars(&ls[i]);
            if l.len() != 0 {
                let line = string_of(&l);
                match json_check(line.as_str()) {
                    Some(e) => {
                        return Err(concat("Invalid JSON line: ", e.as_str()));
                    },
                    None => {
                        let f = nuclei_finding_exec(line.as_str());
                        let ghost before = findings@;
                        findings.push(f);
                        proof {
                            lemma_push_view(before, f);
                            assert(findings_view(before) + seq![f@] =~= findings_view(findings@));
                            match nuclei_lines(all.skip(i + 1)) {
                                Ok(r2) => {
                                    assert(findings_view(before) + (seq![f@] + r2) =~= findings_view(findings@) + r2);
                                },
                                Err(_) => {},
                            }
                        }
                    },
                }
            }
            i = i + 1;
        }
        proof {
            assert(all.skip(i as int) =~= Seq::<Seq<char>>::empty());
            assert(findings_view(findings@) + Seq::<FindingView>::empty() =~= findings_view(findings@));
        }
        Ok(findings)
    }
}

impl FindingParser for NucleiParser {
    fn parse(&self, content: &[u8]) -> (r: Result<Vec<ParsedFinding>, String>)
        ensures
            parse_matches(r, nuclei_parse_spec(content@)),
    {
        self.parse_export(content)
    }

    fn format_name(&self) -> (r: &'static str)
        ensures
            r@ == "nuclei"@,
    {
        "nuclei"
    }
}

} // verus!
