//! Burp Suite XML issue exports.

use super::xml::{name_chars, or_empty, utf8_or_empty, xml_events, xml_next, xml_pending, xml_reader, EventModel, XmlEvent};
use super::{
    endpoint_model, endpoints_view, finding_model, findings_view, lemma_push_endpoint_view,
    lemma_push_remediation_view, lemma_push_view, make_endpoint, make_finding, make_remediation,
    normalize_severity, normalize_severity_spec, remediation_model, remediations_view,
    AffectedEndpoint, EndpointView, FindingParser, FindingView, ParsedFinding, RemediationItem,
    RemediationView,
};
use crate::text::{concat, copy_string, eq_lit, lit, push_string};
use vstd::prelude::*;

verus! {

/// Parser of Burp Suite XML exports.
pub struct BurpParser;

/// What the Burp parser remembers between events.
pub struct BurpModel {
    pub findings: Seq<FindingView>,
    pub current: Option<FindingView>,
    pub in_issue: bool,
    pub text: Seq<char>,
}

pub open spec fn burp_init() -> BurpModel {
    BurpModel { findings: Seq::empty(), current: None, in_issue: false, text: Seq::empty() }
}

/// The finding that an `<issue>` element opens.
pub open spec fn burp_fresh() -> FindingView {
    finding_model(
        Seq::empty(),
        "informational"@,
        Seq::empty(),
        Seq::empty(),
        Seq::empty(),
        Seq::empty(),
        "Burp Suite"@,
        None,
    )
}

/// The endpoint that a `<host>` element adds.
pub open spec fn burp_host(text: Seq<char>) -> EndpointView {
    endpoint_model("GET"@, text, "Burp identified target host"@)
}

/// Appends `text` to the path of the last endpoint, if there is one.
pub open spec fn extend_last_path(eps: Seq<EndpointView>, text: Seq<char>) -> Seq<EndpointView> {
    if eps.len() == 0 {
        eps
    } else {
        let last = eps.last();
        eps.update(
            eps.len() - 1,
            EndpointView { path: last.path + text, ..last },
        )
    }
}

/// What closing the element `name` does to the open finding `c`.
pub open spec fn burp_close(c: FindingView, name: Seq<char>, text: Seq<char>) -> FindingView {
    if name == "name"@ {
        FindingView { title: text, ..c }
    } else if name == "severity"@ {
        FindingView { severity: normalize_severity_spec(text), ..c }
    } else if name == "host"@ {
        FindingView { affected_endpoints: c.affected_endpoints.push(burp_host(text)), ..c }
    } else if name == "path"@ {
        FindingView { affected_endpoints: extend_last_path(c.affected_endpoints, text), ..c }
    } else if name == "issueBackground"@ {
        FindingView { overview: text, ..c }
    } else if name == "issueDetail"@ {
        FindingView { summary: text, ..c }
    } else if name == "remediationBackground"@ {
        FindingView {
            remediation_items: c.remediation_items.push(remediation_model("Remediation"@, text)),
            ..c
        }
    } else {
        c
    }
}

/// One step of the Burp parser: start tags reset the text buffer and open a
/// finding at `<issue>`; text inside an issue accumulates; end tags store
/// the text into the open finding and `</issue>` emits it.
pub open spec fn burp_step(st: BurpModel, ev: EventModel) -> BurpModel {
    match ev {
        EventModel::Start { name, .. } => {
            if utf8_or_empty(name) == "issue"@ {
                BurpModel { in_issue: true, current: Some(burp_fresh()), text: Seq::empty(), ..st }
            } else {
                BurpModel { text: Seq::empty(), ..st }
            }
        },
        EventModel::Text { unescaped, .. } => {
            if st.in_issue {
                BurpModel { text: st.text + or_empty(unescaped), ..st }
            } else {
                st
            }
        },
        EventModel::End { name } => {
            let n = utf8_or_empty(name);
            match st.current {
                Some(c) => {
                    if n == "issue"@ {
                        BurpModel {
                            findings: st.findings.push(c),
                            current: None,
                            in_issue: false,
                            text: Seq::empty(),
                        }
                    } else {
                        BurpModel { current: Some(burp_close(c, n, st.text)), text: Seq::empty(), ..st }
                    }
                },
                None => BurpModel { text: Seq::empty(), ..st },
            }
        },
        _ => st,
    }
}

/// Runs the Burp parser over an event stream until end-of-file or an error.
pub open spec fn burp_run(evs: Seq<EventModel>, st: BurpModel) -> Result<Seq<FindingView>, Seq<char>>
    decreases evs.len(),
{
    if evs.len() == 0 {
        Ok(st.findings)
    } else {
        match evs[0] {
            EventModel::Eof => Ok(st.findings),
            EventModel::Error { message, .. } => Err("XML parse error: "@ + message),
            _ => burp_run(evs.drop_first(), burp_step(st, evs[0])),
        }
    }
}

/// What the Burp parser makes of an export.
pub open spec fn burp_parse_spec(content: Seq<u8>) -> Result<Seq<FindingView>, Seq<char>> {
    burp_run(xml_events(content), burp_init())
}

/// Whether a parse result is the one given by a model result.
pub open spec fn parse_matches(
    r: Result<Vec<ParsedFinding>, String>,
    m: Result<Seq<FindingView>, Seq<char>>,
) -> bool {
    match r {
        Ok(v) => m == Ok::<Seq<FindingView>, Seq<char>>(findings_view(v@)),
        Err(e) => m == Err::<Seq<FindingView>, Seq<char>>(e@),
    }
}

struct BurpState {
    findings: Vec<ParsedFinding>,
    current: Option<ParsedFinding>,
    in_issue: bool,
    text: String,
}

impl View for BurpState {
    type V = BurpModel;

    closed spec fn view(&self) -> BurpModel {
        BurpModel {
            findings: findings_view(self.findings@),
            current: match self.current {
                Some(c) => Some(c@),
                None => None,
            },
            in_issue: self.in_issue,
            text: self.text@,
        }
    }
}

fn burp_fresh_exec() -> (f: ParsedFinding)
    ensures
        f@ == burp_fresh(),
{
    let f = make_finding(
        String::new(),
        lit("informational"),
        String::new(),
        String::new(),
        Vec::new(),
        Vec::new(),
        lit("Burp Suite"),
        None,
    );
    assert(endpoints_view(Seq::<AffectedEndpoint>::empty()) =~= Seq::<EndpointView>::empty());
    assert(remediations_view(Seq::<RemediationItem>::empty()) =~= Seq::<RemediationView>::empty());
    f
}

/// Appends `text` to the path of the last endpoint, if there is one.
pub fn extend_last_path_exec(eps: &mut Vec<AffectedEndpoint>, text: &String)
    ensures
        endpoints_view(final(eps)@) == extend_last_path(endpoints_view(old(eps)@), text@),
{
    if eps.len() > 0 {
        let ghost before = eps@;
        let last = eps.pop().unwrap();
        let mut path = last.path;
        push_string(&mut path, text);
        let e = AffectedEndpoint { method: last.method, path, description: last.description };
        eps.push(e);
        assert(endpoints_view(eps@) =~= extend_last_path(endpoints_view(before), text@));
    }
}

fn burp_close_exec(c: ParsedFinding, name: &Vec<char>, text: &String) -> (r: ParsedFinding)
    ensures
        r@ == burp_close(c@, name@, text@),
{
    let mut c = c;
    if eq_lit(name, "name") {
        c.title = copy_string(text);
    } else if eq_lit(name, "severity") {
        c.severity = normalize_severity(text.as_str());
    } else if eq_lit(name, "host") {
        let ghost before = c.affected_endpoints@;
        let e = make_endpoint(lit("GET"), copy_string(text), lit("Burp identified target host"));
        c.affected_endpoints.push(e);
        proof {
            lemma_push_endpoint_view(before, e);
        }
    } else if eq_lit(name, "path") {
        extend_last_path_exec(&mut c.affected_endpoints, text);
    } else if eq_lit(name, "issueBackground") {
        c.overview = copy_string(text);
    } else if eq_lit(name, "issueDetail") {
        c.summary = copy_string(text);
    } else if eq_lit(name, "remediationBackground") {
        let ghost before = c.remediation_items@;
        let item = make_remediation(lit("Remediation"), copy_string(text));
        c.remediation_items.push(item);
        proof {
            lemma_push_remediation_view(before, item);
        }
    }
    c
}

fn burp_apply(st: BurpState, ev: XmlEvent) -> (r: BurpState)
    ensures
        r@ == burp_step(st@, ev@),
{
    let mut st = st;
    match ev {
        XmlEvent::Start(s) => {
            let name = name_chars(&s.name);
            st.text = String::new();
            if eq_lit(&name, "issue") {
                st.in_issue = true;
                st.current = Some(burp_fresh_exec());
            }
            st
        },
        XmlEvent::Text { raw: _, unescaped } => {
            if st.in_issue {
                let ghost before = st.text@;
                let ghost u = crate::parsers::opt_view(unescaped);
                match unescaped {
                    Some(u) => push_string(&mut st.text, &u),
                    None => {},
                }
                assert(st.text@ =~= before + or_empty(u));
            }
            st
        },
        XmlEvent::End(n) => {
            let name = name_chars(&n);
            let cur = st.current;
            let BurpState { findings, current: _, in_issue, text } = st;
            let mut findings = findings;
            let mut in_issue = in_issue;
            let next = match cur {
                Some(c) => {
                    if eq_lit(&name, "issue") {
                        let ghost before = findings@;
                        findings.push(c);
                        proof {
                            lemma_push_view(before, c);
                        }
                        in_issue = false;
                        None
                    } else {
                        Some(burp_close_exec(c, &name, &text))
                    }
                },
                None => None,
            };
            BurpState { findings, current: next, in_issue, text: String::new() }
        },
        _ => st,
    }
}

impl BurpParser {
    /// Reads the `<issue>` elements of a Burp export: name, severity (via
    /// `normalize_severity`), host and path, background, detail and
    /// remediation. An XML syntax error ends the parse with an error.
    pub fn parse_export(&self, content: &[u8]) -> (r: Result<Vec<ParsedFinding>, String>)
        ensures
            parse_matches(r, burp_parse_spec(content@)),
    {
        let mut reader = xml_reader(content);
        let mut st = BurpState {
            findings: Vec::new(),
            current: None,
            in_issue: false,
            text: String::new(),
        };
        proof {
            assert(findings_view(Seq::<ParsedFinding>::empty()) =~= Seq::<FindingView>::empty());
            assert(st@ == burp_init());
        }
        loop
            invariant
                burp_run(xml_pending(reader), st@) == burp_parse_spec(content@),
            decreases xml_pending(reader).len(),
        {
            let ghost pending = xml_pending(reader);
            let ev = xml_next(&mut reader);
            match ev {
                XmlEvent::Eof => {
                    return Ok(st.findings);
                },
                XmlEvent::Error { message, position: _ } => {
                    return Err(concat("XML parse error: ", message.as_str()));
                },
                _ => {
                    assert(pending.len() > 0);
                    st = burp_apply(st, ev);
                },
            }
        }
    }
}

impl FindingParser for BurpParser {
    fn parse(&self, content: &[u8]) -> (r: Result<Vec<ParsedFinding>, String>)
        ensures
            parse_matches(r, burp_parse_spec(content@)),
    {
        self.parse_export(content)
    }

    fn format_name(&self) -> (r: &'static str)
        ensures
            r@ == "burp"@,
    {
        "burp"
    }
}

} // verus!
