//! Nessus `.nessus` XML exports.

use super::burp::parse_matches;
use super::xml::{name_chars, or_empty, text_or_empty, utf8_or_empty, xml_events, xml_next, xml_pending, xml_reader, AttrModel, EventModel, XmlAttr, XmlEvent};
use super::{finding_model, findings_view, lemma_push_remediation_view, lemma_push_view, make_finding, make_remediation, normalize_severity, normalize_severity_spec, remediation_model, AffectedEndpoint, EndpointView, FindingParser, FindingView, ParsedFinding, RemediationItem, RemediationView};
use crate::text::{chars_of, concat, copy_string, eq_lit, lit, string_of, trim, trim_chars};
use vstd::prelude::*;

verus! {

/// Parser of Nessus XML exports.
pub struct NessusParser;

/// What the Nessus parser remembers between events.
pub struct NessusModel {
    pub findings: Seq<FindingView>,
    pub current: Option<FindingView>,
    pub in_item: bool,
    pub text: Seq<char>,
}

pub open spec fn nessus_init() -> NessusModel {
    NessusModel { findings: Seq::empty(), current: None, in_item: false, text: Seq::empty() }
}

/// The severity that a Nessus `severity` attribute (0-4) stands for.
pub open spec fn nessus_level(v: Seq<char>) -> Seq<char> {
    if v == "4"@ {
        "critical"@
    } else if v == "3"@ {
        "high"@
    } else if v == "2"@ {
        "medium"@
    } else if v == "1"@ {
        "low"@
    } else {
        "informational"@
    }
}

/// Reads the attributes of a `<ReportItem>`: `pluginName` gives the title,
/// `severity` the level; a malformed attribute is an error.
pub open spec fn nessus_attrs(attrs: Seq<AttrModel>, title: Seq<char>, sev: Seq<char>) -> Result<
    (Seq<char>, Seq<char>),
    Seq<char>,
>
    decreases attrs.len(),
{
    if attrs.len() == 0 {
        Ok((title, sev))
    } else {
        match attrs[0] {
            AttrModel::Invalid { message } => Err("Attr error: "@ + message),
            AttrModel::Valid { key, value, .. } => {
                let k = utf8_or_empty(key);
                let v = or_empty(value);
                if k == "pluginName"@ {
                    nessus_attrs(attrs.drop_first(), v, sev)
                } else if k == "severity"@ {
                    nessus_attrs(attrs.drop_first(), title, nessus_level(v))
                } else {
                    nessus_attrs(attrs.drop_first(), title, sev)
                }
            },
        }
    }
}

/// The text after the first `:` of `s`, if `s` has one (`str::split_once`).
pub open spec fn after_colon(s: Seq<char>) -> Option<Seq<char>> {
    if s.contains(':') {
        let i = choose|i: int| 0 <= i < s.len() && s[i] == ':' && forall|j: int| 0 <= j < i ==> s[j] != ':';
        Some(s.skip(i + 1))
    } else {
        None
    }
}

/// What closing the element `name` does to the open finding `c`.
pub open spec fn nessus_close(c: FindingView, name: Seq<char>, text: Seq<char>) -> FindingView {
    if name == "plugin_output"@ && text.len() != 0 {
        FindingView { summary: text, overview: text, ..c }
    } else if name == "risk_factor"@ {
        FindingView { severity: normalize_severity_spec(text), ..c }
    } else if name == "solution"@ {
        FindingView {
            remediation_items: c.remediation_items.push(remediation_model("Apply solution"@, text)),
            ..c
        }
    } else if name == "synopsis"@ {
        FindingView { overview: text, ..c }
    } else if name == "description"@ {
        FindingView { summary: text, ..c }
    } else if name == "plugin_information"@ {
        match after_colon(text) {
            Some(rest) => FindingView { source_id: Some(trim(rest)), ..c },
            None => c,
        }
    } else {
        c
    }
}

/// One step of the Nessus parser. `<ReportItem>` opens a finding titled by
/// its `pluginName` with the level of its `severity`; end tags inside store
/// the collected text; `</ReportItem>` emits the finding.
pub open spec fn nessus_step(st: NessusModel, ev: EventModel) -> Result<NessusModel, Seq<char>> {
    match ev {
        EventModel::Start { name, attrs } => {
            if utf8_or_empty(name) == "ReportItem"@ {
                match nessus_attrs(attrs, Seq::empty(), "informational"@) {
                    Ok((title, sev)) => Ok(
                        NessusModel {
                            in_item: true,
                            current: Some(
                                finding_model(
                                    title,
                                    sev,
                                    Seq::empty(),
                                    Seq::empty(),
                                    Seq::empty(),
                                    Seq::empty(),
                                    "Nessus"@,
                                    None,
                                ),
                            ),
                            text: Seq::empty(),
                            ..st
                        },
                    ),
                    Err(m) => Err(m),
                }
            } else {
                Ok(NessusModel { text: Seq::empty(), ..st })
            }
        },
        EventModel::Text { unescaped, .. } => {
            if st.in_item {
                Ok(NessusModel { text: st.text + or_empty(unescaped), ..st })
            } else {
                Ok(st)
            }
        },
        EventModel::End { name } => {
            let n = utf8_or_empty(name);
            match st.current {
                Some(c) => {
                    if n == "ReportItem"@ {
                        Ok(
                            NessusModel {
                                findings: st.findings.push(c),
                                current: None,
                                in_item: false,
                                text: Seq::empty(),
                            },
                        )
                    } else {
                        Ok(
                            NessusModel {
                                current: Some(nessus_close(c, n, st.text)),
                                text: Seq::empty(),
                                ..st
                            },
                        )
                    }
                },
                None => Ok(NessusModel { text: Seq::empty(), ..st }),
            }
        },
        _ => Ok(st),
    }
}

/// Runs the Nessus parser over an event stream.
pub open spec fn nessus_run(evs: Seq<EventModel>, st: NessusModel) -> Result<
    Seq<FindingView>,
    Seq<char>,
>
    decreases evs.len(),
{
    if evs.len() == 0 {
        Ok(st.findings)
    } else {
        match evs[0] {
            EventModel::Eof => Ok(st.findings),
            EventModel::Error { message, .. } => Err("XML parse error: "@ + message),
            _ => match nessus_step(st, evs[0]) {
                Ok(next) => nessus_run(evs.drop_first(), next),
                Err(m) => Err(m),
            },
        }
    }
}

/// What the Nessus parser makes of an export.
pub open spec fn nessus_parse_spec(content: Seq<u8>) -> Result<Seq<FindingView>, Seq<char>> {
    nessus_run(xml_events(content), nessus_init())
}

struct NessusState {
    findings: Vec<ParsedFinding>,
    current: Option<ParsedFinding>,
    in_item: bool,
    text: String,
}

impl View for NessusState {
    type V = NessusModel;

    closed spec fn view(&self) -> NessusModel {
        NessusModel {
            findings: findings_view(self.findings@),
            current: match self.current {
                Some(c) => Some(c@),
                None => None,
            },
            in_item: self.in_item,
            text: self.text@,
        }
    }
}

/// Maps a Nessus severity attribute (0-4) onto the five-level scale.
pub fn nessus_level_exec(v: &Vec<char>) -> (r: String)
    ensures
        r@ == nessus_level(v@),
{
    if eq_lit(v, "4") {
        lit("critical")
    } else if eq_lit(v, "3") {
        lit("high")
    } else if eq_lit(v, "2") {
        lit("medium")
    } else if eq_lit(v, "1") {
        lit("low")
    } else {
        lit("informational")
    }
}

fn nessus_attrs_exec(attrs: &Vec<XmlAttr>) -> (r: Result<(String, String), String>)
    ensures
        match r {
            Ok((t, s)) => nessus_attrs(attrs@.map_values(|a: XmlAttr| a@), Seq::empty(), "informational"@)
                == Ok::<(Seq<char>, Seq<char>), Seq<char>>((t@, s@)),
            Err(e) => nessus_attrs(attrs@.map_values(|a: XmlAttr| a@), Seq::empty(), "informational"@)
                == Err::<(Seq<char>, Seq<char>), Seq<char>>(e@),
        },
{
    let ghost all = attrs@.map_values(|a: XmlAttr| a@);
    let mut title = String::new();
    let mut sev = lit("informational");
    let mut i: usize = 0;
    assert(all.skip(0) =~= all);
    while i < attrs.len()
        invariant
            i <= attrs.len(),
            all == attrs@.map_values(|a: XmlAttr| a@),
            nessus_attrs(all, Seq::empty(), "informational"@) == nessus_attrs(
                all.skip(i as int),
                title@,
                sev@,
            ),
        decreases attrs.len() - i,
    {
        assert(all.skip(i as int)[0] == attrs@[i as int]@);
        assert(all.skip(i as int).drop_first() =~= all.skip(i + 1));
        match &attrs[i] {
            XmlAttr::Invalid { message } => {
                return Err(concat("Attr error: ", message.as_str()));
            },
            XmlAttr::Valid { key, raw_value: _, value } => {
                let k = name_chars(key);
                let v = text_or_empty(value);
                if eq_lit(&k, "pluginName") {
                    title = v;
                } else if eq_lit(&k, "severity") {
                    let vc = chars_of(v.as_str());
                    sev = nessus_level_exec(&vc);
                }
            },
        }
        i = i + 1;
    }
    assert(all.skip(i as int) =~= Seq::<AttrModel>::empty());
    Ok((title, sev))
}

/// The text after the first `:` of `s`, if any.
fn after_colon_exec(s: &Vec<char>) -> (r: Option<Vec<char>>)
    ensures
        match r {
            Some(v) => after_colon(s@) == Some(v@),
            None => after_colon(s@) is None,
        },
{
    let mut i: usize = 0;
    while i < s.len()
        invariant
            i <= s.len(),
            forall|j: int| 0 <= j < i ==> s@[j] != ':',
        decreases s.len() - i,
    {
        if s[i] == ':' {
            let ghost k = choose|k: int| 0 <= k < s@.len() && s@[k] == ':' && forall|j: int| 0 <= j < k ==> s@[j] != ':';
            assert(s@.contains(':')) by {
                assert(s@[i as int] == ':');
            }
            proof {
                assert(k == i) by {
                    if k < i {
                    } else if k > i {
                        assert(s@[i as int] != ':');
                    }
                }
            }
            let mut out: Vec<char> = Vec::new();
            let mut p = i + 1;
            while p < s.len()
                invariant
                    i < p <= s.len(),
                    out@ == s@.subrange(i + 1, p as int),
                decreases s.len() - p,
            {
                out.push(s[p]);
                p = p + 1;
                assert(out@ =~= s@.subrange(i + 1, p as int));
            }
            assert(out@ =~= s@.skip(i + 1));
            return Some(out);
        }
        i = i + 1;
    }
    None
}

fn nessus_close_exec(c: ParsedFinding, name: &Vec<char>, text: &String) -> (r: ParsedFinding)
    ensures
        r@ == nessus_close(c@, name@, text@),
{
    let mut c = c;
    let tv = chars_of(text.as_str());
    if eq_lit(name, "plugin_output") && tv.len() != 0 {
        c.summary = copy_string(text);
        c.overview = copy_string(text);
    } else if eq_lit(name, "risk_factor") {
        c.severity = normalize_severity(text.as_str());
    } else if eq_lit(name, "solution") {
        let ghost before = c.remediation_items@;
        let item = make_remediation(lit("Apply solution"), copy_string(text));
        c.remediation_items.push(item);
        proof {
            lemma_push_remediation_view(before, item);
        }
    } else if eq_lit(name, "synopsis") {
        c.overview = copy_string(text);
    } else if eq_lit(name, "description") {
        c.summary = copy_string(text);
    } else if eq_lit(name, "plugin_information") {
        match after_colon_exec(&tv) {
            Some(rest) => {
                let t = trim_chars(&rest);
                c.source_id = Some(string_of(&t));
            },
            None => {},
        }
    }
    c
}

fn nessus_apply(st: NessusState, ev: XmlEvent) -> (r: Result<NessusState, String>)
    ensures
        match r {
            Ok(s) => nessus_step(st@, ev@) == Ok::<NessusModel, Seq<char>>(s@),
            Err(e) => nessus_step(st@, ev@) == Err::<NessusModel, Seq<char>>(e@),
        },
{
    let mut st = st;
    match ev {
        XmlEvent::Start(s) => {
            let name = name_chars(&s.name);
            if eq_lit(&name, "ReportItem") {
                proof {
                    assert(s.attrs@.map_values(|a: XmlAttr| a@) =~= crate::parsers::xml::attrs_view(s.attrs@));
                }
                match nessus_attrs_exec(&s.attrs) {
                    Ok((title, sev)) => {
                        let f = make_finding(
                            title,
                            sev,
                            String::new(),
                            String::new(),
                            Vec::new(),
                            Vec::new(),
                            lit("Nessus"),
                            None,
                        );
                        assert(crate::parsers::endpoints_view(Seq::<AffectedEndpoint>::empty()) =~= Seq::<EndpointView>::empty());
                        assert(crate::parsers::remediations_view(Seq::<RemediationItem>::empty()) =~= Seq::<RemediationView>::empty());
                        st.in_item = true;
                        st.current = Some(f);
                        st.text = String::new();
                        Ok(st)
                    },
                    Err(e) => Err(e),
                }
            } else {
                st.text = String::new();
                Ok(st)
            }
        },
        XmlEvent::Text { raw: _, unescaped } => {
            if st.in_item {
                let ghost before = st.text@;
                let u = text_or_empty(&unescaped);
                crate::text::push_string(&mut st.text, &u);
            }
            Ok(st)
        },
        XmlEvent::End(n) => {
            let name = name_chars(&n);
            let NessusState { findings, current, in_item, text } = st;
            let mut findings = findings;
            let mut in_item = in_item;
            let next = match current {
                Some(c) => {
                    if eq_lit(&name, "ReportItem") {
                        let ghost before = findings@;
                        findings.push(c);
                        proof {
                            lemma_push_view(before, c);
                        }
                        in_item = false;
                        None
                    } else {
                        Some(nessus_close_exec(c, &name, &text))
                    }
                },
                None => None,
            };
            Ok(NessusState { findings, current: next, in_item, text: String::new() })
        },
        _ => Ok(st),
    }
}

impl NessusParser {
    /// Reads the `<ReportItem>` elements of a Nessus export. Plugin name and
    /// severity come from the attributes; output, risk factor, solution,
    /// synopsis, description and plugin information from the children.
    pub fn parse_export(&self, content: &[u8]) -> (r: Result<Vec<ParsedFinding>, String>)
        ensures
            parse_matches(r, nessus_parse_spec(content@)),
    {
        let mut reader = xml_reader(content);
        let mut st = NessusState {
            findings: Vec::new(),
            current: None,
            in_item: false,
            text: String::new(),
        };
        proof {
            assert(findings_view(Seq::<ParsedFinding>::empty()) =~= Seq::<FindingView>::empty());
            assert(st@ == nessus_init());
        }
        loop
            invariant
                nessus_run(xml_pending(reader), st@) == nessus_parse_spec(content@),
            decreases xml_pending(reader).len(),
        {
            let ghost pending = xml_pending(reader);
            let ev = xml_next(&mut reader);
            match ev {
                XmlEvent::Eof => {
                    return Ok(st.findings);
                },
                XmlEvent::Error { message, position: _ } => {
                    return Err(concat("XML parse error: ", message.as_str()));
                },
                _ => {
                    assert(pending.len() > 0);
                    match nessus_apply(st, ev) {
                        Ok(next) => {
                            st = next;
                        },
                        Err(e) => {
                            return Err(e);
                        },
                    }
                },
            }
        }
    }
}

impl FindingParser for NessusParser {
    fn parse(&self, content: &[u8]) -> (r: Result<Vec<ParsedFinding>, String>)
        ensures
            parse_matches(r, nessus_parse_spec(content@)),
    {
        self.parse_export(content)
    }

    fn format_name(&self) -> (r: &'static str)
        ensures
            r@ == "nessus"@,
    {
        "nessus"
    }
}

} // verus!
