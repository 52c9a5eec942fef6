//! Nmap XML scan results: one informational finding per port element.

use super::burp::parse_matches;
use super::xml::{attr_pairs, attr_pairs_exec, last_value, last_value_exec, name_chars, utf8_or_empty, xml_events, xml_next, xml_pending, xml_reader, EventModel, XmlEvent};
use super::{endpoint_model, finding_model, findings_view, lemma_push_view, make_endpoint, make_finding, make_remediation, remediation_model, AffectedEndpoint, FindingParser, FindingView, ParsedFinding, RemediationItem};
use crate::text::{concat, copy_string, eq_lit, lit, push_string};
use vstd::prelude::*;

verus! {

/// Parser of Nmap XML output.
pub struct NmapParser;

/// What the Nmap parser remembers between events.
pub struct NmapModel {
    pub findings: Seq<FindingView>,
    pub host: Seq<char>,
    pub port_id: Seq<char>,
    pub protocol: Seq<char>,
    pub state: Seq<char>,
}

pub open spec fn nmap_init() -> NmapModel {
    NmapModel {
        findings: Seq::empty(),
        host: Seq::empty(),
        port_id: Seq::empty(),
        protocol: Seq::empty(),
        state: Seq::empty(),
    }
}

/// The finding for one closed `<port>` element.
pub open spec fn nmap_port_finding(st: NmapModel) -> FindingView {
    finding_model(
        "Open port "@ + st.port_id + "/"@ + st.protocol + " on "@ + st.host,
        "informational"@,
        "Nmap detected "@ + st.protocol + "/"@ + st.port_id + " (state: "@ + st.state + ")"@,
        "Port scan identified "@ + st.protocol + " "@ + st.port_id + " "@ + st.state
            + " on host "@ + st.host + "."@,
        seq![
            endpoint_model(
                "N/A"@,
                st.host + ":"@ + st.port_id + "/"@ + st.protocol,
                st.protocol + " port "@ + st.port_id,
            ),
        ],
        seq![remediation_model("Review open ports"@, "Close or restrict unnecessary services."@)],
        "Nmap"@,
        None,
    )
}

/// One step of the Nmap parser. Start tags `address`, `port` and `state`
/// read their attributes (`addr`; `portid` and `protocol`; `state`), where a
/// malformed attribute is an error; `</port>` emits a finding and clears the
/// port fields (the host is kept).
pub open spec fn nmap_step(st: NmapModel, ev: EventModel) -> Result<NmapModel, Seq<char>> {
    match ev {
        EventModel::Start { name, attrs } => {
            let tag = utf8_or_empty(name);
            if tag == "address"@ || tag == "port"@ || tag == "state"@ {
                match attr_pairs(attrs) {
                    Ok(p) => {
                        if tag == "address"@ {
                            Ok(NmapModel { host: last_value(p, "addr"@, st.host), ..st })
                        } else if tag == "port"@ {
                            Ok(
                                NmapModel {
                                    port_id: last_value(p, "portid"@, st.port_id),
                                    protocol: last_value(p, "protocol"@, st.protocol),
                                    ..st
                                },
                            )
                        } else {
                            Ok(NmapModel { state: last_value(p, "state"@, st.state), ..st })
                        }
                    },
                    Err(m) => Err(m),
                }
            } else {
                Ok(st)
            }
        },
        EventModel::End { name } => {
            if utf8_or_empty(name) == "port"@ {
                Ok(
                    NmapModel {
                        findings: st.findings.push(nmap_port_finding(st)),
                        host: st.host,
                        port_id: Seq::empty(),
                        protocol: Seq::empty(),
                        state: Seq::empty(),
                    },
                )
            } else {
                Ok(st)
            }
        },
        _ => Ok(st),
    }
}

/// Runs the Nmap parser over an event stream.
pub open spec fn nmap_run(evs: Seq<EventModel>, st: NmapModel) -> Result<Seq<FindingView>, Seq<char>>
    decreases evs.len(),
{
    if evs.len() == 0 {
        Ok(st.findings)
    } else {
        match evs[0] {
            EventModel::Eof => Ok(st.findings),
            EventModel::Error { message, .. } => Err("XML parse error: "@ + message),
            _ => match nmap_step(st, evs[0]) {
                Ok(next) => nmap_run(evs.drop_first(), next),
                Err(m) => Err(m),
            },
        }
    }
}

/// What the Nmap parser makes of a scan file.
pub open spec fn nmap_parse_spec(content: Seq<u8>) -> Result<Seq<FindingView>, Seq<char>> {
    nmap_run(xml_events(content), nmap_init())
}

struct NmapState {
    findings: Vec<ParsedFinding>,
    host: String,
    port_id: String,
    protocol: String,
    state: String,
}

impl View for NmapState {
    type V = NmapModel;

    closed spec fn view(&self) -> NmapModel {
        NmapModel {
            findings: findings_view(self.findings@),
            host: self.host@,
            port_id: self.port_id@,
            protocol: self.protocol@,
            state: self.state@,
        }
    }
}

/// Concatenation of several strings.
fn join3(a: &str, b: &String, c: &str) -> (r: String)
    ensures
        r@ == a@ + b@ + c@,
{
    let mut r = lit(a);
    push_string(&mut r, b);
    r.append(c);
    r
}

fn nmap_finding_exec(host: &String, port_id: &String, protocol: &String, state: &String) -> (f: ParsedFinding)
    ensures
        f@ == nmap_port_finding(
            NmapModel { findings: Seq::empty(), host: host@, port_id: port_id@, protocol: protocol@, state: state@ },
        ),
{
    let mut title = join3("Open port ", port_id, "/");
    push_string(&mut title, protocol);
    title.append(" on ");
    push_string(&mut title, host);
    let mut overview = join3("Nmap detected ", protocol, "/");
    push_string(&mut overview, port_id);
    overview.append(" (state: ");
    push_string(&mut overview, state);
    overview.append(")");
    let mut summary = join3("Port scan identified ", protocol, " ");
    push_string(&mut summary, port_id);
    summary.append(" ");
    push_string(&mut summary, state);
    summary.append(" on host ");
    push_string(&mut summary, host);
    summary.append(".");
    let mut path = copy_string(host);
    path.append(":");
    push_string(&mut path, port_id);
    path.append("/");
    push_string(&mut path, protocol);
    let mut desc = copy_string(protocol);
    desc.append(" port ");
    push_string(&mut desc, port_id);
    let e = make_endpoint(lit("N/A"), path, desc);
    let r = make_remediation(lit("Review open ports"), lit("Close or restrict unnecessary services."));
    let mut eps: Vec<AffectedEndpoint> = Vec::new();
    eps.push(e);
    let mut rs: Vec<RemediationItem> = Vec::new();
    rs.push(r);
    assert(crate::parsers::endpoints_view(eps@) =~= seq![e@]);
    assert(crate::parsers::remediations_view(rs@) =~= seq![r@]);
    make_finding(title, lit("informational"), overview, summary, eps, rs, lit("Nmap"), None)
}

fn nmap_apply(st: NmapState, ev: XmlEvent) -> (r: Result<NmapState, String>)
    ensures
        match r {
            Ok(s) => nmap_step(st@, ev@) == Ok::<NmapModel, Seq<char>>(s@),
            Err(e) => nmap_step(st@, ev@) == Err::<NmapModel, Seq<char>>(e@),
        },
{
    let mut st = st;
    match ev {
        XmlEvent::Start(s) => {
            let tag = name_chars(&s.name);
            let is_addr = eq_lit(&tag, "address");
            let is_port = eq_lit(&tag, "port");
            let is_state = eq_lit(&tag, "state");
            if is_addr || is_port || is_state {
                match attr_pairs_exec(&s.attrs) {
                    Ok(p) => {
                        if is_addr {
                            st.host = last_value_exec(&p, "addr", &st.host);
                        } else if is_port {
                            st.port_id = last_value_exec(&p, "portid", &st.port_id);
                            st.protocol = last_value_exec(&p, "protocol", &st.protocol);
                        } else {
                            st.state = last_value_exec(&p, "state", &st.state);
                        }
                        Ok(st)
                    },
                    Err(e) => Err(e),
                }
            } else {
                Ok(st)
            }
        },
        XmlEvent::End(n) => {
            let tag = name_chars(&n);
            if eq_lit(&tag, "port") {
                let f = nmap_finding_exec(&st.host, &st.port_id, &st.protocol, &st.state);
                let ghost before = st.findings@;
                st.findings.push(f);
                proof {
                    lemma_push_view(before, f);
                }
                st.port_id = String::new();
                st.protocol = String::new();
                st.state = String::new();
            }
            Ok(st)
        },
        _ => Ok(st),
    }
}

impl NmapParser {
    /// Reports every `<port>` element as an informational open-port finding.
    pub fn parse_export(&self, content: &[u8]) -> (r: Result<Vec<ParsedFinding>, String>)
        ensures
            parse_matches(r, nmap_parse_spec(content@)),
    {
        let mut reader = xml_reader(content);
        let mut st = NmapState {
            findings: Vec::new(),
            host: String::new(),
            port_id: String::new(),
            protocol: String::new(),
            state: String::new(),
        };
        proof {
            assert(findings_view(Seq::<ParsedFinding>::empty()) =~= Seq::<FindingView>::empty());
            assert(st@ == nmap_init());
        }
        loop
            invariant
                nmap_run(xml_pending(reader), st@) == nmap_parse_spec(content@),
            decreases xml_pending(reader).len(),
        {
            let ghost pending = xml_pending(reader);
            let ev = xml_next(&mut reader);
            match ev {
                XmlEvent::Eof => {
                    return Ok(st.findings);
                },
                XmlEvent::Error { message, position: _ } => {
                    return Err(concat("XML parse error: ", message.as_str()));
                },
                _ => {
                    assert(pending.len() > 0);
                    match nmap_apply(st, ev) {
                        Ok(next) => {
                            st = next;
                        },
                        Err(e) => {
                            return Err(e);
                        },
                    }
                },
            }
        }
    }
}

impl FindingParser for NmapParser {
    fn parse(&self, content: &[u8]) -> (r: Result<Vec<ParsedFinding>, String>)
        ensures
            parse_matches(r, nmap_parse_spec(content@)),
    {
        self.parse_export(content)
    }

    fn format_name(&self) -> (r: &'static str)
        ensures
            r@ == "nmap"@,
    {
        "nmap"
    }
}

} // verus!
