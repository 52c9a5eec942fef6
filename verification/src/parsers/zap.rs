//! OWASP ZAP JSON reports. The JSON text is decoded into `ZapReport` at the
//! edge of the library; here the decoded report becomes findings.


use super::{endpoint_model, finding_model, findings_view, lemma_push_endpoint_view, lemma_push_view, make_endpoint, make_finding, make_remediation, remediation_model, AffectedEndpoint, EndpointView, FindingView, ParsedFinding, RemediationItem};
use crate::text::{chars_of, copy_string, eq_lit, first_chars, lit, lowercase, split_chars, split_on, string_of, take_chars, to_lowercase, to_uppercase, uppercase};
use vstd::prelude::*;

verus! {

/// One instance of a ZAP alert.
#[derive(Debug)]
pub struct ZapInstance {
    pub uri: String,
    pub method: String,
}

/// One ZAP alert.
#[derive(Debug)]
pub struct ZapAlert {
    pub name: String,
    pub riskdesc: String,
    pub desc: String,
    pub solution: String,
    pub instances: Vec<ZapInstance>,
}

/// The alerts of one scanned site.
#[derive(Debug)]
pub struct ZapSite {
    pub alerts: Vec<ZapAlert>,
}

/// A decoded ZAP JSON report.
#[derive(Debug)]
pub struct ZapReport {
    pub site: Vec<ZapSite>,
}

/// Parser of OWASP ZAP JSON reports.
pub struct ZapJsonParser;

/// The severity of a ZAP risk description: its first word, lower-cased, when
/// it is high, medium or low; informational otherwise.
pub open spec fn zap_level(riskdesc: Seq<char>) -> Seq<char> {
    let w = lowercase(split_on(riskdesc, ' ')[0]);
    if w == "high"@ {
        "high"@
    } else if w == "medium"@ {
        "medium"@
    } else if w == "low"@ {
        "low"@
    } else {
        "informational"@
    }
}

pub open spec fn zap_instance_endpoint(i: ZapInstance) -> EndpointView {
    endpoint_model(uppercase(i.method@), first_chars(i.uri@, 500), "ZAP identified instance"@)
}

/// The endpoints of an alert: one per instance, or a placeholder when it
/// has none.
pub open spec fn zap_endpoints(a: ZapAlert) -> Seq<EndpointView> {
    if a.instances@.len() == 0 {
        seq![endpoint_model("GET"@, "/"@, "ZAP alert"@)]
    } else {
        a.instances@.map_values(|i: ZapInstance| zap_instance_endpoint(i))
    }
}

/// The finding of one alert.
pub open spec fn zap_finding(a: ZapAlert) -> FindingView {
    finding_model(
        first_chars(a.name@, 500),
        zap_level(a.riskdesc@),
        a.desc@,
        a.solution@,
        zap_endpoints(a),
        seq![remediation_model("Apply fix"@, a.solution@)],
        "OWASP ZAP"@,
        None,
    )
}

/// The findings of all alerts of all sites, in order.
pub open spec fn zap_findings(sites: Seq<ZapSite>) -> Seq<FindingView>
    decreases sites.len(),
{
    if sites.len() == 0 {
        Seq::empty()
    } else {
        zap_findings(sites.drop_last()) + sites.last().alerts@.map_values(|a: ZapAlert| zap_finding(a))
    }
}

fn zap_level_exec(riskdesc: &String) -> (r: String)
    ensures
        r@ == zap_level(riskdesc@),
{
    let v = chars_of(riskdesc.as_str());
    let parts = split_chars(&v, ' ');
    proof {
        crate::text::lemma_split_on_nonempty(v@, ' ');
    }
    let first = string_of(&parts[0]);
    let lower = to_lowercase(first.as_str());
    let w = chars_of(lower.as_str());
    if eq_lit(&w, "high") {
        lit("high")
    } else if eq_lit(&w, "medium") {
        lit("medium")
    } else if eq_lit(&w, "low") {
        lit("low")
    } else {
        lit("informational")
    }
}

fn zap_finding_exec(a: &ZapAlert) -> (f: ParsedFinding)
    ensures
        f@ == zap_finding(*a),
{
    let mut eps: Vec<AffectedEndpoint> = Vec::new();
    let mut i: usize = 0;
    while i < a.instances.len()
        invariant
            i <= a.instances@.len(),
            crate::parsers::endpoints_view(eps@) == a.instances@.take(i as int).map_values(
                |x: ZapInstance| zap_instance_endpoint(x),
            ),
        decreases a.instances.len() - i,
    {
        let inst = &a.instances[i];
        let e = make_endpoint(
            to_uppercase(inst.method.as_str()),
            take_chars(&inst.uri, 500),
            lit("ZAP identified instance"),
        );
        let ghost before = eps@;
        eps.push(e);
        proof {
            lemma_push_endpoint_view(before, e);
            assert(a.instances@.take(i + 1).map_values(|x: ZapInstance| zap_instance_endpoint(x))
                =~= a.instances@.take(i as int).map_values(|x: ZapInstance| zap_instance_endpoint(x)).push(
                zap_instance_endpoint(a.instances@[i as int])));
        }
        i = i + 1;
    }
    assert(a.instances@.take(i as int) =~= a.instances@);
    if eps.len() == 0 {
        let e = make_endpoint(lit("GET"), lit("/"), lit("ZAP alert"));
        eps.push(e);
        assert(crate::parsers::endpoints_view(eps@) =~= seq![e@]);
    }
    let r = make_remediation(lit("Apply fix"), copy_string(&a.solution));
    let mut rs: Vec<RemediationItem> = Vec::new();
    rs.push(r);
    assert(crate::parsers::remediations_view(rs@) =~= seq![r@]);
    make_finding(
        take_chars(&a.name, 500),
        zap_level_exec(&a.riskdesc),
        copy_string(&a.desc),
        copy_string(&a.solution),
        eps,
        rs,
        lit("OWASP ZAP"),
        None,
    )
}

impl ZapJsonParser {
    /// The findings of a decoded report: one per alert of every site, each
    /// with its instances as endpoints and its solution as remediation.
    pub fn findings_of(&self, report: &ZapReport) -> (r: Vec<ParsedFinding>)
        ensures
            findings_view(r@) == zap_findings(report.site@),
    {
        let mut out: Vec<ParsedFinding> = Vec::new();
        let mut s: usize = 0;
        proof {
            assert(findings_view(out@) =~= Seq::<FindingView>::empty());
            assert(report.site@.take(0) =~= Seq::<ZapSite>::empty());
        }
        while s < report.site.len()
            invariant
                s <= report.site@.len(),
                findings_view(out@) == zap_findings(report.site@.take(s as int)),
            decreases report.site.len() - s,
        {
            let site = &report.site[s];
            let ghost base = findings_view(out@);
            let mut k: usize = 0;
            while k < site.alerts.len()
                invariant
                    k <= site.alerts@.len(),
                    findings_view(out@) == base + site.alerts@.take(k as int).map_values(|a: ZapAlert| zap_finding(a)),
                decreases site.alerts.len() - k,
            {
                let f = zap_finding_exec(&site.alerts[k]);
                let ghost before = out@;
                out.push(f);
                proof {
                    lemma_push_view(before, f);
                    assert(site.alerts@.take(k + 1).map_values(|a: ZapAlert| zap_finding(a))
                        =~= site.alerts@.take(k as int).map_values(|a: ZapAlert| zap_finding(a)).push(
                        zap_finding(site.alerts@[k as int])));
                    assert(base + site.alerts@.take(k + 1).map_values(|a: ZapAlert| zap_finding(a))
                        =~= (base + site.alerts@.take(k as int).map_values(|a: ZapAlert| zap_finding(a))).push(
                        zap_finding(site.alerts@[k as int])));
                }
                k = k + 1;
            }
            proof {
                assert(site.alerts@.take(k as int) =~= site.alerts@);
                let t = report.site@.take(s + 1);
                assert(t.drop_last() =~= report.site@.take(s as int));
                assert(t.last() == report.site@[s as int]);
            }
            s = s + 1;
        }
        assert(report.site@.take(s as int) =~= report.site@);
        out
    }

    /// The short name of the format.
    pub fn format_name(&self) -> (r: &'static str)
        ensures
            r@ == "zap_json"@,
    {
        "zap_json"
    }
}

} // verus!
