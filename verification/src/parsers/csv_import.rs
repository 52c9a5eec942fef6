//! CSV exports with a caller-supplied column mapping.

use super::burp::parse_matches;
use super::nuclei::or_default;
use super::{
    endpoint_model, finding_model, findings_view, lemma_push_view, make_endpoint, make_finding,
    make_remediation, opt_view, remediation_model, AffectedEndpoint, CsvColumnMapping,
    EndpointView, FindingParser, FindingView, ParsedFinding, RemediationItem, RemediationView,
};
use crate::text::{
    strings_view,
    chars_of, concat, decimal, decimal_string, lit, lowercase, push_string, string_of,
    to_lowercase, trim, trim_chars,
};
use vstd::prelude::*;

verus! {

#[verifier::external_type_specification]
#[verifier::external_body]
#[verifier::reject_recursive_types(R)]
pub struct ExCsvReader<R>(csv::Reader<R>);

/// The header row that the `csv` crate's reader (with a header row, flexible
/// or not) reads from `content`, or its error message.
pub uninterp spec fn csv_header(content: Seq<u8>, flexible: bool) -> Result<Seq<Seq<char>>, Seq<char>>;

/// The records (fields, or an error message) that the reader yields after
/// the header row, until it reports the end of the input.
pub uninterp spec fn csv_records(content: Seq<u8>, flexible: bool) -> Seq<Result<Seq<Seq<char>>, Seq<char>>>;

/// The records that a reader has still to yield.
pub uninterp spec fn csv_pending(r: csv::Reader<&[u8]>) -> Seq<Result<Seq<Seq<char>>, Seq<char>>>;

/// Whether an exec row result is the given model row result.
pub open spec fn row_matches(r: Result<Vec<String>, String>, m: Result<Seq<Seq<char>>, Seq<char>>) -> bool {
    match r {
        Ok(v) => m == Ok::<Seq<Seq<char>>, Seq<char>>(strings_view(v@)),
        Err(e) => m == Err::<Seq<Seq<char>>, Seq<char>>(e@),
    }
}

/// Calls `csv::ReaderBuilder` (headers on, `flexible` as given) on the
/// content and reads the header row with `Reader::headers`. Every record
/// the reader yields is read from at least one byte of the input.
#[verifier::external_body]
pub(crate) fn csv_open(content: &[u8], flexible: bool) -> (r: (Result<Vec<String>, String>, csv::Reader<&[u8]>))
    ensures
        row_matches(r.0, csv_header(content@, flexible)),
        csv_pending(r.1) == csv_records(content@, flexible),
        csv_pending(r.1).len() <= content@.len(),
{
    let mut rdr = csv::ReaderBuilder::new().has_headers(true).flexible(flexible).from_reader(content);
    let h = match rdr.headers() {
        Ok(h) => Ok(h.iter().map(String::from).collect()),
        Err(e) => Err(e.to_string()),
    };
    (h, rdr)
}

/// Calls `Reader::read_record` for the next record: the first pending record,
/// or `None` once the input is exhausted.
#[verifier::external_body]
pub(crate) fn csv_next(rdr: &mut csv::Reader<&[u8]>) -> (r: Option<Result<Vec<String>, String>>)
    ensures
        csv_pending(*old(rdr)).len() > 0 ==> r is Some && row_matches(r.unwrap(), csv_pending(*old(rdr))[0])
            && csv_pending(*final(rdr)) == csv_pending(*old(rdr)).drop_first(),
        csv_pending(*old(rdr)).len() == 0 ==> r is None,
{
    let mut rec = csv::StringRecord::new();
    match rdr.read_record(&mut rec) {
        Ok(true) => Some(Ok(rec.iter().map(String::from).collect())),
        Ok(false) => None,
        Err(e) => Some(Err(e.to_string())),
    }
}

/// Parser of CSV exports with a column mapping.
pub struct CsvParser {
    mapping: CsvColumnMapping,
}

/// The field at `i`, if the row has one (`StringRecord::get`).
pub open spec fn field(row: Seq<Seq<char>>, i: usize) -> Option<Seq<char>> {
    if i < row.len() {
        Some(row[i as int])
    } else {
        None
    }
}

/// The trimmed field at an optional index.
pub open spec fn opt_field(row: Seq<Seq<char>>, i: Option<usize>) -> Option<Seq<char>> {
    match i {
        Some(k) => match field(row, k) {
            Some(f) => Some(trim(f)),
            None => None,
        },
        None => None,
    }
}

/// The largest column index that the mapping names.
pub open spec fn mapping_max(m: CsvColumnMapping) -> usize {
    let a = if m.title >= m.severity { m.title } else { m.severity };
    let b = match m.description {
        Some(d) => if d > a { d } else { a },
        None => a,
    };
    let c = match m.remediation {
        Some(d) => if d > b { d } else { b },
        None => b,
    };
    match m.affected_url {
        Some(d) => if d > c { d } else { c },
        None => c,
    }
}

/// The finding of one CSV row; rows with an empty title give none.
pub open spec fn csv_finding(row: Seq<Seq<char>>, m: CsvColumnMapping) -> Option<FindingView> {
    let title = trim(or_default(field(row, m.title), Seq::empty()));
    let severity = trim(or_default(field(row, m.severity), "informational"@));
    let description = opt_field(row, m.description);
    let remediation = opt_field(row, m.remediation);
    let url = opt_field(row, m.affected_url);
    if title.len() == 0 {
        None
    } else {
        Some(
            finding_model(
                title,
                lowercase(severity),
                or_default(description, Seq::empty()),
                or_default(description, Seq::empty()),
                match url {
                    Some(u) => seq![endpoint_model("GET"@, u, "Identified from CSV import"@)],
                    None => Seq::empty(),
                },
                match remediation {
                    Some(f) => seq![remediation_model("Apply fix"@, f)],
                    None => Seq::empty(),
                },
                "CSV"@,
                None,
            ),
        )
    }
}

/// The findings of the records from row number `i + 1` on; a record that
/// cannot be read ends the parse with an error naming its row.
pub open spec fn csv_rows(
    rs: Seq<Result<Seq<Seq<char>>, Seq<char>>>,
    m: CsvColumnMapping,
    i: nat,
) -> Result<Seq<FindingView>, Seq<char>>
    decreases rs.len(),
{
    if rs.len() == 0 {
        Ok(Seq::empty())
    } else {
        match rs[0] {
            Err(e) => Err("CSV row "@ + decimal(i + 1) + " parse error: "@ + e),
            Ok(row) => match csv_rows(rs.drop_first(), m, i + 1) {
                Ok(rest) => match csv_finding(row, m) {
                    Some(f) => Ok(seq![f] + rest),
                    None => Ok(rest),
                },
                Err(e) => Err(e),
            },
        }
    }
}

/// What the CSV parser makes of an export.
pub open spec fn csv_parse_spec(content: Seq<u8>, m: CsvColumnMapping) -> Result<Seq<FindingView>, Seq<char>> {
    match csv_header(content, false) {
        Err(e) => Err("CSV header error: "@ + e),
        Ok(h) => if mapping_max(m) >= h.len() {
            Err(
                "Column index "@ + decimal(mapping_max(m) as nat) + " exceeds header count "@
                    + decimal(h.len()) + "."@,
            )
        } else {
            csv_rows(csv_records(content, false), m, 0)
        },
    }
}

fn max_index(m: &CsvColumnMapping) -> (r: usize)
    ensures
        r == mapping_max(*m),
{
    let a = if m.title >= m.severity { m.title } else { m.severity };
    let b = match m.description {
        Some(d) => if d > a { d } else { a },
        None => a,
    };
    let c = match m.remediation {
        Some(d) => if d > b { d } else { b },
        None => b,
    };
    match m.affected_url {
        Some(d) => if d > c { d } else { c },
        None => c,
    }
}

/// The trimmed field at `i`, or `default` trimmed when the row is shorter.
fn trimmed_field(row: &Vec<String>, i: usize, default: &str) -> (r: String)
    ensures
        r@ == trim(or_default(field(strings_view(row@), i), default@)),
{
    let v = if i < row.len() { chars_of(row[i].as_str()) } else { chars_of(default) };
    let t = trim_chars(&v);
    string_of(&t)
}

fn opt_trimmed_field(row: &Vec<String>, i: Option<usize>) -> (r: Option<String>)
    ensures
        opt_view(r) == opt_field(strings_view(row@), i),
{
    match i {
        Some(k) => if k < row.len() {
            let v = chars_of(row[k].as_str());
            let t = trim_chars(&v);
            Some(string_of(&t))
        } else {
            None
        },
        None => None,
    }
}

fn copy_opt(o: &Option<String>) -> (r: Option<String>)
    ensures
        opt_view(r) == opt_view(*o),
{
    match o {
        Some(s) => Some(s.clone()),
        None => None,
    }
}

fn string_or_empty(o: Option<String>) -> (r: String)
    ensures
        r@ == or_default(opt_view(o), Seq::empty()),
{
    match o {
        Some(s) => s,
        None => String::new(),
    }
}

/// The finding of one record, if its title is not empty.
fn csv_finding_exec(row: &Vec<String>, m: &CsvColumnMapping) -> (r: Option<ParsedFinding>)
    ensures
        match r {
            Some(f) => csv_finding(strings_view(row@), *m) == Some(f@),
            None => csv_finding(strings_view(row@), *m) is None,
        },
{
    proof {
        assert(""@ =~= Seq::<char>::empty()) by {
            reveal_strlit("");
        }
    }
    let title = trimmed_field(row, m.title, "");
    let severity = trimmed_field(row, m.severity, "informational");
    let description = opt_trimmed_field(row, m.description);
    let remediation = opt_trimmed_field(row, m.remediation);
    let url = opt_trimmed_field(row, m.affected_url);
    let tv = chars_of(title.as_str());
    if tv.len() == 0 {
        return None;
    }
    let mut eps: Vec<AffectedEndpoint> = Vec::new();
    match url {
        Some(u) => {
            let e = make_endpoint(lit("GET"), u, lit("Identified from CSV import"));
            eps.push(e);
            assert(crate::parsers::endpoints_view(eps@) =~= seq![e@]);
        },
        None => {
            assert(crate::parsers::endpoints_view(eps@) =~= Seq::<EndpointView>::empty());
        },
    }
    let mut rs: Vec<RemediationItem> = Vec::new();
    match remediation {
        Some(f) => {
            let item = make_remediation(lit("Apply fix"), f);
            rs.push(item);
            assert(crate::parsers::remediations_view(rs@) =~= seq![item@]);
        },
        None => {
            assert(crate::parsers::remediations_view(rs@) =~= Seq::<RemediationView>::empty());
        },
    }
    let overview = string_or_empty(copy_opt(&description));
    let summary = string_or_empty(description);
    let sev = to_lowercase(severity.as_str());
    Some(make_finding(title, sev, overview, summary, eps, rs, lit("CSV"), None))
}

impl CsvParser {
    /// A CSV parser reading the columns that `mapping` names.
    pub fn new(mapping: CsvColumnMapping) -> (p: Self)
        ensures
            p.mapping_spec() == mapping,
    {
        Self { mapping }
    }

    /// The column mapping of this parser.
    pub fn mapping(&self) -> (m: &CsvColumnMapping)
        ensures
            *m == self.mapping_spec(),
    {
        &self.mapping
    }

    pub closed spec fn mapping_spec(&self) -> CsvColumnMapping {
        self.mapping
    }

    /// Reads a CSV export with a header row. Every mapped column must exist
    /// in the header; rows with an empty title are skipped; a row that cannot
    /// be read ends the parse with an error naming the row.
    pub fn parse_export(&self, content: &[u8]) -> (r: Result<Vec<ParsedFinding>, String>)
        ensures
            parse_matches(r, csv_parse_spec(content@, self.mapping_spec())),
    {
        let m = self.mapping;
        let (header, mut rdr) = csv_open(content, false);
        let h = match header {
            Ok(h) => h,
            Err(e) => {
                return Err(concat("CSV header error: ", e.as_str()));
            },
        };
        let idx_max = max_index(&m);
        if idx_max >= h.len() {
            let mut msg = lit("Column index ");
            let a = decimal_string(idx_max as u64);
            push_string(&mut msg, &a);
            msg.append(" exceeds header count ");
            let b = decimal_string(h.len() as u64);
            push_string(&mut msg, &b);
            msg.append(".");
            return Err(msg);
        }
        let ghost all = csv_records(content@, false);
        let clen = content.len();
        let mut findings: Vec<ParsedFinding> = Vec::new();
        let mut i: usize = 0;
        proof {
            assert(all.skip(0) =~= all);
            assert(findings_view(findings@) =~= Seq::<FindingView>::empty());
            assert(findings_view(findings@) + csv_rows(all, m, 0)->Ok_0 =~= csv_rows(all, m, 0)->Ok_0);
        }
        loop
            invariant
                i <= all.len(),
                all.len() <= clen,
                clen == content@.len(),
                csv_pending(rdr) == all.skip(i as int),
                all == csv_records(content@, false),
                m == self.mapping,
                csv_parse_spec(content@, m) == csv_rows(all, m, 0),
                csv_rows(all, m, 0) == (match csv_rows(all.skip(i as int), m, i as nat) {
                    Ok(rest) => Ok::<Seq<FindingView>, Seq<char>>(findings_view(findings@) + rest),
                    Err(e) => Err::<Seq<FindingView>, Seq<char>>(e),
                }),
            decreases all.len() - i,
        {
            let ghost rest = all.skip(i as int);
            match csv_next(&mut rdr) {
                None => {
                    assert(rest.len() == 0);
                    assert(findings_view(findings@) + Seq::<FindingView>::empty() =~= findings_view(findings@));
                    return Ok(findings);
                },
                Some(Err(e)) => {
                    assert(rest.len() > 0);
                    let mut msg = lit("CSV row ");
                    let n = decimal_string(i as u64 + 1);
                    push_string(&mut msg, &n);
                    msg.append(" parse error: ");
                    push_string(&mut msg, &e);
                    return Err(msg);
                },
                Some(Ok(row)) => {
                    assert(rest.len() > 0);
                    assert(rest.drop_first() =~= all.skip(i + 1));
                    match csv_finding_exec(&row, &m) {
                        Some(f) => {
                            let ghost before = findings@;
                            findings.push(f);
                            proof {
                                lemma_push_view(before, f);
                                match csv_rows(all.skip(i + 1), m, (i + 1) as nat) {
                                    Ok(r2) => {
                                        assert(findings_view(before) + (seq![f@] + r2) =~= findings_view(findings@) + r2);
                                    },
                                    Err(_) => {},
                                }
                            }
                        },
                        None => {},
                    }
                    i = i + 1;
                },
            }
        }
    }
}

impl FindingParser for CsvParser {
    fn parse(&self, content: &[u8]) -> (r: Result<Vec<ParsedFinding>, String>)
        ensures
            parse_matches(r, csv_parse_spec(content@, self.mapping_spec())),
    {
        self.parse_export(content)
    }

    fn format_name(&self) -> (r: &'static str)
        ensures
            r@ == "csv"@,
    {
        "csv"
    }
}

} // verus!
