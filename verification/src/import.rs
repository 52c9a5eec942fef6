//! Importing scanner output (Nessus XML, CSV) into workspace findings.

use crate::parsers::csv_import::{csv_next, csv_open, csv_pending, csv_records, csv_header};
use crate::text::strings_view;
use crate::parsers::xml::{name_chars, utf8_or_empty, xml_events, xml_next, xml_pending, xml_reader, AttrModel, EventModel, XmlAttr, XmlEvent};
use crate::text::{chars_of, concat, decimal, decimal_string, eq_lit, lit, lowercase, push_string, split_chars, split_on, starts_with, strip, strip_chars, string_of, to_lowercase, trim, trim_chars, unicode_alphanumeric, char_is_alphanumeric, utf8_lossy, utf8_lossy_decode, text_lines, lines_of};
use vstd::prelude::*;

verus! {

/// A finding read from a scanner export.
pub struct ParsedFinding {
    pub title: String,
    pub severity: String,
    pub description: String,
}

/// What an import did.
pub struct ImportSummary {
    pub parsed: usize,
    pub created: usize,
    pub duplicates: usize,
}

/// A finding as (title, severity, description).
pub type Triple = (Seq<char>, Seq<char>, Seq<char>);

pub open spec fn triple(f: ParsedFinding) -> Triple {
    (f.title@, f.severity@, f.description@)
}

pub open spec fn triples(v: Seq<ParsedFinding>) -> Seq<Triple> {
    v.map_values(|f: ParsedFinding| triple(f))
}

/// Whether an exec parse result is the model one.
pub open spec fn result_matches(r: Result<Vec<ParsedFinding>, String>, m: Result<Seq<Triple>, Seq<char>>) -> bool {
    match r {
        Ok(v) => m == Ok::<Seq<Triple>, Seq<char>>(triples(v@)),
        Err(e) => m == Err::<Seq<Triple>, Seq<char>>(e@),
    }
}

proof fn lemma_push_triple(v: Seq<ParsedFinding>, f: ParsedFinding)
    ensures
        triples(v.push(f)) == triples(v).push(triple(f)),
{
    assert(triples(v.push(f)) =~= triples(v).push(triple(f)));
}

// ───────────────────────── severities ─────────────────────────

/// The level a Nessus severity (0-4) stands for.
pub open spec fn nessus_severity(s: Seq<char>) -> Seq<char> {
    if s == "4"@ {
        "critical"@
    } else if s == "3"@ {
        "high"@
    } else if s == "2"@ {
        "medium"@
    } else if s == "1"@ {
        "low"@
    } else {
        "informational"@
    }
}

/// Nessus's five risk levels keep their order on the five-level scale:
/// 0, 1, 2, 3, 4 become informational, low, medium, high and critical, and
/// no two of them become the same level.
pub proof fn law_nessus_levels_in_order()
    ensures
        nessus_severity(seq!['0']) == "informational"@,
        nessus_severity(seq!['1']) == "low"@,
        nessus_severity(seq!['2']) == "medium"@,
        nessus_severity(seq!['3']) == "high"@,
        nessus_severity(seq!['4']) == "critical"@,
        forall|a: char, b: char|
            '0' <= a <= '4' && '0' <= b <= '4' && a != b ==> #[trigger] nessus_severity(seq![a])
                != #[trigger] nessus_severity(seq![b]),
{
    reveal_strlit("0");
    reveal_strlit("1");
    reveal_strlit("2");
    reveal_strlit("3");
    reveal_strlit("4");
    reveal_strlit("informational");
    reveal_strlit("low");
    reveal_strlit("medium");
    reveal_strlit("high");
    reveal_strlit("critical");
    assert("4"@ =~= seq!['4']);
    assert("3"@ =~= seq!['3']);
    assert("2"@ =~= seq!['2']);
    assert("1"@ =~= seq!['1']);
    assert(seq!['0'] != "4"@ && seq!['0'] != "3"@ && seq!['0'] != "2"@ && seq!['0'] != "1"@) by {
        assert(seq!['0'][0] != "4"@[0]);
        assert(seq!['0'][0] != "3"@[0]);
        assert(seq!['0'][0] != "2"@[0]);
        assert(seq!['0'][0] != "1"@[0]);
    }
    assert forall|a: char, b: char|
        '0' <= a <= '4' && '0' <= b <= '4' && a != b implies #[trigger] nessus_severity(seq![a])
            != #[trigger] nessus_severity(seq![b]) by {
        assert(seq![a] == seq!['4'] <==> a == '4') by {
            if seq![a] == seq!['4'] { assert(seq![a][0] == seq!['4'][0]); }
        }
        assert(seq![a] == seq!['3'] <==> a == '3') by {
            if seq![a] == seq!['3'] { assert(seq![a][0] == seq!['3'][0]); }
        }
        assert(seq![a] == seq!['2'] <==> a == '2') by {
            if seq![a] == seq!['2'] { assert(seq![a][0] == seq!['2'][0]); }
        }
        assert(seq![a] == seq!['1'] <==> a == '1') by {
            if seq![a] == seq!['1'] { assert(seq![a][0] == seq!['1'][0]); }
        }
        assert(seq![b] == seq!['4'] <==> b == '4') by {
            if seq![b] == seq!['4'] { assert(seq![b][0] == seq!['4'][0]); }
        }
        assert(seq![b] == seq!['3'] <==> b == '3') by {
            if seq![b] == seq!['3'] { assert(seq![b][0] == seq!['3'][0]); }
        }
        assert(seq![b] == seq!['2'] <==> b == '2') by {
            if seq![b] == seq!['2'] { assert(seq![b][0] == seq!['2'][0]); }
        }
        assert(seq![b] == seq!['1'] <==> b == '1') by {
            if seq![b] == seq!['1'] { assert(seq![b][0] == seq!['1'][0]); }
        }
        assert("critical"@.len() == 8 && "high"@.len() == 4 && "medium"@.len() == 6 && "low"@.len() == 3
            && "informational"@.len() == 13);
    }
}

/// Maps a Nessus severity (0-4) onto the five-level scale; anything else
/// is informational.
pub fn map_nessus_severity(severity: &str) -> (r: String)
    ensures
        r@ == nessus_severity(severity@),
{
    let v = chars_of(severity);
    if eq_lit(&v, "4") {
        lit("critical")
    } else if eq_lit(&v, "3") {
        lit("high")
    } else if eq_lit(&v, "2") {
        lit("medium")
    } else if eq_lit(&v, "1") {
        lit("low")
    } else {
        lit("informational")
    }
}

/// The level a CSV severity label stands for.
pub open spec fn csv_severity(s: Seq<char>) -> Seq<char> {
    if s == "critical"@ || s == "crit"@ || s == "4"@ {
        "critical"@
    } else if s == "high"@ || s == "3"@ {
        "high"@
    } else if s == "medium"@ || s == "med"@ || s == "moderate"@ || s == "2"@ {
        "medium"@
    } else if s == "low"@ || s == "1"@ {
        "low"@
    } else {
        "informational"@
    }
}

/// Normalizing a severity always lands on one of the five levels, and a
/// level normalizes to itself.
pub proof fn law_normalize_severity_idempotent(s: Seq<char>)
    ensures
        crate::entities::severities().contains(csv_severity(s)),
        csv_severity(csv_severity(s)) == csv_severity(s),
{
    reveal_strlit("critical");
    reveal_strlit("crit");
    reveal_strlit("4");
    reveal_strlit("high");
    reveal_strlit("3");
    reveal_strlit("medium");
    reveal_strlit("med");
    reveal_strlit("moderate");
    reveal_strlit("2");
    reveal_strlit("low");
    reveal_strlit("1");
    reveal_strlit("informational");
    let r = csv_severity(s);
    let l = crate::entities::severities();
    if r == "critical"@ {
        assert(l[0] == r);
    } else if r == "high"@ {
        assert(l[1] == r);
    } else if r == "medium"@ {
        assert(l[2] == r);
    } else if r == "low"@ {
        assert(l[3] == r);
    } else {
        assert(l[4] == r);
    }
    assert("critical"@.len() == 8 && "crit"@.len() == 4 && "4"@.len() == 1 && "high"@.len() == 4);
    assert("3"@.len() == 1 && "medium"@.len() == 6 && "med"@.len() == 3 && "moderate"@.len() == 8);
    assert("2"@.len() == 1 && "low"@.len() == 3 && "1"@.len() == 1 && "informational"@.len() == 13);
    assert("critical"@[0] == 'c' && "crit"@[0] == 'c' && "high"@[0] == 'h' && "moderate"@[0] == 'm');
    assert("med"@[0] == 'm' && "low"@[0] == 'l' && "4"@[0] == '4' && "3"@[0] == '3');
    assert("2"@[0] == '2' && "1"@[0] == '1');
    assert("critical"@ != "crit"@ && "critical"@ != "4"@);
    assert("high"@ != "critical"@ && "high"@ != "crit"@ && "high"@ != "4"@ && "high"@ != "3"@);
    assert("medium"@ != "critical"@ && "medium"@ != "crit"@ && "medium"@ != "4"@ && "medium"@ != "high"@ && "medium"@ != "3"@);
    assert("low"@ != "critical"@ && "low"@ != "crit"@ && "low"@ != "4"@ && "low"@ != "high"@ && "low"@ != "3"@
        && "low"@ != "medium"@ && "low"@ != "med"@ && "low"@ != "moderate"@ && "low"@ != "2"@);
    assert("informational"@ != "critical"@ && "informational"@ != "crit"@ && "informational"@ != "4"@
        && "informational"@ != "high"@ && "informational"@ != "3"@ && "informational"@ != "medium"@
        && "informational"@ != "med"@ && "informational"@ != "moderate"@ && "informational"@ != "2"@
        && "informational"@ != "low"@ && "informational"@ != "1"@);
}

/// Maps a (lower-case) severity label onto the five-level scale; anything
/// unknown is informational.
pub fn normalize_severity(s: &str) -> (r: String)
    ensures
        r@ == csv_severity(s@),
{
    let v = chars_of(s);
    if eq_lit(&v, "critical") || eq_lit(&v, "crit") || eq_lit(&v, "4") {
        lit("critical")
    } else if eq_lit(&v, "high") || eq_lit(&v, "3") {
        lit("high")
    } else if eq_lit(&v, "medium") || eq_lit(&v, "med") || eq_lit(&v, "moderate") || eq_lit(&v, "2") {
        lit("medium")
    } else if eq_lit(&v, "low") || eq_lit(&v, "1") {
        lit("low")
    } else {
        lit("informational")
    }
}

// ───────────────────────── Nessus ─────────────────────────

/// What the Nessus reader remembers between events.
pub struct NessusImport {
    pub findings: Seq<Triple>,
    pub in_item: bool,
    pub in_description: bool,
    pub title: Seq<char>,
    pub severity: Seq<char>,
    pub description: Seq<char>,
    pub text: Seq<char>,
}

pub open spec fn nessus_import_init() -> NessusImport {
    NessusImport {
        findings: Seq::empty(),
        in_item: false,
        in_description: false,
        title: Seq::empty(),
        severity: Seq::empty(),
        description: Seq::empty(),
        text: Seq::empty(),
    }
}

/// The title and severity that the well-formed attributes of a
/// `<ReportItem>` set (malformed ones are skipped; the last one wins).
pub open spec fn item_attrs(attrs: Seq<AttrModel>, title: Seq<char>, sev: Seq<char>) -> (Seq<char>, Seq<char>)
    decreases attrs.len(),
{
    if attrs.len() == 0 {
        (title, sev)
    } else {
        match attrs[0] {
            AttrModel::Valid { key, raw_value, .. } => {
                let v = utf8_lossy(raw_value);
                let k = utf8_or_empty(key);
                let s2 = if k == "severity"@ { v } else { sev };
                let t2 = if k == "pluginName"@ { v } else { title };
                item_attrs(attrs.drop_first(), t2, s2)
            },
            AttrModel::Invalid { .. } => item_attrs(attrs.drop_first(), title, sev),
        }
    }
}

/// One step of the Nessus import reader.
pub open spec fn nessus_import_step(st: NessusImport, ev: EventModel) -> NessusImport {
    match ev {
        EventModel::Start { name, attrs } => {
            let n = utf8_or_empty(name);
            if n == "ReportItem"@ {
                let (t, s) = item_attrs(attrs, Seq::empty(), Seq::empty());
                NessusImport { in_item: true, title: t, severity: s, description: Seq::empty(), ..st }
            } else if n == "description"@ && st.in_item {
                NessusImport { in_description: true, text: Seq::empty(), ..st }
            } else {
                st
            }
        },
        EventModel::End { name } => {
            let n = utf8_or_empty(name);
            if n == "ReportItem"@ && st.in_item {
                NessusImport {
                    in_item: false,
                    findings: if st.title.len() != 0 {
                        st.findings.push((st.title, nessus_severity(st.severity), st.description))
                    } else {
                        st.findings
                    },
                    ..st
                }
            } else if n == "description"@ && st.in_description {
                NessusImport { in_description: false, description: trim(st.text), ..st }
            } else {
                st
            }
        },
        EventModel::Text { raw, .. } => {
            if st.in_description {
                NessusImport { text: st.text + utf8_lossy(raw), ..st }
            } else {
                st
            }
        },
        EventModel::CData { raw } => {
            if st.in_description {
                NessusImport { text: st.text + utf8_lossy(raw), ..st }
            } else {
                st
            }
        },
        _ => st,
    }
}

/// Runs the Nessus import reader over an event stream.
pub open spec fn nessus_import_run(evs: Seq<EventModel>, st: NessusImport) -> Result<Seq<Triple>, Seq<char>>
    decreases evs.len(),
{
    if evs.len() == 0 {
        Ok(st.findings)
    } else {
        match evs[0] {
            EventModel::Eof => Ok(st.findings),
            EventModel::Error { message, position } => Err(
                "XML parse error at position "@ + decimal(position as nat) + ": "@ + message,
            ),
            _ => nessus_import_run(evs.drop_first(), nessus_import_step(st, evs[0])),
        }
    }
}

/// What `parse_nessus` makes of a `.nessus` file.
pub open spec fn parse_nessus_spec(content: Seq<char>) -> Result<Seq<Triple>, Seq<char>> {
    nessus_import_run(xml_events(vstd::utf8::encode_utf8(content)), nessus_import_init())
}

struct NessusReader {
    findings: Vec<ParsedFinding>,
    in_item: bool,
    in_description: bool,
    title: String,
    severity: String,
    description: String,
    text: String,
}

impl View for NessusReader {
    type V = NessusImport;

    closed spec fn view(&self) -> NessusImport {
        NessusImport {
            findings: triples(self.findings@),
            in_item: self.in_item,
            in_description: self.in_description,
            title: self.title@,
            severity: self.severity@,
            description: self.description@,
            text: self.text@,
        }
    }
}

fn item_attrs_exec(attrs: &Vec<XmlAttr>) -> (r: (String, String))
    ensures
        (r.0@, r.1@) == item_attrs(attrs@.map_values(|a: XmlAttr| a@), Seq::empty(), Seq::empty()),
{
    let ghost all = attrs@.map_values(|a: XmlAttr| a@);
    let mut title = String::new();
    let mut sev = String::new();
    let mut i: usize = 0;
    assert(all.skip(0) =~= all);
    while i < attrs.len()
        invariant
            i <= attrs@.len(),
            all == attrs@.map_values(|a: XmlAttr| a@),
            item_attrs(all, Seq::empty(), Seq::empty()) == item_attrs(all.skip(i as int), title@, sev@),
        decreases attrs.len() - i,
    {
        assert(all.skip(i as int)[0] == attrs@[i as int]@);
        assert(all.skip(i as int).drop_first() =~= all.skip(i + 1));
        match &attrs[i] {
            XmlAttr::Valid { key, raw_value, value: _ } => {
                let v = utf8_lossy_decode(raw_value.as_slice());
                let k = name_chars(key);
                let is_sev = eq_lit(&k, "severity");
                let is_title = eq_lit(&k, "pluginName");
                if is_sev {
                    sev = crate::text::copy_string(&v);
                }
                if is_title {
                    title = v;
                }
            },
            XmlAttr::Invalid { .. } => {},
        }
        i = i + 1;
    }
    assert(all.skip(i as int) =~= Seq::<AttrModel>::empty());
    (title, sev)
}

fn nessus_import_apply(st: &mut NessusReader, ev: XmlEvent)
    ensures
        final(st)@ == nessus_import_step(old(st)@, ev@),
{
    match ev {
        XmlEvent::Start(s) => {
            let name = name_chars(&s.name);
            if eq_lit(&name, "ReportItem") {
                proof {
                    assert(s.attrs@.map_values(|a: XmlAttr| a@) =~= crate::parsers::xml::attrs_view(s.attrs@));
                }
                let (t, sv) = item_attrs_exec(&s.attrs);
                st.in_item = true;
                st.title = t;
                st.severity = sv;
                st.description = String::new();
            } else if eq_lit(&name, "description") && st.in_item {
                st.in_description = true;
                st.text = String::new();
            }
        },
        XmlEvent::End(n) => {
            let name = name_chars(&n);
            if eq_lit(&name, "ReportItem") && st.in_item {
                st.in_item = false;
                let tv = chars_of(st.title.as_str());
                if tv.len() != 0 {
                    let f = ParsedFinding {
                        title: crate::text::copy_string(&st.title),
                        severity: map_nessus_severity(st.severity.as_str()),
                        description: crate::text::copy_string(&st.description),
                    };
                    let ghost before = st.findings@;
                    st.findings.push(f);
                    proof {
                        lemma_push_triple(before, f);
                    }
                }
            } else if eq_lit(&name, "description") && st.in_description {
                st.in_description = false;
                let tv = chars_of(st.text.as_str());
                let t = trim_chars(&tv);
                st.description = string_of(&t);
            }
        },
        XmlEvent::Text { raw, unescaped: _ } => {
            if st.in_description {
                let u = utf8_lossy_decode(raw.as_slice());
                push_string(&mut st.text, &u);
            }
        },
        XmlEvent::CData(raw) => {
            if st.in_description {
                let u = utf8_lossy_decode(raw.as_slice());
                push_string(&mut st.text, &u);
            }
        },
        _ => {},
    }
}

/// Parses the content of a `.nessus` file: every `<ReportItem>` with a
/// plugin name becomes a finding with its mapped severity and the trimmed
/// text of its `<description>`. An XML error names its position.
pub fn parse_nessus(content: &str) -> (r: Result<Vec<ParsedFinding>, String>)
    ensures
        result_matches(r, parse_nessus_spec(content@)),
{
    let bytes = content.as_bytes();
    let mut reader = xml_reader(bytes);
    let mut st = NessusReader {
        findings: Vec::new(),
        in_item: false,
        in_description: false,
        title: String::new(),
        severity: String::new(),
        description: String::new(),
        text: String::new(),
    };
    proof {
        assert(triples(Seq::<ParsedFinding>::empty()) =~= Seq::<Triple>::empty());
        assert(st@ == nessus_import_init());
    }
    loop
        invariant
            nessus_import_run(xml_pending(reader), st@) == parse_nessus_spec(content@),
        decreases xml_pending(reader).len(),
    {
        let ghost pending = xml_pending(reader);
        let ev = xml_next(&mut reader);
        match ev {
            XmlEvent::Eof => {
                return Ok(st.findings);
            },
            XmlEvent::Error { message, position } => {
                let mut m = lit("XML parse error at position ");
                let p = decimal_string(position);
                push_string(&mut m, &p);
                m.append(": ");
                push_string(&mut m, &message);
                return Err(m);
            },
            _ => {
                assert(pending.len() > 0);
                nessus_import_apply(&mut st, ev);
            },
        }
    }
}

// ───────────────────────── CSV ─────────────────────────

/// The description of a CSV row: each field as `**<header>**: <value>`
/// (just the value past the last header), one per line.
pub open spec fn row_description(row: Seq<Seq<char>>, headers: Seq<Seq<char>>) -> Seq<char>
    decreases row.len(),
{
    if row.len() == 0 {
        Seq::empty()
    } else {
        let j = row.len() - 1;
        let line = if j < headers.len() {
            "**"@ + headers[j] + "**: "@ + row[j]
        } else {
            row[j]
        };
        let before = row_description(row.drop_last(), headers);
        if j == 0 {
            line
        } else {
            before + "\n"@ + line
        }
    }
}

/// The finding of one CSV row, if it is long enough and its title is not
/// empty.
pub open spec fn csv_row_finding(row: Seq<Seq<char>>, headers: Seq<Seq<char>>, title_col: usize, severity_col: usize) -> Option<Triple> {
    let max_col = if title_col >= severity_col { title_col } else { severity_col };
    if row.len() <= max_col {
        None
    } else {
        let title = trim(row[title_col as int]);
        if title.len() == 0 {
            None
        } else {
            Some((title, csv_severity(lowercase(trim(row[severity_col as int]))), row_description(row, headers)))
        }
    }
}

/// The findings of the records from record index `i` on.
pub open spec fn csv_import_rows(
    rs: Seq<Result<Seq<Seq<char>>, Seq<char>>>,
    headers: Seq<Seq<char>>,
    title_col: usize,
    severity_col: usize,
    i: nat,
) -> Result<Seq<Triple>, Seq<char>>
    decreases rs.len(),
{
    if rs.len() == 0 {
        Ok(Seq::empty())
    } else {
        match rs[0] {
            Err(e) => Err("CSV parse error at row "@ + decimal(i + 2) + ": "@ + e),
            Ok(row) => match csv_import_rows(rs.drop_first(), headers, title_col, severity_col, i + 1) {
                Ok(rest) => match csv_row_finding(row, headers, title_col, severity_col) {
                    Some(f) => Ok(seq![f] + rest),
                    None => Ok(rest),
                },
                Err(e) => Err(e),
            },
        }
    }
}

/// What `parse_csv` makes of a CSV file (header row, flexible records).
pub open spec fn parse_csv_spec(content: Seq<char>, title_col: usize, severity_col: usize) -> Result<Seq<Triple>, Seq<char>> {
    let bytes = vstd::utf8::encode_utf8(content);
    match csv_header(bytes, true) {
        Err(e) => Err("CSV header error: "@ + e),
        Ok(h) => csv_import_rows(csv_records(bytes, true), h, title_col, severity_col, 0),
    }
}

fn row_description_exec(row: &Vec<String>, headers: &Vec<String>) -> (r: String)
    ensures
        r@ == row_description(strings_view(row@), strings_view(headers@)),
{
    let ghost rv = strings_view(row@);
    let ghost hv = strings_view(headers@);
    let mut s = String::new();
    let mut j: usize = 0;
    while j < row.len()
        invariant
            j <= row@.len(),
            rv == strings_view(row@),
            hv == strings_view(headers@),
            s@ == row_description(rv.take(j as int), hv),
        decreases row.len() - j,
    {
        let ghost before = s@;
        if j > 0 {
            s.append("\n");
        }
        if j < headers.len() {
            s.append("**");
            push_string(&mut s, &headers[j]);
            s.append("**: ");
        }
        push_string(&mut s, &row[j]);
        proof {
            let t = rv.take(j + 1);
            assert(t.drop_last() =~= rv.take(j as int));
            assert(t[j as int] == row@[j as int]@);
            if j < headers@.len() {
                assert(hv[j as int] == headers@[j as int]@);
            }
            assert(s@ =~= row_description(t, hv));
        }
        j = j + 1;
    }
    assert(rv.take(j as int) =~= rv);
    s
}

fn csv_row_finding_exec(row: &Vec<String>, headers: &Vec<String>, title_col: usize, severity_col: usize) -> (r: Option<ParsedFinding>)
    ensures
        match r {
            Some(f) => csv_row_finding(strings_view(row@), strings_view(headers@), title_col, severity_col) == Some(triple(f)),
            None => csv_row_finding(strings_view(row@), strings_view(headers@), title_col, severity_col) is None,
        },
{
    let max_col = if title_col >= severity_col { title_col } else { severity_col };
    if row.len() <= max_col {
        return None;
    }
    let tv = chars_of(row[title_col].as_str());
    let t = trim_chars(&tv);
    if t.len() == 0 {
        return None;
    }
    let sv = chars_of(row[severity_col].as_str());
    let st = trim_chars(&sv);
    let st_s = string_of(&st);
    let lower = to_lowercase(st_s.as_str());
    let severity = normalize_severity(lower.as_str());
    let description = row_description_exec(row, headers);
    Some(ParsedFinding { title: string_of(&t), severity, description })
}

/// Parses CSV content with a header row; `title_col` and `severity_col`
/// name the columns. Rows too short for both columns, or with an empty
/// title, are skipped; the description lists every field under its header.
/// A record that cannot be read ends the parse with an error naming its row.
pub fn parse_csv(content: &str, title_col: usize, severity_col: usize) -> (r: Result<Vec<ParsedFinding>, String>)
    ensures
        result_matches(r, parse_csv_spec(content@, title_col, severity_col)),
{
    let bytes = content.as_bytes();
    let (header, mut rdr) = csv_open(bytes, true);
    let h = match header {
        Ok(h) => h,
        Err(e) => {
            return Err(concat("CSV header error: ", e.as_str()));
        },
    };
    let ghost hv = strings_view(h@);
    let ghost all = csv_records(bytes@, true);
    let clen = bytes.len();
    let mut findings: Vec<ParsedFinding> = Vec::new();
    let mut i: usize = 0;
    proof {
        assert(all.skip(0) =~= all);
        assert(triples(findings@) =~= Seq::<Triple>::empty());
        match csv_import_rows(all, hv, title_col, severity_col, 0) {
            Ok(r0) => {
                assert(triples(findings@) + r0 =~= r0);
            },
            Err(_) => {},
        }
    }
    loop
        invariant
            i <= all.len(),
            all.len() <= clen,
            clen == bytes@.len(),
            bytes@ == vstd::utf8::encode_utf8(content@),
            csv_pending(rdr) == all.skip(i as int),
            all == csv_records(bytes@, true),
            hv == strings_view(h@),
            csv_header(bytes@, true) == Ok::<Seq<Seq<char>>, Seq<char>>(hv),
            csv_import_rows(all, hv, title_col, severity_col, 0) == (match csv_import_rows(
                all.skip(i as int),
                hv,
                title_col,
                severity_col,
                i as nat,
            ) {
                Ok(rest) => Ok::<Seq<Triple>, Seq<char>>(triples(findings@) + rest),
                Err(e) => Err::<Seq<Triple>, Seq<char>>(e),
            }),
        decreases all.len() - i,
    {
        let ghost rest = all.skip(i as int);
        match csv_next(&mut rdr) {
            None => {
                assert(rest.len() == 0);
                assert(triples(findings@) + Seq::<Triple>::empty() =~= triples(findings@));
                return Ok(findings);
            },
            Some(Err(e)) => {
                assert(rest.len() > 0);
                let mut msg = lit("CSV parse error at row ");
                let n = crate::text::decimal_string_wide(i as u128 + 2);
                push_string(&mut msg, &n);
                msg.append(": ");
                push_string(&mut msg, &e);
                return Err(msg);
            },
            Some(Ok(row)) => {
                assert(rest.len() > 0);
                assert(rest.drop_first() =~= all.skip(i + 1));
                match csv_row_finding_exec(&row, &h, title_col, severity_col) {
                    Some(f) => {
                        let ghost before = findings@;
                        findings.push(f);
                        proof {
                            lemma_push_triple(before, f);
                            match csv_import_rows(all.skip(i + 1), hv, title_col, severity_col, (i + 1) as nat) {
                                Ok(r2) => {
                                    assert(triples(before) + (seq![triple(f)] + r2) =~= triples(findings@) + r2);
                                },
                                Err(_) => {},
                            }
                        }
                    },
                    None => {},
                }
                i = i + 1;
            },
        }
    }
}

// ───────────────────────── writing findings ─────────────────────────

/// A character of an imported finding's slug.
pub open spec fn import_slug_char(c: char) -> char {
    if unicode_alphanumeric(c) {
        if 'A' <= c && c <= 'Z' {
            ((c as u32) + 32) as char
        } else {
            c
        }
    } else {
        '_'
    }
}

/// The slug of an imported finding: alphanumerics kept (ASCII ones
/// lower-cased), the rest `_`, and `_` trimmed from both ends.
pub open spec fn import_slug_spec(title: Seq<char>) -> Seq<char> {
    strip(title.map_values(|c: char| import_slug_char(c)), '_')
}

/// Builds the file-name slug of an imported finding.
pub fn import_slug(title: &str) -> (r: String)
    ensures
        r@ == import_slug_spec(title@),
{
    let v = chars_of(title);
    let mut out: Vec<char> = Vec::new();
    let mut i: usize = 0;
    while i < v.len()
        invariant
            i <= v@.len(),
            out@ == v@.take(i as int).map_values(|c: char| import_slug_char(c)),
        decreases v.len() - i,
    {
        let c = v[i];
        let m = if char_is_alphanumeric(c) {
            crate::text::fold_exec(c)
        } else {
            '_'
        };
        out.push(m);
        assert(v@.take(i + 1).map_values(|c: char| import_slug_char(c)) =~= v@.take(i as int).map_values(
            |c: char| import_slug_char(c),
        ).push(import_slug_char(c)));
        i = i + 1;
    }
    assert(v@.take(i as int) =~= v@);
    let t = strip_chars(&out, '_');
    string_of(&t)
}

/// The file content of an imported finding: frontmatter (open, with its
/// ID, severity and dates), the title as heading and the description.
pub open spec fn finding_file_spec(id: Seq<char>, severity: Seq<char>, today: Seq<char>, title: Seq<char>, description: Seq<char>) -> Seq<char> {
    "---\nid: \""@ + id + "\"\nstatus: \"open\"\nseverity: \""@ + severity + "\"\ncreated: \""@ + today
        + "\"\nupdated: \""@ + today + "\"\n---\n\n# "@ + title + "\n\n"@ + description + "\n"@
}

/// Writes the file content of an imported finding.
pub fn finding_file_content(id: &str, severity: &str, today: &str, title: &str, description: &str) -> (r: String)
    ensures
        r@ == finding_file_spec(id@, severity@, today@, title@, description@),
{
    let mut s = lit("---\nid: \"");
    s.append(id);
    s.append("\"\nstatus: \"open\"\nseverity: \"");
    s.append(severity);
    s.append("\"\ncreated: \"");
    s.append(today);
    s.append("\"\nupdated: \"");
    s.append(today);
    s.append("\"\n---\n\n# ");
    s.append(title);
    s.append("\n\n");
    s.append(description);
    s.append("\n");
    s
}

/// The file name of an imported finding: the lower-cased ID, `_`, the slug
/// and `.md`.
pub fn finding_filename(id: &str, slug: &str) -> (r: String)
    ensures
        r@ == lowercase(id@) + "_"@ + slug@ + ".md"@,
{
    let mut s = to_lowercase(id);
    s.append("_");
    s.append(slug);
    s.append(".md");
    s
}

/// `str::trim_start_matches("# ")`: drops every leading `# `.
pub open spec fn strip_hash_prefix(s: Seq<char>) -> Seq<char>
    decreases s.len(),
{
    if s.len() >= 2 && s[0] == '#' && s[1] == ' ' {
        strip_hash_prefix(s.skip(2))
    } else {
        s
    }
}

/// The title of an existing finding file: its first line starting with
/// `# `, without the leading `# `s; empty when there is none.
pub open spec fn heading_title_spec(content: Seq<char>) -> Seq<char> {
    let ls = text_lines(content);
    if exists|i: int| 0 <= i < ls.len() && starts_with(#[trigger] ls[i], "# "@) {
        let i = choose|i: int|
            0 <= i < ls.len() && starts_with(#[trigger] ls[i], "# "@) && forall|j: int|
                0 <= j < i ==> !starts_with(#[trigger] ls[j], "# "@);
        strip_hash_prefix(ls[i])
    } else {
        Seq::empty()
    }
}

fn strip_hash_prefix_exec(v: &Vec<char>) -> (r: Vec<char>)
    ensures
        r@ == strip_hash_prefix(v@),
{
    let mut k: usize = 0;
    assert(v@.skip(0) =~= v@);
    while v.len() - k >= 2 && v[k] == '#' && v[k + 1] == ' '
        invariant
            k <= v@.len(),
            strip_hash_prefix(v@) == strip_hash_prefix(v@.skip(k as int)),
        decreases v.len() - k,
    {
        assert(v@.skip(k as int).skip(2) =~= v@.skip(k + 2));
        k = k + 2;
    }
    let mut r: Vec<char> = Vec::new();
    let mut p: usize = k;
    while p < v.len()
        invariant
            k <= p <= v@.len(),
            r@ == v@.subrange(k as int, p as int),
        decreases v.len() - p,
    {
        r.push(v[p]);
        p = p + 1;
        assert(r@ =~= v@.subrange(k as int, p as int));
    }
    assert(r@ =~= v@.skip(k as int));
    r
}

/// Reads the title of an existing finding file from its first `# ` line.
pub fn heading_title(content: &str) -> (r: String)
    ensures
        r@ == heading_title_spec(content@),
{
    let v = chars_of(content);
    let ls = lines_of(&v);
    let hp = chars_of("# ");
    let mut i: usize = 0;
    while i < ls.len()
        invariant
            i <= ls@.len(),
            ls@.len() == text_lines(content@).len(),
            v@ == content@,
            hp@ == "# "@,
            forall|k: int| 0 <= k < ls@.len() ==> (#[trigger] ls@[k])@ == text_lines(content@)[k],
            forall|j: int| 0 <= j < i ==> !starts_with(#[trigger] text_lines(content@)[j], "# "@),
        decreases ls.len() - i,
    {
        if crate::text::has_prefix(&ls[i], &hp) {
            let r = strip_hash_prefix_exec(&ls[i]);
            proof {
                let tl = text_lines(content@);
                let c = choose|c: int|
                    0 <= c < tl.len() && starts_with(#[trigger] tl[c], "# "@) && forall|j: int|
                        0 <= j < c ==> !starts_with(#[trigger] tl[j], "# "@);
                assert(starts_with(tl[i as int], "# "@));
                assert(c == i) by {
                    if c < i {
                    } else if c > i {
                    }
                }
            }
            return string_of(&r);
        }
        i = i + 1;
    }
    String::new()
}

/// Whether a parsed finding duplicates an existing one: its title is among
/// the existing titles.
pub fn is_duplicate_title(title: &str, existing: &Vec<String>) -> (r: bool)
    ensures
        r == strings_view(existing@).contains(title@),
{
    let want = chars_of(title);
    let mut i: usize = 0;
    while i < existing.len()
        invariant
            i <= existing@.len(),
            want@ == title@,
            forall|j: int| 0 <= j < i ==> existing@[j]@ != title@,
        decreases existing.len() - i,
    {
        let v = chars_of(existing[i].as_str());
        if crate::text::chars_eq(&v, &want) {
            assert(strings_view(existing@)[i as int] == title@);
            return true;
        }
        i = i + 1;
    }
    assert forall|j: int| 0 <= j < strings_view(existing@).len() implies strings_view(existing@)[j] != title@ by {
        assert(strings_view(existing@)[j] == existing@[j]@);
    }
    false
}

/// The project of an engagement path: its first two segments, or the
/// whole path when it has fewer.
pub open spec fn project_path_spec(engagement_path: Seq<char>) -> Seq<char> {
    let segs = split_on(engagement_path, '/');
    if segs.len() >= 2 {
        segs[0] + "/"@ + segs[1]
    } else {
        engagement_path
    }
}

/// Derives the project path that numbers an engagement's findings.
pub fn project_path_of(engagement_path: &str) -> (r: String)
    ensures
        r@ == project_path_spec(engagement_path@),
{
    let v = chars_of(engagement_path);
    let segs = split_chars(&v, '/');
    if segs.len() >= 2 {
        let mut s = string_of(&segs[0]);
        s.append("/");
        let b = string_of(&segs[1]);
        push_string(&mut s, &b);
        s
    } else {
        lit(engagement_path)
    }
}


// ───────────────────────── planning an import ─────────────────────────

/// A finding file that an import writes into the engagement's `findings/`.
pub struct ImportFile {
    pub filename: String,
    pub content: String,
}

/// What an import writes, and its summary.
pub struct ImportPlan {
    pub files: Vec<ImportFile>,
    pub summary: ImportSummary,
}

/// The parsed findings that an import creates: those whose title is not
/// the title of an existing finding, in order.
pub open spec fn new_findings(existing: Seq<Seq<char>>, parsed: Seq<Triple>) -> Seq<Triple>
    decreases parsed.len(),
{
    if parsed.len() == 0 {
        Seq::empty()
    } else {
        let before = new_findings(existing, parsed.drop_last());
        if existing.contains(parsed.last().0) {
            before
        } else {
            before.push(parsed.last())
        }
    }
}

/// Whether `file` is the file written for finding `f` with the finding
/// number `n` of a project padded to `padding` digits, on `today`.
pub open spec fn import_file_of(file: ImportFile, f: Triple, n: nat, padding: nat, today: Seq<char>) -> bool {
    let id = crate::text::zero_padded(n, padding);
    &&& file.filename@ == lowercase(id) + "_"@ + import_slug_spec(f.0) + ".md"@
    &&& file.content@ == finding_file_spec(id, f.1, today, f.0, f.2)
}

/// Plans an import into an engagement: each parsed finding whose title is
/// not among the existing titles gets the project's next finding number and
/// a file; the others count as duplicates.
pub fn plan_import(
    existing_titles: &Vec<String>,
    parsed: &Vec<ParsedFinding>,
    ids: &mut crate::entities::ProjectIdSection,
    today: &str,
) -> (r: ImportPlan)
    requires
        old(ids).sequence + parsed@.len() < u32::MAX,
    ensures
        ({
            let k = new_findings(strings_view(existing_titles@), triples(parsed@));
            &&& r.summary.parsed == parsed@.len()
            &&& r.summary.created == k.len()
            &&& r.summary.duplicates == parsed@.len() - k.len()
            &&& r.files@.len() == k.len()
            &&& forall|i: int| 0 <= i < k.len() ==> import_file_of(
                #[trigger] r.files@[i],
                k[i],
                (old(ids).sequence + i) as nat,
                old(ids).padding as nat,
                today@,
            )
            &&& final(ids).sequence == old(ids).sequence + k.len()
        }),
        final(ids).padding == old(ids).padding,
        final(ids).requirement_sequence == old(ids).requirement_sequence,
{
    let ghost ev = strings_view(existing_titles@);
    let ghost pv = triples(parsed@);
    let ghost seq0 = ids.sequence;
    let mut files: Vec<ImportFile> = Vec::new();
    let mut created: usize = 0;
    let mut i: usize = 0;
    proof {
        assert(pv.take(0) =~= Seq::<Triple>::empty());
    }
    while i < parsed.len()
        invariant
            i <= parsed@.len(),
            ev == strings_view(existing_titles@),
            pv == triples(parsed@),
            pv.len() == parsed@.len(),
            seq0 + parsed@.len() < u32::MAX,
            created == files@.len(),
            files@.len() == new_findings(ev, pv.take(i as int)).len(),
            files@.len() <= i,
            ids.sequence == seq0 + files@.len(),
            ids.padding == old(ids).padding,
            ids.requirement_sequence == old(ids).requirement_sequence,
            seq0 == old(ids).sequence,
            forall|j: int| 0 <= j < files@.len() ==> import_file_of(
                #[trigger] files@[j],
                new_findings(ev, pv.take(i as int))[j],
                (seq0 + j) as nat,
                old(ids).padding as nat,
                today@,
            ),
        decreases parsed.len() - i,
    {
        let ghost before = new_findings(ev, pv.take(i as int));
        proof {
            assert(pv.take(i + 1).drop_last() =~= pv.take(i as int));
            assert(pv.take(i + 1).last() == triple(parsed@[i as int]));
        }
        let f = &parsed[i];
        if !is_duplicate_title(f.title.as_str(), existing_titles) {
            let ghost n = ids.sequence;
            let id = crate::entities::next_sequence_id(ids);
            let slug = import_slug(f.title.as_str());
            let filename = finding_filename(id.as_str(), slug.as_str());
            let content = finding_file_content(
                id.as_str(),
                f.severity.as_str(),
                today,
                f.title.as_str(),
                f.description.as_str(),
            );
            let ghost old_files = files@;
            files.push(ImportFile { filename, content });
            created = created + 1;
            proof {
                let now = new_findings(ev, pv.take(i + 1));
                assert(now == before.push(triple(parsed@[i as int])));
                assert forall|j: int| 0 <= j < files@.len() implies import_file_of(
                    #[trigger] files@[j],
                    now[j],
                    (seq0 + j) as nat,
                    old(ids).padding as nat,
                    today@,
                ) by {
                    if j < old_files.len() {
                        assert(files@[j] == old_files[j]);
                        assert(now[j] == before[j]);
                    }
                }
            }
        } else {
            proof {
                assert(new_findings(ev, pv.take(i + 1)) == before);
            }
        }
        i = i + 1;
    }
    proof {
        assert(pv.take(parsed@.len() as int) =~= pv);
    }
    ImportPlan { files, summary: ImportSummary { parsed: parsed.len(), created, duplicates: parsed.len() - created } }
}

} // verus!
