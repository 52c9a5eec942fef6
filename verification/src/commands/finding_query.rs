//! The SQL that lists a page of findings: the filters a caller gave, in a
//! fixed order, each bound to its own parameter, and the page size.

use crate::text::{lit, trim, trim_str};
use vstd::prelude::*;

verus! {

/// A value bound to a `?` of an SQL statement.
#[derive(Debug, PartialEq)]
pub enum SqlValue {
    Int(i64),
    Text(String),
}

/// What a bound value stands for.
pub enum SqlValueModel {
    Int(int),
    Text(Seq<char>),
}

pub open spec fn value_model(v: SqlValue) -> SqlValueModel {
    match v {
        SqlValue::Int(i) => SqlValueModel::Int(i as int),
        SqlValue::Text(s) => SqlValueModel::Text(s@),
    }
}

pub open spec fn values_model(vs: Seq<SqlValue>) -> Seq<SqlValueModel> {
    vs.map_values(|v: SqlValue| value_model(v))
}

/// The filters of a finding listing.
pub struct FindingFilters {
    pub engagement_id: Option<u32>,
    pub client_id: Option<u32>,
    pub search: Option<String>,
    pub severity: Option<String>,
    pub status: Option<String>,
    pub owasp_category: Option<String>,
}

/// The statements of a listing: the count, the page (which takes the
/// filter parameters, then the page size and the offset), the filter
/// parameters and the page size.
pub struct FindingQuery {
    pub count_sql: String,
    pub items_sql: String,
    pub filter_params: Vec<SqlValue>,
    pub limit: u32,
}

pub open spec fn count_base() -> Seq<char> {
    "SELECT COUNT(*) FROM findings f JOIN engagements e ON e.id = f.engagement_id JOIN clients c ON c.id = e.client_id WHERE f.is_active = 1"@
}

pub open spec fn items_base() -> Seq<char> {
    "SELECT f.id, f.engagement_id, e.name as engagement_name, c.name as client_name, f.title, f.severity, f.cvss_score, f.owasp_category, f.cwe_id, f.overview, f.summary, f.affected_endpoints, f.evidence, f.impact_items, f.remediation_items, f.steps_to_reproduce, f.references_json, f.status, f.tags, f.notes, f.is_active, f.created_at, f.updated_at FROM findings f JOIN engagements e ON e.id = f.engagement_id JOIN clients c ON c.id = e.client_id WHERE f.is_active = 1"@
}

pub open spec fn page_tail() -> Seq<char> {
    " ORDER BY f.created_at DESC LIMIT ? OFFSET ?"@
}

pub open spec fn search_clause() -> Seq<char> {
    " AND (f.title LIKE ? OR f.owasp_category LIKE ? OR f.tags LIKE ? OR c.name LIKE ? OR e.name LIKE ?)"@
}

pub open spec fn when(b: bool, s: Seq<char>) -> Seq<char> {
    if b { s } else { Seq::empty() }
}

/// The conditions that the filters add, in their fixed order.
pub open spec fn filter_sql(f: FindingFilters) -> Seq<char> {
    when(f.engagement_id is Some, " AND f.engagement_id = ?"@)
        + when(f.client_id is Some, " AND e.client_id = ?"@)
        + when(f.severity is Some, " AND f.severity = ?"@)
        + when(f.status is Some, " AND f.status = ?"@)
        + when(f.owasp_category is Some, " AND f.owasp_category = ?"@)
        + when(f.search is Some, search_clause())
}

pub open spec fn int_param(o: Option<u32>) -> Seq<SqlValueModel> {
    match o {
        Some(v) => seq![SqlValueModel::Int(v as int)],
        None => Seq::empty(),
    }
}

pub open spec fn text_param(o: Option<String>) -> Seq<SqlValueModel> {
    match o {
        Some(s) => seq![SqlValueModel::Text(s@)],
        None => Seq::empty(),
    }
}

/// The pattern a search term is matched with: the term, trimmed, anywhere.
pub open spec fn search_term(s: Seq<char>) -> Seq<char> {
    "%"@ + trim(s) + "%"@
}

pub open spec fn search_params(o: Option<String>) -> Seq<SqlValueModel> {
    match o {
        Some(s) => Seq::new(5, |i: int| SqlValueModel::Text(search_term(s@))),
        None => Seq::empty(),
    }
}

/// The filter parameters, in the order of the conditions.
pub open spec fn filter_params(f: FindingFilters) -> Seq<SqlValueModel> {
    int_param(f.engagement_id) + int_param(f.client_id) + text_param(f.severity) + text_param(f.status)
        + text_param(f.owasp_category) + search_params(f.search)
}

/// The page size: the requested one, at least 1 and at most 500.
pub open spec fn page_limit(limit: u32) -> u32 {
    if limit < 1 { 1 } else if limit > 500 { 500 } else { limit }
}

fn push_int(sql: &mut String, params: &mut Vec<SqlValue>, clause: &str, v: Option<u32>)
    ensures
        final(sql)@ == old(sql)@ + when(v is Some, clause@),
        values_model(final(params)@) == values_model(old(params)@) + int_param(v),
{
    match v {
        Some(x) => {
            sql.append(clause);
            params.push(SqlValue::Int(x as i64));
            assert(values_model(params@) =~= values_model(old(params)@) + int_param(v));
        },
        None => {
            assert(sql@ =~= old(sql)@ + when(v is Some, clause@));
            assert(values_model(params@) =~= values_model(old(params)@) + int_param(v));
        },
    }
}

fn push_text(sql: &mut String, params: &mut Vec<SqlValue>, clause: &str, v: &Option<String>)
    ensures
        final(sql)@ == old(sql)@ + when(v is Some, clause@),
        values_model(final(params)@) == values_model(old(params)@) + text_param(*v),
{
    match v {
        Some(x) => {
            sql.append(clause);
            params.push(SqlValue::Text(crate::text::copy_string(x)));
            assert(values_model(params@) =~= values_model(old(params)@) + text_param(*v));
        },
        None => {
            assert(sql@ =~= old(sql)@ + when(v is Some, clause@));
            assert(values_model(params@) =~= values_model(old(params)@) + text_param(*v));
        },
    }
}

/// The conditions and parameters of the filters.
pub fn finding_filter(f: &FindingFilters) -> (r: (String, Vec<SqlValue>))
    ensures
        r.0@ == filter_sql(*f),
        values_model(r.1@) == filter_params(*f),
{
    let mut sql = String::new();
    let mut params: Vec<SqlValue> = Vec::new();
    proof {
        assert(sql@ =~= Seq::<char>::empty());
        assert(values_model(params@) =~= Seq::<SqlValueModel>::empty());
    }
    push_int(&mut sql, &mut params, " AND f.engagement_id = ?", f.engagement_id);
    push_int(&mut sql, &mut params, " AND e.client_id = ?", f.client_id);
    push_text(&mut sql, &mut params, " AND f.severity = ?", &f.severity);
    push_text(&mut sql, &mut params, " AND f.status = ?", &f.status);
    push_text(&mut sql, &mut params, " AND f.owasp_category = ?", &f.owasp_category);
    let ghost before = values_model(params@);
    let ghost sql_before = sql@;
    match &f.search {
        Some(s) => {
            sql.append(" AND (f.title LIKE ? OR f.owasp_category LIKE ? OR f.tags LIKE ? OR c.name LIKE ? OR e.name LIKE ?)");
            let mut term = lit("%");
            let t = trim_str(s.as_str());
            term.append(t.as_str());
            term.append("%");
            let mut k: usize = 0;
            while k < 5
                invariant
                    k <= 5,
                    term@ == search_term(s@),
                    values_model(params@) == before + Seq::new(k as nat, |i: int| SqlValueModel::Text(search_term(s@))),
                decreases 5 - k,
            {
                let ghost prev = values_model(params@);
                let c = crate::text::copy_string(&term);
                params.push(SqlValue::Text(c));
                assert(values_model(params@) =~= prev.push(SqlValueModel::Text(search_term(s@))));
                k = k + 1;
                assert(values_model(params@) =~= before + Seq::new(k as nat, |i: int| SqlValueModel::Text(search_term(s@))));
            }
        },
        None => {},
    }
    proof {
        assert(sql@ =~= filter_sql(*f));
        assert(values_model(params@) =~= filter_params(*f));
    }
    (sql, params)
}

/// The statements that list a page of findings under the filters, newest
/// first.
pub fn finding_query(f: &FindingFilters, limit: u32) -> (r: FindingQuery)
    ensures
        r.count_sql@ == count_base() + filter_sql(*f),
        r.items_sql@ == items_base() + filter_sql(*f) + page_tail(),
        values_model(r.filter_params@) == filter_params(*f),
        r.limit == page_limit(limit),
{
    let (conds, params) = finding_filter(f);
    let mut count_sql = lit(
        "SELECT COUNT(*) FROM findings f JOIN engagements e ON e.id = f.engagement_id JOIN clients c ON c.id = e.client_id WHERE f.is_active = 1",
    );
    count_sql.append(conds.as_str());
    let mut items_sql = lit(
        "SELECT f.id, f.engagement_id, e.name as engagement_name, c.name as client_name, f.title, f.severity, f.cvss_score, f.owasp_category, f.cwe_id, f.overview, f.summary, f.affected_endpoints, f.evidence, f.impact_items, f.remediation_items, f.steps_to_reproduce, f.references_json, f.status, f.tags, f.notes, f.is_active, f.created_at, f.updated_at FROM findings f JOIN engagements e ON e.id = f.engagement_id JOIN clients c ON c.id = e.client_id WHERE f.is_active = 1",
    );
    items_sql.append(conds.as_str());
    items_sql.append(" ORDER BY f.created_at DESC LIMIT ? OFFSET ?");
    let lim = if limit < 1 {
        1
    } else if limit > 500 {
        500
    } else {
        limit
    };
    FindingQuery { count_sql, items_sql, filter_params: params, limit: lim }
}

} // verus!
