//! Marking parsed findings that an engagement already has: same title
//! (ignoring ASCII case) and an affected endpoint path in common.

use crate::parsers::{AffectedEndpoint, ParsedFinding};
use crate::text::{chars_eq, chars_of, eq_ignore_ascii_case, eq_ignore_ascii_case_str, strings_view};
use vstd::prelude::*;

verus! {

/// Whether one of the endpoints has a path among `paths`.
pub open spec fn endpoint_hits(eps: Seq<AffectedEndpoint>, paths: Seq<Seq<char>>) -> bool {
    exists|k: int| 0 <= k < eps.len() && paths.contains(#[trigger] eps[k].path@)
}

/// Whether a parsed finding duplicates an existing finding, given as its
/// title and its endpoint paths.
pub open spec fn dup_match(f: ParsedFinding, e: (String, Vec<String>)) -> bool {
    eq_ignore_ascii_case(e.0@, f.title@) && endpoint_hits(f.affected_endpoints@, strings_view(e.1@))
}

/// How many existing findings a parsed finding duplicates.
pub open spec fn matches_in(f: ParsedFinding, existing: Seq<(String, Vec<String>)>) -> nat
    decreases existing.len(),
{
    if existing.len() == 0 {
        0
    } else {
        matches_in(f, existing.drop_last()) + if dup_match(f, existing.last()) { 1nat } else { 0nat }
    }
}

/// The number of (parsed, existing) pairs that are duplicates.
pub open spec fn dup_total(fs: Seq<ParsedFinding>, existing: Seq<(String, Vec<String>)>) -> nat
    decreases fs.len(),
{
    if fs.len() == 0 {
        0
    } else {
        dup_total(fs.drop_last(), existing) + matches_in(fs.last(), existing)
    }
}

/// A parsed finding with its duplicate flag set to `d`, all else kept.
pub open spec fn with_flag(f: ParsedFinding, d: bool) -> ParsedFinding {
    ParsedFinding { is_duplicate: d, ..f }
}

proof fn lemma_matches_bound(f: ParsedFinding, existing: Seq<(String, Vec<String>)>)
    ensures
        matches_in(f, existing) <= existing.len(),
    decreases existing.len(),
{
    if existing.len() > 0 {
        lemma_matches_bound(f, existing.drop_last());
    }
}

fn path_listed(paths: &Vec<String>, p: &String) -> (r: bool)
    ensures
        r == strings_view(paths@).contains(p@),
{
    let ghost sv = strings_view(paths@);
    let k = chars_of(p.as_str());
    let mut i: usize = 0;
    while i < paths.len()
        invariant
            i <= paths@.len(),
            sv == strings_view(paths@),
            k@ == p@,
            forall|j: int| 0 <= j < i ==> sv[j] != p@,
        decreases paths.len() - i,
    {
        let c = chars_of(paths[i].as_str());
        if chars_eq(&c, &k) {
            assert(sv[i as int] == p@);
            return true;
        }
        i = i + 1;
    }
    false
}

fn any_endpoint_listed(eps: &Vec<AffectedEndpoint>, paths: &Vec<String>) -> (r: bool)
    ensures
        r == endpoint_hits(eps@, strings_view(paths@)),
{
    let mut i: usize = 0;
    while i < eps.len()
        invariant
            i <= eps@.len(),
            forall|k: int| 0 <= k < i ==> !strings_view(paths@).contains(#[trigger] eps@[k].path@),
        decreases eps.len() - i,
    {
        if path_listed(paths, &eps[i].path) {
            return true;
        }
        i = i + 1;
    }
    false
}

fn count_matches(f: &ParsedFinding, existing: &Vec<(String, Vec<String>)>) -> (r: usize)
    ensures
        r == matches_in(*f, existing@),
{
    let mut n: usize = 0;
    let mut j: usize = 0;
    while j < existing.len()
        invariant
            j <= existing@.len(),
            n == matches_in(*f, existing@.take(j as int)),
            n <= j,
        decreases existing.len() - j,
    {
        proof {
            assert(existing@.take(j + 1).drop_last() =~= existing@.take(j as int));
        }
        if eq_ignore_ascii_case_str(existing[j].0.as_str(), f.title.as_str())
            && any_endpoint_listed(&f.affected_endpoints, &existing[j].1) {
            n = n + 1;
        }
        j = j + 1;
    }
    proof {
        assert(existing@.take(existing@.len() as int) =~= existing@);
    }
    n
}

/// Marks each parsed finding that duplicates an existing finding of the
/// engagement (an existing one with the same title, ignoring ASCII case,
/// and an endpoint path in common); a finding already marked stays marked.
/// Returns how many (parsed, existing) pairs matched.
pub fn mark_duplicates(existing: &Vec<(String, Vec<String>)>, findings: &mut Vec<ParsedFinding>) -> (r: u32)
    requires
        old(findings)@.len() * existing@.len() <= u32::MAX,
    ensures
        final(findings)@.len() == old(findings)@.len(),
        forall|i: int| 0 <= i < old(findings)@.len() ==> #[trigger] final(findings)@[i] == with_flag(
            old(findings)@[i],
            old(findings)@[i].is_duplicate || matches_in(old(findings)@[i], existing@) > 0,
        ),
        r == dup_total(old(findings)@, existing@),
{
    let ghost orig = findings@;
    let ghost e = existing@.len();
    let mut rest: Vec<ParsedFinding> = Vec::new();
    std::mem::swap(&mut rest, findings);
    let mut count: u32 = 0;
    let mut i: usize = 0;
    proof {
        assert(orig.take(0) =~= Seq::<ParsedFinding>::empty());
    }
    while rest.len() > 0
        invariant
            i + rest@.len() == orig.len(),
            rest@ == orig.skip(i as int),
            findings@.len() == i,
            e == existing@.len(),
            orig.len() * e <= u32::MAX,
            forall|k: int| 0 <= k < i ==> #[trigger] findings@[k] == with_flag(
                orig[k],
                orig[k].is_duplicate || matches_in(orig[k], existing@) > 0,
            ),
            count == dup_total(orig.take(i as int), existing@),
            count <= i * e,
        decreases rest.len(),
    {
        let mut f = rest.remove(0);
        assert(f == orig[i as int]);
        let m = count_matches(&f, existing);
        proof {
            lemma_matches_bound(f, existing@);
            assert(orig.take(i + 1).drop_last() =~= orig.take(i as int));
            assert(i + 1 <= orig.len());
            assert(count + m <= (i + 1) * e) by (nonlinear_arith)
                requires
                    count <= i * e,
                    m <= e,
            ;
            assert((i + 1) * e <= orig.len() * e) by (nonlinear_arith)
                requires
                    i + 1 <= orig.len(),
            ;
        }
        count = count + m as u32;
        f.is_duplicate = f.is_duplicate || m > 0;
        let ghost old_findings = findings@;
        findings.push(f);
        proof {
            assert(rest@ =~= orig.skip(i + 1));
            assert forall|k: int| 0 <= k < i + 1 implies #[trigger] findings@[k] == with_flag(
                orig[k],
                orig[k].is_duplicate || matches_in(orig[k], existing@) > 0,
            ) by {
                if k < i {
                    assert(findings@[k] == old_findings[k]);
                }
            }
        }
        i = findings.len();
    }
    proof {
        assert(orig.take(orig.len() as int) =~= orig);
    }
    count
}

} // verus!
