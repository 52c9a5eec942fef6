//! Workspace statistics: counts of clients, projects, engagements and
//! findings, and tallies by severity, status and priority, each kept sorted
//! by its key as a `BTreeMap<String, usize>` would list it.

use crate::text::{chars_of, contains, has_substring, lit, str_eq};
use vstd::prelude::*;

verus! {

// ───────────────────────── the order of strings ─────────────────────────

/// `a < b` in the order of `String`: lexicographic by character (which is
/// the order of their UTF-8 bytes), a proper prefix coming first.
pub open spec fn str_lt(a: Seq<char>, b: Seq<char>) -> bool
    decreases a.len(),
{
    if a.len() == 0 {
        b.len() > 0
    } else if b.len() == 0 {
        false
    } else if a[0] == b[0] {
        str_lt(a.drop_first(), b.drop_first())
    } else {
        (a[0] as int) < (b[0] as int)
    }
}

pub proof fn lemma_str_lt_irreflexive(a: Seq<char>)
    ensures
        !str_lt(a, a),
    decreases a.len(),
{
    if a.len() > 0 {
        lemma_str_lt_irreflexive(a.drop_first());
    }
}

pub proof fn lemma_str_lt_total(a: Seq<char>, b: Seq<char>)
    ensures
        a == b || str_lt(a, b) || str_lt(b, a),
        !(str_lt(a, b) && str_lt(b, a)),
    decreases a.len(),
{
    if a.len() > 0 && b.len() > 0 {
        lemma_str_lt_total(a.drop_first(), b.drop_first());
        if a[0] == b[0] && a.drop_first() == b.drop_first() {
            assert(a =~= seq![a[0]] + a.drop_first());
            assert(b =~= seq![b[0]] + b.drop_first());
        }
        if a[0] != b[0] {
            assert((a[0] as int) != (b[0] as int));
        }
    } else if a.len() == 0 && b.len() == 0 {
        assert(a =~= b);
    }
}

pub proof fn lemma_str_lt_transitive(a: Seq<char>, b: Seq<char>, c: Seq<char>)
    requires
        str_lt(a, b),
        str_lt(b, c),
    ensures
        str_lt(a, c),
    decreases a.len(),
{
    if a.len() > 0 && b.len() > 0 && c.len() > 0 {
        if a[0] == b[0] && b[0] == c[0] {
            lemma_str_lt_transitive(a.drop_first(), b.drop_first(), c.drop_first());
        }
    }
}

/// Compares two strings in the order of `String`.
pub fn str_less(a: &Vec<char>, b: &Vec<char>) -> (r: bool)
    ensures
        r == str_lt(a@, b@),
{
    let mut i: usize = 0;
    assert(a@.skip(0) =~= a@);
    assert(b@.skip(0) =~= b@);
    while i < a.len() && i < b.len()
        invariant
            i <= a@.len(),
            i <= b@.len(),
            a@.take(i as int) == b@.take(i as int),
            str_lt(a@, b@) == str_lt(a@.skip(i as int), b@.skip(i as int)),
        decreases a.len() - i,
    {
        let ghost (sa, sb) = (a@.skip(i as int), b@.skip(i as int));
        if a[i] != b[i] {
            assert(sa[0] == a@[i as int] && sb[0] == b@[i as int]);
            return a[i] < b[i];
        }
        assert(sa.drop_first() =~= a@.skip(i + 1));
        assert(sb.drop_first() =~= b@.skip(i + 1));
        assert(a@.take(i + 1) =~= a@.take(i as int).push(a@[i as int]));
        assert(b@.take(i + 1) =~= b@.take(i as int).push(b@[i as int]));
        i = i + 1;
    }
    let ghost (sa, sb) = (a@.skip(i as int), b@.skip(i as int));
    assert(i == a.len() ==> sa.len() == 0);
    assert(i == b.len() ==> sb.len() == 0);
    i == a.len() && i < b.len()
}

// ───────────────────────── tallies ─────────────────────────

/// A tally by key: entries with distinct keys, in increasing key order.
#[derive(Debug)]
pub struct Tally {
    pub entries: Vec<(String, usize)>,
}

pub open spec fn entries_view(v: Seq<(String, usize)>) -> Seq<(Seq<char>, usize)> {
    v.map_values(|e: (String, usize)| (e.0@, e.1))
}

/// Keys strictly increasing.
pub open spec fn sorted_keys<V>(s: Seq<(Seq<char>, V)>) -> bool {
    forall|i: int, j: int| 0 <= i < j < s.len() ==> str_lt(#[trigger] s[i].0, #[trigger] s[j].0)
}

/// Every entry counts at least one.
pub open spec fn positive_counts(s: Seq<(Seq<char>, usize)>) -> bool {
    forall|i: int| 0 <= i < s.len() ==> (#[trigger] s[i]).1 > 0
}

/// Whether `k` is a key of `s`.
pub open spec fn has_key<V>(s: Seq<(Seq<char>, V)>, k: Seq<char>) -> bool {
    exists|i: int| 0 <= i < s.len() && (#[trigger] s[i]).0 == k
}

/// The count of `k` in a tally: that of its (last) entry, or 0.
pub open spec fn count_of(s: Seq<(Seq<char>, usize)>, k: Seq<char>) -> nat
    decreases s.len(),
{
    if s.len() == 0 {
        0
    } else if s.last().0 == k {
        s.last().1 as nat
    } else {
        count_of(s.drop_last(), k)
    }
}

proof fn lemma_count_at(s: Seq<(Seq<char>, usize)>, i: int)
    requires
        sorted_keys(s),
        0 <= i < s.len(),
    ensures
        has_key(s, s[i].0),
        count_of(s, s[i].0) == s[i].1,
    decreases s.len(),
{
    assert(s[i].0 == s[i].0);
    if i < s.len() - 1 {
        let t = s.drop_last();
        assert(str_lt(s[i].0, s[s.len() - 1].0));
        lemma_str_lt_irreflexive(s[i].0);
        assert(sorted_keys(t)) by {
            assert forall|a: int, b: int| 0 <= a < b < t.len() implies str_lt(#[trigger] t[a].0, #[trigger] t[b].0) by {
                assert(t[a] == s[a] && t[b] == s[b]);
            }
        }
        assert(t[i] == s[i]);
        lemma_count_at(t, i);
    }
}

proof fn lemma_count_absent(s: Seq<(Seq<char>, usize)>, k: Seq<char>)
    requires
        !has_key(s, k),
    ensures
        count_of(s, k) == 0,
    decreases s.len(),
{
    if s.len() > 0 {
        let t = s.drop_last();
        assert(s[s.len() - 1].0 != k);
        assert(!has_key(t, k)) by {
            if has_key(t, k) {
                let i = choose|i: int| 0 <= i < t.len() && (#[trigger] t[i]).0 == k;
                assert(s[i].0 == k);
            }
        }
        lemma_count_absent(t, k);
    }
}

impl Tally {
    pub open spec fn view_entries(&self) -> Seq<(Seq<char>, usize)> {
        entries_view(self.entries@)
    }

    pub open spec fn wf(&self) -> bool {
        &&& sorted_keys(self.view_entries())
        &&& positive_counts(self.view_entries())
    }

    /// An empty tally.
    pub fn new() -> (t: Tally)
        ensures
            t.wf(),
            t.view_entries().len() == 0,
    {
        let t = Tally { entries: Vec::new() };
        assert(t.view_entries() =~= Seq::<(Seq<char>, usize)>::empty());
        t
    }

    /// Counts one more of `key`: its entry goes up by one, or a new entry
    /// with count 1 is placed where the order puts it.
    pub fn add(&mut self, key: &str)
        requires
            old(self).wf(),
            count_of(old(self).view_entries(), key@) < usize::MAX,
        ensures
            final(self).wf(),
            forall|k: Seq<char>| has_key(final(self).view_entries(), k) <==> (has_key(old(self).view_entries(), k) || k == key@),
            forall|k: Seq<char>| #[trigger] count_of(final(self).view_entries(), k) == count_of(old(self).view_entries(), k) + (if k == key@ { 1nat } else { 0nat }),
    {
        let ghost old_s = self.view_entries();
        let kv = chars_of(key);
        let n = self.entries.len();
        let mut p: usize = 0;
        while p < n && str_less(&chars_of(self.entries[p].0.as_str()), &kv)
            invariant
                p <= n == self.entries@.len(),
                self.view_entries() == old_s,
                sorted_keys(old_s),
                kv@ == key@,
                forall|j: int| 0 <= j < p ==> str_lt(#[trigger] old_s[j].0, key@),
            decreases n - p,
        {
            p = p + 1;
        }
        // Every entry from p on is at least the key.
        assert forall|j: int| p <= j < n implies !str_lt(#[trigger] old_s[j].0, key@) by {
            assert(!str_lt(old_s[p as int].0, key@));
            if j > p && str_lt(old_s[j].0, key@) {
                assert(str_lt(old_s[p as int].0, old_s[j].0));
                lemma_str_lt_transitive(old_s[p as int].0, old_s[j].0, key@);
            }
        }
        let found = p < n && str_eq(self.entries[p].0.as_str(), key);
        if found {
            let c = self.entries[p].1;
            proof {
                lemma_count_at(old_s, p as int);
            }
            let name = lit(key);
            self.entries.set(p, (name, c + 1));
            let ghost new_s = self.view_entries();
            assert(new_s =~= old_s.update(p as int, (key@, (c + 1) as usize)));
            proof {
                assert forall|i: int| 0 <= i < new_s.len() implies (#[trigger] new_s[i]).1 > 0 by {
                    if i != p {
                        assert(new_s[i] == old_s[i]);
                    }
                }
                assert forall|i: int, j: int| 0 <= i < j < new_s.len() implies str_lt(#[trigger] new_s[i].0, #[trigger] new_s[j].0) by {
                    assert(new_s[i].0 == old_s[i].0 && new_s[j].0 == old_s[j].0);
                }
                assert forall|k: Seq<char>| has_key(new_s, k) <==> (has_key(old_s, k) || k == key@) by {
                    if has_key(old_s, k) {
                        let i = choose|i: int| 0 <= i < old_s.len() && (#[trigger] old_s[i]).0 == k;
                        assert(new_s[i].0 == k);
                    }
                    if has_key(new_s, k) {
                        let i = choose|i: int| 0 <= i < new_s.len() && (#[trigger] new_s[i]).0 == k;
                        assert(old_s[i].0 == k);
                    }
                    if k == key@ {
                        assert(new_s[p as int].0 == k);
                    }
                }
                assert forall|k: Seq<char>| #[trigger] count_of(new_s, k) == count_of(old_s, k) + (if k == key@ { 1nat } else { 0nat }) by {
                    if has_key(old_s, k) {
                        let i = choose|i: int| 0 <= i < old_s.len() && (#[trigger] old_s[i]).0 == k;
                        lemma_count_at(old_s, i);
                        lemma_count_at(new_s, i);
                    } else if k == key@ {
                        assert(old_s[p as int].0 == k);
                    } else {
                        lemma_count_absent(old_s, k);
                        lemma_count_absent(new_s, k);
                    }
                }
            }
        } else {
            let name = lit(key);
            self.entries.insert(p, (name, 1));
            let ghost new_s = self.view_entries();
            assert(new_s =~= old_s.insert(p as int, (key@, 1usize)));
            proof {
                assert forall|i: int| 0 <= i < new_s.len() implies (#[trigger] new_s[i]).1 > 0 by {
                    if i < p {
                        assert(new_s[i] == old_s[i]);
                    } else if i > p {
                        assert(new_s[i] == old_s[i - 1]);
                    }
                }
                if p < n {
                    lemma_str_lt_total(old_s[p as int].0, key@);
                }
                assert(!has_key(old_s, key@)) by {
                    if has_key(old_s, key@) {
                        let i = choose|i: int| 0 <= i < old_s.len() && (#[trigger] old_s[i]).0 == key@;
                        lemma_str_lt_irreflexive(key@);
                        if i > p {
                            assert(str_lt(old_s[p as int].0, old_s[i].0));
                        }
                    }
                }
                assert forall|i: int, j: int| 0 <= i < j < new_s.len() implies str_lt(#[trigger] new_s[i].0, #[trigger] new_s[j].0) by {
                    if j < p {
                    } else if j == p {
                    } else if i == p {
                        lemma_str_lt_total(old_s[j - 1].0, key@);
                        if j - 1 > p {
                            assert(str_lt(old_s[p as int].0, old_s[j - 1].0));
                            lemma_str_lt_transitive(key@, old_s[p as int].0, old_s[j - 1].0);
                        }
                    } else if i < p {
                        lemma_str_lt_total(old_s[j - 1].0, key@);
                        lemma_str_lt_transitive(old_s[i].0, key@, old_s[j - 1].0);
                    } else {
                        assert(str_lt(old_s[i - 1].0, old_s[j - 1].0));
                    }
                }
                assert forall|k: Seq<char>| has_key(new_s, k) <==> (has_key(old_s, k) || k == key@) by {
                    if has_key(old_s, k) {
                        let i = choose|i: int| 0 <= i < old_s.len() && (#[trigger] old_s[i]).0 == k;
                        if i < p {
                            assert(new_s[i].0 == k);
                        } else {
                            assert(new_s[i + 1].0 == k);
                        }
                    }
                    if has_key(new_s, k) {
                        let i = choose|i: int| 0 <= i < new_s.len() && (#[trigger] new_s[i]).0 == k;
                        if i < p {
                            assert(old_s[i].0 == k);
                        } else if i > p {
                            assert(old_s[i - 1].0 == k);
                        }
                    }
                    if k == key@ {
                        assert(new_s[p as int].0 == k);
                    }
                }
                assert forall|k: Seq<char>| #[trigger] count_of(new_s, k) == count_of(old_s, k) + (if k == key@ { 1nat } else { 0nat }) by {
                    if has_key(old_s, k) {
                        let i = choose|i: int| 0 <= i < old_s.len() && (#[trigger] old_s[i]).0 == k;
                        lemma_count_at(old_s, i);
                        if i < p {
                            lemma_count_at(new_s, i);
                        } else {
                            lemma_count_at(new_s, i + 1);
                        }
                    } else if k == key@ {
                        lemma_count_at(new_s, p as int);
                        lemma_count_absent(old_s, k);
                    } else {
                        assert(!has_key(new_s, k));
                        lemma_count_absent(old_s, k);
                        lemma_count_absent(new_s, k);
                    }
                }
            }
        }
    }
}


/// Two well-formed tallies that count every key alike are the same list:
/// the order in which the keys were counted does not show in the result.
pub proof fn law_tally_determined_by_counts(a: Seq<(Seq<char>, usize)>, b: Seq<(Seq<char>, usize)>)
    requires
        sorted_keys(a),
        positive_counts(a),
        sorted_keys(b),
        positive_counts(b),
        forall|k: Seq<char>| #[trigger] count_of(a, k) == count_of(b, k),
    ensures
        a == b,
    decreases a.len() + b.len(),
{
    if a.len() == 0 {
        if b.len() > 0 {
            lemma_count_at(b, 0);
            lemma_count_absent(a, b[0].0);
            assert(count_of(a, b[0].0) == count_of(b, b[0].0));
        }
        assert(a =~= b);
    } else if b.len() == 0 {
        lemma_count_at(a, 0);
        lemma_count_absent(b, a[0].0);
        assert(count_of(a, a[0].0) == count_of(b, a[0].0));
    } else {
        let la = a.last();
        let lb = b.last();
        lemma_count_at(a, a.len() - 1);
        lemma_count_at(b, b.len() - 1);
        assert(count_of(a, la.0) == count_of(b, la.0));
        assert(count_of(a, lb.0) == count_of(b, lb.0));
        // The last keys agree: each is a key of the other list, and no key
        // of a sorted list lies after its last one.
        assert(la.0 == lb.0) by {
            if !has_key(b, la.0) {
                lemma_count_absent(b, la.0);
            }
            if !has_key(a, lb.0) {
                lemma_count_absent(a, lb.0);
            }
            let j = choose|j: int| 0 <= j < b.len() && (#[trigger] b[j]).0 == la.0;
            let i = choose|i: int| 0 <= i < a.len() && (#[trigger] a[i]).0 == lb.0;
            lemma_str_lt_total(la.0, lb.0);
            if str_lt(la.0, lb.0) {
                if i < a.len() - 1 {
                    assert(str_lt(a[i].0, la.0));
                    lemma_str_lt_transitive(lb.0, la.0, lb.0);
                    lemma_str_lt_irreflexive(lb.0);
                } else {
                    lemma_str_lt_irreflexive(la.0);
                }
            } else if str_lt(lb.0, la.0) {
                if j < b.len() - 1 {
                    assert(str_lt(b[j].0, lb.0));
                    lemma_str_lt_transitive(la.0, lb.0, la.0);
                    lemma_str_lt_irreflexive(la.0);
                } else {
                    lemma_str_lt_irreflexive(lb.0);
                }
            }
        }
        assert(la.1 == lb.1);
        let ta = a.drop_last();
        let tb = b.drop_last();
        assert(sorted_keys(ta)) by {
            assert forall|x: int, y: int| 0 <= x < y < ta.len() implies str_lt(#[trigger] ta[x].0, #[trigger] ta[y].0) by {
                assert(ta[x] == a[x] && ta[y] == a[y]);
            }
        }
        assert(sorted_keys(tb)) by {
            assert forall|x: int, y: int| 0 <= x < y < tb.len() implies str_lt(#[trigger] tb[x].0, #[trigger] tb[y].0) by {
                assert(tb[x] == b[x] && tb[y] == b[y]);
            }
        }
        assert(positive_counts(ta)) by {
            assert forall|x: int| 0 <= x < ta.len() implies (#[trigger] ta[x]).1 > 0 by {
                assert(ta[x] == a[x]);
            }
        }
        assert(positive_counts(tb)) by {
            assert forall|x: int| 0 <= x < tb.len() implies (#[trigger] tb[x]).1 > 0 by {
                assert(tb[x] == b[x]);
            }
        }
        assert forall|k: Seq<char>| #[trigger] count_of(ta, k) == count_of(tb, k) by {
            if k != la.0 {
                assert(count_of(a, k) == count_of(ta, k));
                assert(count_of(b, k) == count_of(tb, k));
            } else {
                assert(!has_key(ta, k)) by {
                    if has_key(ta, k) {
                        let i = choose|i: int| 0 <= i < ta.len() && (#[trigger] ta[i]).0 == k;
                        assert(str_lt(a[i].0, la.0));
                        lemma_str_lt_irreflexive(k);
                    }
                }
                assert(!has_key(tb, k)) by {
                    if has_key(tb, k) {
                        let i = choose|i: int| 0 <= i < tb.len() && (#[trigger] tb[i]).0 == k;
                        assert(str_lt(b[i].0, lb.0));
                        lemma_str_lt_irreflexive(k);
                    }
                }
                lemma_count_absent(ta, k);
                lemma_count_absent(tb, k);
            }
        }
        law_tally_determined_by_counts(ta, tb);
        assert(a =~= ta.push(la));
        assert(b =~= tb.push(lb));
    }
}

/// Counting two keys gives the same counts in either order.
pub proof fn law_tally_counts_commute(
    start: Seq<(Seq<char>, usize)>,
    mid1: Seq<(Seq<char>, usize)>,
    end1: Seq<(Seq<char>, usize)>,
    mid2: Seq<(Seq<char>, usize)>,
    end2: Seq<(Seq<char>, usize)>,
    x: Seq<char>,
    y: Seq<char>,
)
    requires
        counted(start, mid1, Some(x)),
        counted(mid1, end1, Some(y)),
        counted(start, mid2, Some(y)),
        counted(mid2, end2, Some(x)),
    ensures
        forall|k: Seq<char>| #[trigger] count_of(end1, k) == count_of(end2, k),
{
    assert forall|k: Seq<char>| #[trigger] count_of(end1, k) == count_of(end2, k) by {
        assert(count_of(end1, k) == count_of(mid1, k) + (if Some(y) == Some(k) { 1nat } else { 0nat }));
        assert(count_of(mid1, k) == count_of(start, k) + (if Some(x) == Some(k) { 1nat } else { 0nat }));
        assert(count_of(end2, k) == count_of(mid2, k) + (if Some(x) == Some(k) { 1nat } else { 0nat }));
        assert(count_of(mid2, k) == count_of(start, k) + (if Some(y) == Some(k) { 1nat } else { 0nat }));
    }
}

// ───────────────────────── statistics ─────────────────────────

/// Statistics of a workspace or of one client. Each list is a tally in
/// increasing key order.
#[derive(Debug)]
pub struct Stats {
    pub clients: usize,
    pub projects: usize,
    pub engagements: usize,
    pub findings_total: usize,
    pub findings_open: usize,
    pub findings_by_severity: Vec<(String, usize)>,
    pub engagements_by_status: Vec<(String, usize)>,
    pub clients_by_priority: Vec<(String, usize)>,
    pub projects_by_priority: Vec<(String, usize)>,
    pub open_findings_per_project: Vec<(String, usize)>,
}

/// What statistics keep of a finding file whose frontmatter could be read:
/// its `status` and `severity` when they are strings.
#[derive(Debug)]
pub struct FindingFields {
    pub status: Option<String>,
    pub severity: Option<String>,
}

/// Statistics being gathered while the workspace tree is walked.
pub struct StatsCollector {
    pub clients: usize,
    pub projects: usize,
    pub engagements: usize,
    pub findings_total: usize,
    pub findings_open: usize,
    pub by_severity: Tally,
    pub by_engagement_status: Tally,
    pub by_client_priority: Tally,
    pub by_project_priority: Tally,
    pub open_per_project: Tally,
}

/// The tally after counting an optional key.
pub open spec fn counted(before: Seq<(Seq<char>, usize)>, after: Seq<(Seq<char>, usize)>, key: Option<Seq<char>>) -> bool {
    &&& sorted_keys(after)
    &&& forall|k: Seq<char>| #[trigger] count_of(after, k) == count_of(before, k) + (if key == Some(k) { 1nat } else { 0nat })
}

pub open spec fn opt_key(o: Option<&str>) -> Option<Seq<char>> {
    match o {
        Some(s) => Some(s@),
        None => None,
    }
}

/// The status of a finding as the statistics read it ("" when absent).
pub open spec fn status_of(f: Option<(Option<Seq<char>>, Option<Seq<char>>)>) -> Seq<char> {
    match f {
        Some((Some(st), _)) => st,
        _ => ""@,
    }
}

/// The severity key a finding is counted under: none when its frontmatter
/// could not be read, `unknown` when it has no severity.
pub open spec fn severity_key(f: Option<(Option<Seq<char>>, Option<Seq<char>>)>) -> Option<Seq<char>> {
    match f {
        Some((_, Some(sev))) => Some(sev),
        Some((_, None)) => Some("unknown"@),
        None => None,
    }
}

pub open spec fn fields_view(f: Option<FindingFields>) -> Option<(Option<Seq<char>>, Option<Seq<char>>)> {
    match f {
        Some(ff) => Some((crate::parsers::opt_view(ff.status), crate::parsers::opt_view(ff.severity))),
        None => None,
    }
}

fn count_opt(t: &mut Tally, key: Option<&str>)
    requires
        old(t).wf(),
        key matches Some(k) ==> count_of(old(t).view_entries(), k@) < usize::MAX,
    ensures
        final(t).wf(),
        counted(old(t).view_entries(), final(t).view_entries(), opt_key(key)),
{
    match key {
        Some(k) => t.add(k),
        None => {},
    }
}

impl StatsCollector {
    pub open spec fn wf(&self) -> bool {
        &&& self.by_severity.wf()
        &&& self.by_engagement_status.wf()
        &&& self.by_client_priority.wf()
        &&& self.by_project_priority.wf()
        &&& self.open_per_project.wf()
    }

    /// Nothing counted yet.
    pub fn new() -> (c: StatsCollector)
        ensures
            c.wf(),
            c.clients == 0 && c.projects == 0 && c.engagements == 0,
            c.findings_total == 0 && c.findings_open == 0,
            c.by_severity.view_entries().len() == 0,
            c.by_engagement_status.view_entries().len() == 0,
            c.by_client_priority.view_entries().len() == 0,
            c.by_project_priority.view_entries().len() == 0,
            c.open_per_project.view_entries().len() == 0,
    {
        StatsCollector {
            clients: 0,
            projects: 0,
            engagements: 0,
            findings_total: 0,
            findings_open: 0,
            by_severity: Tally::new(),
            by_engagement_status: Tally::new(),
            by_client_priority: Tally::new(),
            by_project_priority: Tally::new(),
            open_per_project: Tally::new(),
        }
    }

    /// Counts a client, and its priority when its config could be read.
    pub fn add_client(&mut self, priority: Option<&str>)
        requires
            old(self).wf(),
            old(self).clients < usize::MAX,
            priority matches Some(p) ==> count_of(old(self).by_client_priority.view_entries(), p@) < usize::MAX,
        ensures
            final(self).wf(),
            final(self).clients == old(self).clients + 1,
            counted(old(self).by_client_priority.view_entries(), final(self).by_client_priority.view_entries(), opt_key(priority)),
            final(self).projects == old(self).projects,
            final(self).engagements == old(self).engagements,
            final(self).findings_total == old(self).findings_total,
            final(self).findings_open == old(self).findings_open,
            final(self).by_severity == old(self).by_severity,
            final(self).by_engagement_status == old(self).by_engagement_status,
            final(self).by_project_priority == old(self).by_project_priority,
            final(self).open_per_project == old(self).open_per_project,
    {
        self.clients = self.clients + 1;
        count_opt(&mut self.by_client_priority, priority);
    }

    /// Counts a project, and its priority when its config could be read.
    pub fn add_project(&mut self, priority: Option<&str>)
        requires
            old(self).wf(),
            old(self).projects < usize::MAX,
            priority matches Some(p) ==> count_of(old(self).by_project_priority.view_entries(), p@) < usize::MAX,
        ensures
            final(self).wf(),
            final(self).projects == old(self).projects + 1,
            counted(old(self).by_project_priority.view_entries(), final(self).by_project_priority.view_entries(), opt_key(priority)),
            final(self).clients == old(self).clients,
            final(self).engagements == old(self).engagements,
            final(self).findings_total == old(self).findings_total,
            final(self).findings_open == old(self).findings_open,
            final(self).by_severity == old(self).by_severity,
            final(self).by_engagement_status == old(self).by_engagement_status,
            final(self).by_client_priority == old(self).by_client_priority,
            final(self).open_per_project == old(self).open_per_project,
    {
        self.projects = self.projects + 1;
        count_opt(&mut self.by_project_priority, priority);
    }

    /// Counts an engagement, and its status when its config could be read.
    pub fn add_engagement(&mut self, status: Option<&str>)
        requires
            old(self).wf(),
            old(self).engagements < usize::MAX,
            status matches Some(s) ==> count_of(old(self).by_engagement_status.view_entries(), s@) < usize::MAX,
        ensures
            final(self).wf(),
            final(self).engagements == old(self).engagements + 1,
            counted(old(self).by_engagement_status.view_entries(), final(self).by_engagement_status.view_entries(), opt_key(status)),
            final(self).clients == old(self).clients,
            final(self).projects == old(self).projects,
            final(self).findings_total == old(self).findings_total,
            final(self).findings_open == old(self).findings_open,
            final(self).by_severity == old(self).by_severity,
            final(self).by_client_priority == old(self).by_client_priority,
            final(self).by_project_priority == old(self).by_project_priority,
            final(self).open_per_project == old(self).open_per_project,
    {
        self.engagements = self.engagements + 1;
        count_opt(&mut self.by_engagement_status, status);
    }

    /// Counts a finding file of `project`: every file adds to the total; one
    /// whose frontmatter was read adds to the open count and to its
    /// project's open count when its status is `open`, and to the tally of
    /// its severity (`unknown` when it has none).
    pub fn add_finding(&mut self, project: &str, fields: Option<FindingFields>)
        requires
            old(self).wf(),
            old(self).findings_total < usize::MAX,
            old(self).findings_open < usize::MAX,
            count_of(old(self).open_per_project.view_entries(), project@) < usize::MAX,
            severity_key(fields_view(fields)) matches Some(k) ==> count_of(old(self).by_severity.view_entries(), k) < usize::MAX,
        ensures
            final(self).wf(),
            final(self).findings_total == old(self).findings_total + 1,
            final(self).findings_open == old(self).findings_open + (if status_of(fields_view(fields)) == "open"@ { 1int } else { 0int }),
            counted(old(self).open_per_project.view_entries(), final(self).open_per_project.view_entries(),
                if status_of(fields_view(fields)) == "open"@ { Some(project@) } else { None }),
            counted(old(self).by_severity.view_entries(), final(self).by_severity.view_entries(), severity_key(fields_view(fields))),
            final(self).clients == old(self).clients,
            final(self).projects == old(self).projects,
            final(self).engagements == old(self).engagements,
            final(self).by_engagement_status == old(self).by_engagement_status,
            final(self).by_client_priority == old(self).by_client_priority,
            final(self).by_project_priority == old(self).by_project_priority,
    {
        self.findings_total = self.findings_total + 1;
        proof {
            reveal_strlit("open");
            reveal_strlit("");
            assert(""@.len() != "open"@.len());
        }
        match fields {
            None => {},
            Some(f) => {
                let open = match &f.status {
                    Some(st) => str_eq(st.as_str(), "open"),
                    None => false,
                };
                if open {
                    self.findings_open = self.findings_open + 1;
                    self.open_per_project.add(project);
                }
                match &f.severity {
                    Some(sev) => self.by_severity.add(sev.as_str()),
                    None => self.by_severity.add("unknown"),
                }
            },
        }
    }

    /// The statistics gathered.
    pub fn finish(self) -> (s: Stats)
        ensures
            s.clients == self.clients,
            s.projects == self.projects,
            s.engagements == self.engagements,
            s.findings_total == self.findings_total,
            s.findings_open == self.findings_open,
            entries_view(s.findings_by_severity@) == self.by_severity.view_entries(),
            entries_view(s.engagements_by_status@) == self.by_engagement_status.view_entries(),
            entries_view(s.clients_by_priority@) == self.by_client_priority.view_entries(),
            entries_view(s.projects_by_priority@) == self.by_project_priority.view_entries(),
            entries_view(s.open_findings_per_project@) == self.open_per_project.view_entries(),
    {
        Stats {
            clients: self.clients,
            projects: self.projects,
            engagements: self.engagements,
            findings_total: self.findings_total,
            findings_open: self.findings_open,
            findings_by_severity: self.by_severity.entries,
            engagements_by_status: self.by_engagement_status.entries,
            clients_by_priority: self.by_client_priority.entries,
            projects_by_priority: self.by_project_priority.entries,
            open_findings_per_project: self.open_per_project.entries,
        }
    }
}

/// Whether a config file's text declares a client (holds `[client]`).
pub fn is_client_config(content: &str) -> (r: bool)
    ensures
        r == contains(content@, "[client]"@),
{
    has_substring(&chars_of(content), &chars_of("[client]"))
}

} // verus!
