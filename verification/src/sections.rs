//! Document sections: Markdown building blocks found in `docs/` directories
//! up the hierarchy from a target entity to the workspace, kept by name.

use crate::search::{nonempty, path_segments, segments_of};
use crate::stats::{has_key, lemma_str_lt_irreflexive, lemma_str_lt_transitive, sorted_keys, str_less, str_lt};
use crate::text::{chars_of, has_char, lit, split_chars, split_on, str_eq, string_of, trim, trim_str};
use vstd::prelude::*;

verus! {

/// A document section: its name (the file name without `.md`), the level
/// it was found at, its path and its Markdown content.
#[derive(Debug)]
pub struct Section {
    pub name: String,
    pub source_level: &'static str,
    pub path: String,
    pub content: String,
}

/// A section as (name, (level, path, content)).
pub open spec fn section_view(s: Section) -> (Seq<char>, (Seq<char>, Seq<char>, Seq<char>)) {
    (s.name@, (s.source_level@, s.path@, s.content@))
}

pub open spec fn sections_view(v: Seq<Section>) -> Seq<(Seq<char>, (Seq<char>, Seq<char>, Seq<char>))> {
    v.map_values(|s: Section| section_view(s))
}

/// The value of the (last) entry with key `k`.
pub open spec fn lookup<V>(s: Seq<(Seq<char>, V)>, k: Seq<char>) -> Option<V>
    decreases s.len(),
{
    if s.len() == 0 {
        None
    } else if s.last().0 == k {
        Some(s.last().1)
    } else {
        lookup(s.drop_last(), k)
    }
}

proof fn lemma_sorted_drop_last<V>(s: Seq<(Seq<char>, V)>)
    requires
        sorted_keys(s),
        s.len() > 0,
    ensures
        sorted_keys(s.drop_last()),
{
    let t = s.drop_last();
    assert forall|a: int, b: int| 0 <= a < b < t.len() implies str_lt(#[trigger] t[a].0, #[trigger] t[b].0) by {
        assert(t[a] == s[a] && t[b] == s[b]);
    }
}

proof fn lemma_lookup_at<V>(s: Seq<(Seq<char>, V)>, i: int)
    requires
        sorted_keys(s),
        0 <= i < s.len(),
    ensures
        lookup(s, s[i].0) == Some(s[i].1),
    decreases s.len(),
{
    if i < s.len() - 1 {
        assert(str_lt(s[i].0, s[s.len() - 1].0));
        lemma_str_lt_irreflexive(s[i].0);
        lemma_sorted_drop_last(s);
        assert(s.drop_last()[i] == s[i]);
        lemma_lookup_at(s.drop_last(), i);
    }
}

proof fn lemma_lookup_absent<V>(s: Seq<(Seq<char>, V)>, k: Seq<char>)
    requires
        !has_key(s, k),
    ensures
        lookup(s, k) is None,
    decreases s.len(),
{
    if s.len() > 0 {
        let t = s.drop_last();
        assert(s[s.len() - 1].0 != k);
        assert(!has_key(t, k)) by {
            if has_key(t, k) {
                let i = choose|i: int| 0 <= i < t.len() && (#[trigger] t[i]).0 == k;
                assert(s[i].0 == k);
            }
        }
        lemma_lookup_absent(t, k);
    }
}

proof fn lemma_lookup_some<V>(s: Seq<(Seq<char>, V)>, k: Seq<char>)
    requires
        has_key(s, k),
    ensures
        lookup(s, k) is Some,
    decreases s.len(),
{
    let t = s.drop_last();
    if s.last().0 != k {
        assert(has_key(t, k)) by {
            let i = choose|i: int| 0 <= i < s.len() && (#[trigger] s[i]).0 == k;
            assert(i != s.len() - 1);
            assert(t[i].0 == k);
        }
        lemma_lookup_some(t, k);
    }
}

/// Sections kept in increasing name order, one per name.
pub struct SectionList {
    pub items: Vec<Section>,
}

impl SectionList {
    pub open spec fn view_items(&self) -> Seq<(Seq<char>, (Seq<char>, Seq<char>, Seq<char>))> {
        sections_view(self.items@)
    }

    pub open spec fn wf(&self) -> bool {
        sorted_keys(self.view_items())
    }

    /// No sections.
    pub fn new() -> (l: SectionList)
        ensures
            l.wf(),
            l.view_items().len() == 0,
    {
        let l = SectionList { items: Vec::new() };
        assert(l.view_items() =~= Seq::<(Seq<char>, (Seq<char>, Seq<char>, Seq<char>))>::empty());
        l
    }

    /// The first position whose name is not before `key`.
    fn position(&self, key: &Vec<char>) -> (p: usize)
        requires
            self.wf(),
        ensures
            p <= self.view_items().len(),
            forall|j: int| 0 <= j < p ==> str_lt(#[trigger] self.view_items()[j].0, key@),
            forall|j: int| p <= j < self.view_items().len() ==> !str_lt(#[trigger] self.view_items()[j].0, key@),
    {
        let ghost s = self.view_items();
        let n = self.items.len();
        let mut p: usize = 0;
        while p < n && str_less(&chars_of(self.items[p].name.as_str()), key)
            invariant
                p <= n == self.items@.len(),
                s == self.view_items(),
                sorted_keys(s),
                forall|j: int| 0 <= j < p ==> str_lt(#[trigger] s[j].0, key@),
            decreases n - p,
        {
            p = p + 1;
        }
        assert forall|j: int| p <= j < n implies !str_lt(#[trigger] s[j].0, key@) by {
            assert(!str_lt(s[p as int].0, key@));
            if j > p && str_lt(s[j].0, key@) {
                assert(str_lt(s[p as int].0, s[j].0));
                lemma_str_lt_transitive(s[p as int].0, s[j].0, key@);
            }
        }
        p
    }

    /// The position of the section with this name, if there is one.
    pub fn find_index(&self, name: &str) -> (r: Option<usize>)
        requires
            self.wf(),
        ensures
            match r {
                Some(i) => i < self.view_items().len() && self.view_items()[i as int].0 == name@,
                None => !has_key(self.view_items(), name@),
            },
    {
        let ghost s = self.view_items();
        let key = chars_of(name);
        let p = self.position(&key);
        if p < self.items.len() && str_eq(self.items[p].name.as_str(), name) {
            Some(p)
        } else {
            proof {
                if has_key(s, name@) {
                    let i = choose|i: int| 0 <= i < s.len() && (#[trigger] s[i]).0 == name@;
                    lemma_str_lt_irreflexive(name@);
                    if i > p {
                        assert(str_lt(s[p as int].0, s[i].0));
                        crate::stats::lemma_str_lt_total(s[p as int].0, name@);
                    }
                }
            }
            None
        }
    }

    /// Whether a section with this name is kept.
    pub fn contains_name(&self, name: &str) -> (r: bool)
        requires
            self.wf(),
        ensures
            r == has_key(self.view_items(), name@),
    {
        self.find_index(name).is_some()
    }

    /// Keeps `sec` under its name, replacing a section of the same name.
    pub fn insert(&mut self, sec: Section)
        requires
            old(self).wf(),
        ensures
            final(self).wf(),
            forall|k: Seq<char>| #[trigger] lookup(final(self).view_items(), k) == (if k == sec.name@ {
                Some(section_view(sec).1)
            } else {
                lookup(old(self).view_items(), k)
            }),
    {
        let ghost old_s = self.view_items();
        let ghost sv = section_view(sec);
        let key = chars_of(sec.name.as_str());
        let p = self.position(&key);
        let n = self.items.len();
        let found = p < n && str_eq(self.items[p].name.as_str(), sec.name.as_str());
        if found {
            self.items.set(p, sec);
            let ghost new_s = self.view_items();
            assert(new_s =~= old_s.update(p as int, sv));
            proof {
                assert(sv.0 == old_s[p as int].0);
                assert forall|i: int, j: int| 0 <= i < j < new_s.len() implies str_lt(#[trigger] new_s[i].0, #[trigger] new_s[j].0) by {
                    assert(new_s[i].0 == old_s[i].0 && new_s[j].0 == old_s[j].0);
                }
                assert forall|k: Seq<char>| #[trigger] lookup(new_s, k) == (if k == sv.0 { Some(sv.1) } else { lookup(old_s, k) }) by {
                    lemma_lookup_at(new_s, p as int);
                    if k != sv.0 {
                        if has_key(old_s, k) {
                            let i = choose|i: int| 0 <= i < old_s.len() && (#[trigger] old_s[i]).0 == k;
                            lemma_lookup_at(old_s, i);
                            lemma_lookup_at(new_s, i);
                        } else {
                            lemma_lookup_absent(old_s, k);
                            assert(!has_key(new_s, k)) by {
                                if has_key(new_s, k) {
                                    let i = choose|i: int| 0 <= i < new_s.len() && (#[trigger] new_s[i]).0 == k;
                                    assert(old_s[i].0 == k);
                                }
                            }
                            lemma_lookup_absent(new_s, k);
                        }
                    }
                }
            }
        } else {
            self.items.insert(p, sec);
            let ghost new_s = self.view_items();
            assert(new_s =~= old_s.insert(p as int, sv));
            proof {
                let key_s = sv.0;
                if p < n {
                    crate::stats::lemma_str_lt_total(old_s[p as int].0, key_s);
                }
                assert(!has_key(old_s, key_s)) by {
                    if has_key(old_s, key_s) {
                        let i = choose|i: int| 0 <= i < old_s.len() && (#[trigger] old_s[i]).0 == key_s;
                        lemma_str_lt_irreflexive(key_s);
                        if i > p {
                            assert(str_lt(old_s[p as int].0, old_s[i].0));
                        }
                    }
                }
                assert forall|i: int, j: int| 0 <= i < j < new_s.len() implies str_lt(#[trigger] new_s[i].0, #[trigger] new_s[j].0) by {
                    if j < p {
                    } else if j == p {
                    } else if i == p {
                        crate::stats::lemma_str_lt_total(old_s[j - 1].0, key_s);
                        if j - 1 > p {
                            assert(str_lt(old_s[p as int].0, old_s[j - 1].0));
                            lemma_str_lt_transitive(key_s, old_s[p as int].0, old_s[j - 1].0);
                        }
                    } else if i < p {
                        crate::stats::lemma_str_lt_total(old_s[j - 1].0, key_s);
                        lemma_str_lt_transitive(old_s[i].0, key_s, old_s[j - 1].0);
                    } else {
                        assert(str_lt(old_s[i - 1].0, old_s[j - 1].0));
                    }
                }
                assert forall|k: Seq<char>| #[trigger] lookup(new_s, k) == (if k == key_s { Some(sv.1) } else { lookup(old_s, k) }) by {
                    if k == key_s {
                        lemma_lookup_at(new_s, p as int);
                    } else if has_key(old_s, k) {
                        let i = choose|i: int| 0 <= i < old_s.len() && (#[trigger] old_s[i]).0 == k;
                        lemma_lookup_at(old_s, i);
                        if i < p {
                            lemma_lookup_at(new_s, i);
                        } else {
                            lemma_lookup_at(new_s, i + 1);
                        }
                    } else {
                        assert(!has_key(new_s, k)) by {
                            if has_key(new_s, k) {
                                let i = choose|i: int| 0 <= i < new_s.len() && (#[trigger] new_s[i]).0 == k;
                                if i < p {
                                    assert(old_s[i].0 == k);
                                } else if i > p {
                                    assert(old_s[i - 1].0 == k);
                                }
                            }
                        }
                        lemma_lookup_absent(old_s, k);
                        lemma_lookup_absent(new_s, k);
                    }
                }
            }
        }
    }

    /// Drops the section with this name, if there is one.
    pub fn remove(&mut self, name: &str)
        requires
            old(self).wf(),
        ensures
            final(self).wf(),
            forall|k: Seq<char>| #[trigger] lookup(final(self).view_items(), k) == (if k == name@ {
                None
            } else {
                lookup(old(self).view_items(), k)
            }),
    {
        let ghost old_s = self.view_items();
        match self.find_index(name) {
            None => {
                proof {
                    assert forall|k: Seq<char>| #[trigger] lookup(old_s, k) == (if k == name@ { None } else { lookup(old_s, k) }) by {
                        if k == name@ {
                            lemma_lookup_absent(old_s, k);
                        }
                    }
                }
            },
            Some(p) => {
                self.items.remove(p);
                let ghost new_s = self.view_items();
                assert(new_s =~= old_s.remove(p as int));
                proof {
                    assert forall|i: int, j: int| 0 <= i < j < new_s.len() implies str_lt(#[trigger] new_s[i].0, #[trigger] new_s[j].0) by {
                        let i0 = if i < p { i } else { i + 1 };
                        let j0 = if j < p { j } else { j + 1 };
                        assert(new_s[i] == old_s[i0] && new_s[j] == old_s[j0]);
                    }
                    assert forall|k: Seq<char>| #[trigger] lookup(new_s, k) == (if k == name@ { None } else { lookup(old_s, k) }) by {
                        if k == name@ {
                            assert(!has_key(new_s, k)) by {
                                if has_key(new_s, k) {
                                    let i = choose|i: int| 0 <= i < new_s.len() && (#[trigger] new_s[i]).0 == k;
                                    let i0 = if i < p { i } else { i + 1 };
                                    assert(old_s[i0].0 == k);
                                    lemma_str_lt_irreflexive(k);
                                    if i0 < p {
                                        assert(str_lt(old_s[i0].0, old_s[p as int].0));
                                    } else {
                                        assert(str_lt(old_s[p as int].0, old_s[i0].0));
                                    }
                                }
                            }
                            lemma_lookup_absent(new_s, k);
                        } else if has_key(old_s, k) {
                            let i = choose|i: int| 0 <= i < old_s.len() && (#[trigger] old_s[i]).0 == k;
                            lemma_lookup_at(old_s, i);
                            if i < p {
                                lemma_lookup_at(new_s, i);
                            } else {
                                assert(i != p);
                                lemma_lookup_at(new_s, i - 1);
                            }
                        } else {
                            assert(!has_key(new_s, k)) by {
                                if has_key(new_s, k) {
                                    let i = choose|i: int| 0 <= i < new_s.len() && (#[trigger] new_s[i]).0 == k;
                                    let i0 = if i < p { i } else { i + 1 };
                                    assert(old_s[i0].0 == k);
                                }
                            }
                            lemma_lookup_absent(old_s, k);
                            lemma_lookup_absent(new_s, k);
                        }
                    }
                }
            },
        }
    }
}


impl SectionList {
    /// The sections, in increasing name order.
    pub fn into_items(self) -> (r: Vec<Section>)
        ensures
            sections_view(r@) == self.view_items(),
    {
        self.items
    }
}

// ───────────────────────── hierarchy ─────────────────────────

/// The name of the level at depth `i` below the workspace.
pub open spec fn level_name(i: int) -> Seq<char> {
    if i == 0 {
        "client"@
    } else if i == 1 {
        "project"@
    } else {
        "engagement"@
    }
}

/// Segments joined with `/`.
pub open spec fn join_segments(segs: Seq<Seq<char>>) -> Seq<char>
    decreases segs.len(),
{
    if segs.len() == 0 {
        Seq::empty()
    } else if segs.len() == 1 {
        segs[0]
    } else {
        join_segments(segs.drop_last()) + "/"@ + segs.last()
    }
}

/// The levels searched for sections of a target, as (level name, path
/// relative to the workspace): each prefix of the target's path, from the
/// client down, then the workspace itself (the empty path).
pub open spec fn levels_spec(rel: Seq<char>) -> Seq<(Seq<char>, Seq<char>)> {
    let segs = path_segments(rel);
    Seq::new(segs.len(), |i: int| (level_name(i), join_segments(segs.take(i + 1)))).push(("workspace"@, Seq::empty()))
}

pub open spec fn levels_view(v: Seq<(&'static str, String)>) -> Seq<(Seq<char>, Seq<char>)> {
    v.map_values(|l: (&'static str, String)| (l.0@, l.1@))
}

/// The levels searched for the sections of the entity at `rel` (a path
/// relative to the workspace).
pub fn hierarchy_levels(rel: &str) -> (r: Vec<(&'static str, String)>)
    ensures
        levels_view(r@) == levels_spec(rel@),
{
    let segs = segments_of(rel);
    let ghost sg = path_segments(rel@);
    let mut out: Vec<(&'static str, String)> = Vec::new();
    let mut cur = String::new();
    let mut i: usize = 0;
    while i < segs.len()
        invariant
            i <= segs@.len() == sg.len(),
            sg == path_segments(rel@),
            forall|j: int| 0 <= j < segs@.len() ==> (#[trigger] segs@[j])@ == sg[j],
            out@.len() == i,
            forall|j: int| 0 <= j < i ==> (#[trigger] levels_view(out@)[j]) == (level_name(j), join_segments(sg.take(j + 1))),
            cur@ == join_segments(sg.take(i as int)),
        decreases segs.len() - i,
    {
        if i > 0 {
            cur.append("/");
        }
        let seg = string_of(&segs[i]);
        cur.append(seg.as_str());
        proof {
            let t = sg.take(i + 1);
            assert(t.drop_last() =~= sg.take(i as int));
            assert(t.last() == sg[i as int]);
            if i == 0 {
                assert(t.len() == 1);
            }
        }
        let name: &'static str = if i == 0 {
            "client"
        } else if i == 1 {
            "project"
        } else {
            "engagement"
        };
        let ghost before = levels_view(out@);
        out.push((name, cur.clone()));
        assert(levels_view(out@) =~= before.push((name@, cur@)));
        i = i + 1;
    }
    let ghost before = levels_view(out@);
    let w = String::new();
    out.push(("workspace", w));
    assert(before =~= Seq::new(sg.len(), |i: int| (level_name(i), join_segments(sg.take(i + 1)))));
    assert(levels_view(out@) =~= before.push(("workspace"@, w@)));
    assert(w@ =~= Seq::<char>::empty());
    out
}

// ───────────────────────── include and exclude lists ─────────────────────────

/// The items of a comma-separated list, trimmed, empty ones left out.
pub open spec fn list_items(s: Seq<char>) -> Seq<Seq<char>> {
    nonempty(split_on(s, ',').map_values(|x: Seq<char>| trim(x)))
}

/// Splits a comma-separated list of section names.
pub fn split_list(s: &str) -> (r: Vec<String>)
    ensures
        r@.len() == list_items(s@).len(),
        forall|i: int| 0 <= i < r@.len() ==> (#[trigger] r@[i])@ == list_items(s@)[i],
{
    let parts = split_chars(&chars_of(s), ',');
    let ghost p = split_on(s@, ',').map_values(|x: Seq<char>| trim(x));
    let mut out: Vec<String> = Vec::new();
    let mut i: usize = 0;
    while i < parts.len()
        invariant
            i <= parts@.len(),
            parts@.len() == split_on(s@, ',').len() == p.len(),
            p == split_on(s@, ',').map_values(|x: Seq<char>| trim(x)),
            forall|j: int| 0 <= j < parts@.len() ==> (#[trigger] parts@[j])@ == split_on(s@, ',')[j],
            out@.len() == nonempty(p.take(i as int)).len(),
            forall|j: int| 0 <= j < out@.len() ==> (#[trigger] out@[j])@ == nonempty(p.take(i as int))[j],
        decreases parts.len() - i,
    {
        let t = trim_str(string_of(&parts[i]).as_str());
        assert(p.take(i + 1).drop_last() =~= p.take(i as int));
        assert(p.take(i + 1).last() == p[i as int]);
        assert(p[i as int] == trim(split_on(s@, ',')[i as int]));
        if chars_of(t.as_str()).len() > 0 {
            out.push(t);
        }
        i = i + 1;
    }
    assert(p.take(parts.len() as int) =~= p);
    out
}

// ───────────────────────── sections by path ─────────────────────────

/// `type_and_name` split at its first `/`: (type, name); without a `/` the
/// type is empty and the whole is the name.
pub fn section_path_parts(type_and_name: &str) -> (r: (String, String))
    ensures
        (forall|j: int| 0 <= j < type_and_name@.len() ==> type_and_name@[j] != '/') ==> (r.0@ == Seq::<char>::empty() && r.1@ == type_and_name@),
        (exists|j: int| 0 <= j < type_and_name@.len() && type_and_name@[j] == '/') ==> exists|i: int|
            0 <= i < type_and_name@.len() && type_and_name@[i] == '/' && (forall|j: int| 0 <= j < i ==> type_and_name@[j] != '/')
                && r.0@ == type_and_name@.take(i) && r.1@ == type_and_name@.skip(i + 1),
{
    let v = chars_of(type_and_name);
    let mut i: usize = 0;
    while i < v.len()
        invariant
            i <= v@.len(),
            v@ == type_and_name@,
            forall|j: int| 0 <= j < i ==> v@[j] != '/',
        decreases v.len() - i,
    {
        if v[i] == '/' {
            let mut a: Vec<char> = Vec::new();
            let mut k: usize = 0;
            while k < i
                invariant
                    k <= i < v@.len(),
                    a@ == v@.take(k as int),
                decreases i - k,
            {
                a.push(v[k]);
                k = k + 1;
                assert(a@ =~= v@.take(k as int));
            }
            let mut b: Vec<char> = Vec::new();
            let mut k: usize = i + 1;
            while k < v.len()
                invariant
                    i + 1 <= k <= v@.len(),
                    b@ == v@.subrange(i + 1, k as int),
                decreases v.len() - k,
            {
                b.push(v[k]);
                k = k + 1;
                assert(b@ =~= v@.subrange(i + 1, k as int));
            }
            assert(b@ =~= v@.skip(i + 1));
            return (string_of(&a), string_of(&b));
        }
        i = i + 1;
    }
    (String::new(), lit(type_and_name))
}

/// The name a section loaded by path is kept under: the name alone, or
/// `<type>_<name>`.
pub fn section_display_name(type_dir: &str, name: &str) -> (r: String)
    ensures
        r@ == (if type_dir@.len() == 0 { name@ } else { type_dir@ + "_"@ + name@ }),
{
    if chars_of(type_dir).len() == 0 {
        lit(name)
    } else {
        let mut r = lit(type_dir);
        r.append("_");
        r.append(name);
        r
    }
}

/// The file, relative to a level's `docs/` directory, that holds a section
/// given by type and name: `<type>/<name>.md`; for a bare name,
/// `common/<name>.md` where that exists, else `<name>.md`.
pub fn section_candidate(type_dir: &str, name: &str, common_exists: bool) -> (r: String)
    ensures
        r@ == (if type_dir@.len() > 0 {
            type_dir@ + "/"@ + name@ + ".md"@
        } else if common_exists {
            "common/"@ + name@ + ".md"@
        } else {
            name@ + ".md"@
        }),
{
    if chars_of(type_dir).len() > 0 {
        let mut r = lit(type_dir);
        r.append("/");
        r.append(name);
        r.append(".md");
        r
    } else if common_exists {
        let mut r = lit("common/");
        r.append(name);
        r.append(".md");
        r
    } else {
        let mut r = lit(name);
        r.append(".md");
        r
    }
}

/// The relative file of the bare-name section under `common/`.
pub fn common_candidate(name: &str) -> (r: String)
    ensures
        r@ == "common/"@ + name@ + ".md"@,
{
    let mut r = lit("common/");
    r.append(name);
    r.append(".md");
    r
}

/// Whether an include item names a section by type and name.
pub fn is_typed_item(item: &str) -> (r: bool)
    ensures
        r == exists|j: int| 0 <= j < item@.len() && item@[j] == '/',
{
    has_char(&chars_of(item), '/')
}


impl SectionList {
    /// Keeps `sec` unless a section of the same name is already kept.
    pub fn insert_if_absent(&mut self, sec: Section)
        requires
            old(self).wf(),
        ensures
            final(self).wf(),
            forall|k: Seq<char>| #[trigger] lookup(final(self).view_items(), k) == (if k == sec.name@ && lookup(old(self).view_items(), k) is None {
                Some(section_view(sec).1)
            } else {
                lookup(old(self).view_items(), k)
            }),
    {
        let ghost old_s = self.view_items();
        if self.contains_name(sec.name.as_str()) {
            proof {
                lemma_lookup_some(old_s, sec.name@);
            }
        } else {
            proof {
                lemma_lookup_absent(old_s, sec.name@);
            }
            self.insert(sec);
        }
    }
}

/// Among levels searched in order, the first section found under a name is
/// the one kept: once a name is kept, keeping another section of that name
/// if absent changes nothing of it.
pub proof fn law_first_section_wins(
    before: Seq<(Seq<char>, (Seq<char>, Seq<char>, Seq<char>))>,
    after: Seq<(Seq<char>, (Seq<char>, Seq<char>, Seq<char>))>,
    sec: (Seq<char>, (Seq<char>, Seq<char>, Seq<char>)),
)
    requires
        forall|k: Seq<char>| #[trigger] lookup(after, k) == (if k == sec.0 && lookup(before, k) is None {
            Some(sec.1)
        } else {
            lookup(before, k)
        }),
    ensures
        lookup(before, sec.0) is Some ==> lookup(after, sec.0) == lookup(before, sec.0),
        lookup(before, sec.0) is None ==> lookup(after, sec.0) == Some(sec.1),
        forall|k: Seq<char>| k != sec.0 ==> #[trigger] lookup(after, k) == lookup(before, k),
{
    assert(lookup(after, sec.0) == (if lookup(before, sec.0) is None { Some(sec.1) } else { lookup(before, sec.0) }));
}

} // verus!
