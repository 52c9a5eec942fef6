//! Methodology checklists: track test-case coverage during engagements.

use crate::text::{chars_eq, chars_of, eq_lit, lit};
use crate::workspace::WorkspaceError;
use vstd::prelude::*;

verus! {

/// A built-in checklist definition.
pub struct ChecklistDef {
    pub checklist: ChecklistMeta,
    pub categories: Vec<ChecklistCategory>,
}

pub struct ChecklistMeta {
    pub name: String,
    pub version: String,
}

pub struct ChecklistCategory {
    pub name: String,
    pub id: String,
    pub items: Vec<ChecklistItemDef>,
}

pub struct ChecklistItemDef {
    pub id: String,
    pub name: String,
    pub description: String,
}

/// The checklist tracking of one engagement (`checklist.toml`).
pub struct ChecklistTracking {
    pub tracking: TrackingMeta,
    pub items: Vec<TrackingItem>,
}

pub struct TrackingMeta {
    pub checklist_name: String,
}

pub struct TrackingItem {
    pub id: String,
    pub status: String,
    pub finding_id: String,
    pub notes: String,
}

// ───────────────────────── views ─────────────────────────

/// An item as (id, name, description).
pub type ItemView = (Seq<char>, Seq<char>, Seq<char>);

/// A category as (name, id, items).
pub type CategoryView = (Seq<char>, Seq<char>, Seq<ItemView>);

pub open spec fn item_view(i: ChecklistItemDef) -> ItemView {
    (i.id@, i.name@, i.description@)
}

pub open spec fn category_view(c: ChecklistCategory) -> CategoryView {
    (c.name@, c.id@, c.items@.map_values(|i: ChecklistItemDef| item_view(i)))
}

/// A definition as (name, version, categories).
pub open spec fn def_view(d: ChecklistDef) -> (Seq<char>, Seq<char>, Seq<CategoryView>) {
    (
        d.checklist.name@,
        d.checklist.version@,
        d.categories@.map_values(|c: ChecklistCategory| category_view(c)),
    )
}

// ───────────────────────── statuses ─────────────────────────

/// The status an item starts with.
pub fn default_status() -> (r: String)
    ensures
        r@ == "not_started"@,
{
    lit("not_started")
}

/// The checklist item statuses.
pub open spec fn checklist_statuses() -> Seq<Seq<char>> {
    seq!["not_started"@, "in_progress"@, "tested"@, "not_applicable"@, "finding_created"@, "deferred"@]
}

/// Whether `status` is a checklist item status.
pub fn is_valid_checklist_status(status: &str) -> (r: bool)
    ensures
        r == checklist_statuses().contains(status@),
{
    let v = chars_of(status);
    let r = eq_lit(&v, "not_started") || eq_lit(&v, "in_progress") || eq_lit(&v, "tested")
        || eq_lit(&v, "not_applicable") || eq_lit(&v, "finding_created") || eq_lit(&v, "deferred");
    proof {
        let s = checklist_statuses();
        if r {
            if v@ == "not_started"@ { assert(s[0] == status@); }
            if v@ == "in_progress"@ { assert(s[1] == status@); }
            if v@ == "tested"@ { assert(s[2] == status@); }
            if v@ == "not_applicable"@ { assert(s[3] == status@); }
            if v@ == "finding_created"@ { assert(s[4] == status@); }
            if v@ == "deferred"@ { assert(s[5] == status@); }
        }
    }
    r
}

/// Statuses that count as covered: tested, finding created, not applicable.
pub open spec fn is_covered(status: Seq<char>) -> bool {
    status == "tested"@ || status == "finding_created"@ || status == "not_applicable"@
}

/// The number of covered items among the first `n`.
pub open spec fn covered_prefix(items: Seq<TrackingItem>, n: int) -> nat
    decreases n,
{
    if n <= 0 {
        0
    } else {
        covered_prefix(items, n - 1) + if is_covered(items[n - 1].status@) { 1nat } else { 0nat }
    }
}

proof fn lemma_covered_prefix_bound(items: Seq<TrackingItem>, n: int)
    requires
        0 <= n,
    ensures
        covered_prefix(items, n) <= n,
    decreases n,
{
    if n > 0 {
        lemma_covered_prefix_bound(items, n - 1);
    }
}

/// How many items are covered (the numerator of the coverage percentage).
pub fn covered_count(tracking: &ChecklistTracking) -> (r: usize)
    ensures
        r == covered_prefix(tracking.items@, tracking.items@.len() as int),
        r <= tracking.items@.len(),
{
    let mut n: usize = 0;
    let mut i: usize = 0;
    while i < tracking.items.len()
        invariant
            i <= tracking.items@.len(),
            n == covered_prefix(tracking.items@, i as int),
            n <= i,
        decreases tracking.items.len() - i,
    {
        let v = chars_of(tracking.items[i].status.as_str());
        if eq_lit(&v, "tested") || eq_lit(&v, "finding_created") || eq_lit(&v, "not_applicable") {
            n = n + 1;
        }
        i = i + 1;
    }
    n
}

// ───────────────────────── built-in checklists ─────────────────────────

/// The names of the built-in checklists.
pub fn list_builtin_checklists() -> (r: Vec<&'static str>)
    ensures
        r@.len() == 1,
        r@[0]@ == "owasp-wstg"@,
{
    let mut v: Vec<&'static str> = Vec::new();
    v.push("owasp-wstg");
    v
}

/// A built-in checklist by name: `owasp-wstg` is the only one.
pub fn get_builtin_checklist(name: &str) -> (r: Option<ChecklistDef>)
    ensures
        r.is_some() <==> name@ == "owasp-wstg"@,
        r matches Some(d) ==> def_view(d) == wstg_spec(),
{
    let v = chars_of(name);
    if eq_lit(&v, "owasp-wstg") {
        Some(owasp_wstg_subset())
    } else {
        None
    }
}

pub open spec fn wstg_info() -> Seq<ItemView> {
    seq![
        ("WSTG-INFO-01"@, "Conduct Search Engine Discovery"@, "Test for information leakage in search engines"@),
        ("WSTG-INFO-02"@, "Fingerprint Web Server"@, "Identify web server technology"@),
        ("WSTG-INFO-03"@, "Review Webserver Metafiles"@, "Check robots.txt, sitemap.xml"@),
        ("WSTG-INFO-04"@, "Enumerate Applications on Webserver"@, "Find all apps hosted on the server"@),
        ("WSTG-INFO-05"@, "Review Webpage Content for Information Leakage"@, "Check HTML comments, source code"@),
    ]
}

pub open spec fn wstg_conf() -> Seq<ItemView> {
    seq![
        ("WSTG-CONF-01"@, "Test Network Infrastructure Configuration"@, "Check network layer config"@),
        ("WSTG-CONF-02"@, "Test Application Platform Configuration"@, "Check app server config"@),
        ("WSTG-CONF-03"@, "Test File Permissions"@, "Check sensitive file access"@),
        ("WSTG-CONF-04"@, "Test for Old Backup and Unreferenced Files"@, "Find backup files"@),
        ("WSTG-CONF-05"@, "Enumerate Infrastructure and Application Admin Interfaces"@, "Find admin panels"@),
    ]
}

pub open spec fn wstg_idm() -> Seq<ItemView> {
    seq![
        ("WSTG-IDM-01"@, "Test User Registration Process"@, "Check registration for weaknesses"@),
        ("WSTG-IDM-02"@, "Test Account Suspension and Deletion"@, "Verify account lifecycle"@),
        ("WSTG-IDM-03"@, "Test Account Enumeration and Guessable User Account"@, "Check for user enumeration"@),
        ("WSTG-IDM-04"@, "Test for Weak or Unenforced Username Policy"@, "Check username rules"@),
        ("WSTG-IDM-05"@, "Test for Weak Password Policy"@, "Check password requirements"@),
    ]
}

/// The OWASP WSTG v4.2 subset: fifteen items in three categories.
pub open spec fn wstg_spec() -> (Seq<char>, Seq<char>, Seq<CategoryView>) {
    (
        "OWASP WSTG v4.2"@,
        "4.2"@,
        seq![
            ("Information Gathering"@, "WSTG-INFO"@, wstg_info()),
            ("Configuration and Deploy Management Testing"@, "WSTG-CONF"@, wstg_conf()),
            ("Identity Management Testing"@, "WSTG-IDM"@, wstg_idm()),
        ],
    )
}

fn item(id: &str, name: &str, description: &str) -> (r: ChecklistItemDef)
    ensures
        item_view(r) == (id@, name@, description@),
{
    ChecklistItemDef { id: lit(id), name: lit(name), description: lit(description) }
}

fn category(name: &str, id: &str, items: Vec<ChecklistItemDef>) -> (r: ChecklistCategory)
    ensures
        category_view(r) == (name@, id@, items@.map_values(|i: ChecklistItemDef| item_view(i))),
{
    ChecklistCategory { name: lit(name), id: lit(id), items }
}

fn five_items(
    a: ChecklistItemDef,
    b: ChecklistItemDef,
    c: ChecklistItemDef,
    d: ChecklistItemDef,
    e: ChecklistItemDef,
) -> (r: Vec<ChecklistItemDef>)
    ensures
        r@.map_values(|i: ChecklistItemDef| item_view(i)) == seq![
            item_view(a),
            item_view(b),
            item_view(c),
            item_view(d),
            item_view(e),
        ],
{
    let mut v: Vec<ChecklistItemDef> = Vec::new();
    v.push(a);
    v.push(b);
    v.push(c);
    v.push(d);
    v.push(e);
    assert(v@.map_values(|i: ChecklistItemDef| item_view(i)) =~= seq![
        item_view(a),
        item_view(b),
        item_view(c),
        item_view(d),
        item_view(e),
    ]);
    v
}

/// The OWASP WSTG v4.2 subset used as the built-in `owasp-wstg` checklist.
pub fn owasp_wstg_subset() -> (r: ChecklistDef)
    ensures
        def_view(r) == wstg_spec(),
{
    let info = five_items(
        item("WSTG-INFO-01", "Conduct Search Engine Discovery", "Test for information leakage in search engines"),
        item("WSTG-INFO-02", "Fingerprint Web Server", "Identify web server technology"),
        item("WSTG-INFO-03", "Review Webserver Metafiles", "Check robots.txt, sitemap.xml"),
        item("WSTG-INFO-04", "Enumerate Applications on Webserver", "Find all apps hosted on the server"),
        item("WSTG-INFO-05", "Review Webpage Content for Information Leakage", "Check HTML comments, source code"),
    );
    let conf = five_items(
        item("WSTG-CONF-01", "Test Network Infrastructure Configuration", "Check network layer config"),
        item("WSTG-CONF-02", "Test Application Platform Configuration", "Check app server config"),
        item("WSTG-CONF-03", "Test File Permissions", "Check sensitive file access"),
        item("WSTG-CONF-04", "Test for Old Backup and Unreferenced Files", "Find backup files"),
        item("WSTG-CONF-05", "Enumerate Infrastructure and Application Admin Interfaces", "Find admin panels"),
    );
    let idm = five_items(
        item("WSTG-IDM-01", "Test User Registration Process", "Check registration for weaknesses"),
        item("WSTG-IDM-02", "Test Account Suspension and Deletion", "Verify account lifecycle"),
        item("WSTG-IDM-03", "Test Account Enumeration and Guessable User Account", "Check for user enumeration"),
        item("WSTG-IDM-04", "Test for Weak or Unenforced Username Policy", "Check username rules"),
        item("WSTG-IDM-05", "Test for Weak Password Policy", "Check password requirements"),
    );
    let c1 = category("Information Gathering", "WSTG-INFO", info);
    let c2 = category("Configuration and Deploy Management Testing", "WSTG-CONF", conf);
    let c3 = category("Identity Management Testing", "WSTG-IDM", idm);
    let mut cats: Vec<ChecklistCategory> = Vec::new();
    cats.push(c1);
    cats.push(c2);
    cats.push(c3);
    let r = ChecklistDef {
        checklist: ChecklistMeta { name: lit("OWASP WSTG v4.2"), version: lit("4.2") },
        categories: cats,
    };
    assert(r.categories@.map_values(|c: ChecklistCategory| category_view(c)) =~= wstg_spec().2);
    r
}

// ───────────────────────── tracking ─────────────────────────

/// The item IDs of a definition, category by category.
pub open spec fn def_item_ids(cats: Seq<CategoryView>) -> Seq<Seq<char>>
    decreases cats.len(),
{
    if cats.len() == 0 {
        Seq::empty()
    } else {
        def_item_ids(cats.drop_last()) + cats.last().2.map_values(|i: ItemView| i.0)
    }
}

/// The tracking file for a checklist assigned to an engagement: one item per
/// definition item, in order, each `not_started` with no finding and no notes.
pub fn new_tracking(checklist_name: &str, def: &ChecklistDef) -> (r: ChecklistTracking)
    ensures
        r.tracking.checklist_name@ == checklist_name@,
        r.items@.map_values(|t: TrackingItem| t.id@) == def_item_ids(def_view(*def).2),
        forall|k: int| 0 <= k < r.items@.len() ==> (#[trigger] r.items@[k]).status@ == "not_started"@
            && r.items@[k].finding_id@.len() == 0 && r.items@[k].notes@.len() == 0,
{
    let ghost cats = def_view(*def).2;
    let mut items: Vec<TrackingItem> = Vec::new();
    let mut c: usize = 0;
    assert(cats.take(0) =~= Seq::<CategoryView>::empty());
    while c < def.categories.len()
        invariant
            c <= def.categories@.len(),
            cats == def_view(*def).2,
            items@.map_values(|t: TrackingItem| t.id@) == def_item_ids(cats.take(c as int)),
            forall|k: int| 0 <= k < items@.len() ==> (#[trigger] items@[k]).status@ == "not_started"@
                && items@[k].finding_id@.len() == 0 && items@[k].notes@.len() == 0,
        decreases def.categories.len() - c,
    {
        let cat = &def.categories[c];
        let ghost before = items@.map_values(|t: TrackingItem| t.id@);
        let ghost cat_ids = category_view(*cat).2.map_values(|i: ItemView| i.0);
        let mut k: usize = 0;
        while k < cat.items.len()
            invariant
                k <= cat.items@.len(),
                cat_ids == category_view(*cat).2.map_values(|i: ItemView| i.0),
                items@.map_values(|t: TrackingItem| t.id@) == before + cat_ids.take(k as int),
                forall|j: int| 0 <= j < items@.len() ==> (#[trigger] items@[j]).status@ == "not_started"@
                    && items@[j].finding_id@.len() == 0 && items@[j].notes@.len() == 0,
            decreases cat.items.len() - k,
        {
            let t = TrackingItem {
                id: lit(cat.items[k].id.as_str()),
                status: default_status(),
                finding_id: String::new(),
                notes: String::new(),
            };
            let ghost prev = items@;
            items.push(t);
            assert(items@.map_values(|t: TrackingItem| t.id@) =~= prev.map_values(|t: TrackingItem| t.id@).push(t.id@));
            assert(cat_ids.take(k + 1) =~= cat_ids.take(k as int).push(cat_ids[k as int]));
            k = k + 1;
        }
        assert(cat_ids.take(k as int) =~= cat_ids);
        assert(cats.take(c + 1).drop_last() =~= cats.take(c as int));
        assert(cats.take(c + 1).last() == category_view(*cat));
        c = c + 1;
    }
    assert(cats.take(c as int) =~= cats);
    ChecklistTracking { tracking: TrackingMeta { checklist_name: lit(checklist_name) }, items }
}

/// The index of the first item with the given ID.
pub fn find_item(items: &Vec<TrackingItem>, item_id: &str) -> (r: Option<usize>)
    ensures
        match r {
            Some(i) => i < items@.len() && items@[i as int].id@ == item_id@ && forall|j: int|
                0 <= j < i ==> (#[trigger] items@[j]).id@ != item_id@,
            None => forall|j: int| 0 <= j < items@.len() ==> (#[trigger] items@[j]).id@ != item_id@,
        },
{
    let want = chars_of(item_id);
    let mut i: usize = 0;
    while i < items.len()
        invariant
            i <= items@.len(),
            want@ == item_id@,
            forall|j: int| 0 <= j < i ==> (#[trigger] items@[j]).id@ != item_id@,
        decreases items.len() - i,
    {
        let v = chars_of(items[i].id.as_str());
        if chars_eq(&v, &want) {
            return Some(i);
        }
        i = i + 1;
    }
    None
}

/// Sets the status of the first item with the given ID. An unknown status
/// is an `InvalidStatusSeverity` error and an unknown item `NotFound`; on
/// error the tracking is unchanged.
pub fn set_item_status(tracking: &mut ChecklistTracking, item_id: &str, status: &str) -> (r: Result<(), WorkspaceError>)
    ensures
        !checklist_statuses().contains(status@) ==> (r matches Err(WorkspaceError::InvalidStatusSeverity(m)) && m@ == "'"@
            + status@ + "' is not a valid checklist status. Use: not_started, in_progress, tested, not_applicable, finding_created, deferred."@),
        checklist_statuses().contains(status@) && (forall|j: int| 0 <= j < old(tracking).items@.len()
            ==> (#[trigger] old(tracking).items@[j]).id@ != item_id@) ==> (r matches Err(WorkspaceError::NotFound(p))
            && p@ == item_id@),
        r is Err ==> final(tracking).items@ == old(tracking).items@,
        r is Ok ==> checklist_statuses().contains(status@) && exists|i: int|
            0 <= i < old(tracking).items@.len() && old(tracking).items@[i].id@ == item_id@
            && (forall|j: int| 0 <= j < i ==> (#[trigger] old(tracking).items@[j]).id@ != item_id@)
            && final(tracking).items@.len() == old(tracking).items@.len()
            && final(tracking).items@[i].status@ == status@
            && final(tracking).items@[i].id@ == old(tracking).items@[i].id@
            && final(tracking).items@[i].finding_id@ == old(tracking).items@[i].finding_id@
            && final(tracking).items@[i].notes@ == old(tracking).items@[i].notes@
            && forall|j: int| 0 <= j < old(tracking).items@.len() && j != i ==> (#[trigger] final(tracking).items@[j]) == old(tracking).items@[j],
        final(tracking).tracking.checklist_name@ == old(tracking).tracking.checklist_name@,
{
    if !is_valid_checklist_status(status) {
        let mut m = lit("'");
        m.append(status);
        m.append("' is not a valid checklist status. Use: not_started, in_progress, tested, not_applicable, finding_created, deferred.");
        return Err(WorkspaceError::InvalidStatusSeverity(m));
    }
    match find_item(&tracking.items, item_id) {
        None => Err(WorkspaceError::NotFound(lit(item_id))),
        Some(i) => {
            tracking.items[i].status = lit(status);
            Ok(())
        },
    }
}

/// Links a finding to the first item with the given ID; an item not yet
/// started becomes `finding_created`. An unknown item is `NotFound`.
pub fn link_item_finding(tracking: &mut ChecklistTracking, item_id: &str, finding_id: &str) -> (r: Result<(), WorkspaceError>)
    ensures
        (forall|j: int| 0 <= j < old(tracking).items@.len() ==> (#[trigger] old(tracking).items@[j]).id@
            != item_id@) <==> r is Err,
        r is Err ==> (r matches Err(WorkspaceError::NotFound(p)) && p@ == item_id@),
        r is Err ==> final(tracking).items@ == old(tracking).items@,
        r is Ok ==> exists|i: int|
            0 <= i < old(tracking).items@.len() && old(tracking).items@[i].id@ == item_id@
            && (forall|j: int| 0 <= j < i ==> (#[trigger] old(tracking).items@[j]).id@ != item_id@)
            && final(tracking).items@.len() == old(tracking).items@.len()
            && final(tracking).items@[i].finding_id@ == finding_id@
            && final(tracking).items@[i].status@ == (if old(tracking).items@[i].status@ == "not_started"@ {
                "finding_created"@
            } else {
                old(tracking).items@[i].status@
            })
            && final(tracking).items@[i].id@ == old(tracking).items@[i].id@
            && final(tracking).items@[i].notes@ == old(tracking).items@[i].notes@
            && forall|j: int| 0 <= j < old(tracking).items@.len() && j != i ==> (#[trigger] final(tracking).items@[j]) == old(tracking).items@[j],
        final(tracking).tracking.checklist_name@ == old(tracking).tracking.checklist_name@,
{
    match find_item(&tracking.items, item_id) {
        None => Err(WorkspaceError::NotFound(lit(item_id))),
        Some(i) => {
            tracking.items[i].finding_id = lit(finding_id);
            let v = chars_of(tracking.items[i].status.as_str());
            if eq_lit(&v, "not_started") {
                tracking.items[i].status = lit("finding_created");
            }
            Ok(())
        },
    }
}

} // verus!
