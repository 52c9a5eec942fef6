//! Entity model for clients, projects and engagements.
//!
//! Every entity is a directory with a `config.toml`; depth 1 is a client,
//! depth 2 a project and depth 3 an engagement.

use crate::text::{all_digits, strings_view, byte_len, chars_of, concat, copy_string, eq_lit, first_chars, lit, one_of, split_chars, split_on, str_eq, str_len, string_of, to_uppercase, uppercase, zero_padded, zero_padded_string, char_is_ascii_digit, is_ascii_digit};
use crate::workspace::{kind_of, name_check, name_error_detail, validate_name, WorkspaceError};
use vstd::prelude::*;

verus! {

// ───────────────────────── built-in config templates ─────────────────────────

/// Built-in workspace `config.toml`.
pub const WORKSPACE_CONFIG_TEMPLATE: &'static str = "[workspace]\nversion = 1\nname = \"workspace\"\ncreated = \"\"\nrequire_credentials_ready = false\n\n[workspace.defaults]\nseverity = \"\"\nstatus = \"\"\nreport_format = \"\"\nsow_format = \"\"\n";

/// Built-in client `config.toml`.
pub const CLIENT_CONFIG_TEMPLATE: &'static str = "version = 1\n\n[client]\nstatus = \"active\"\npriority = \"medium\"\nemail = \"\"\nphone = \"\"\ntags = []\ncreated = \"\"\nupdated = \"\"\ncontacts = []\n\n[client.id]\nprefix = \"TEST\"\n\n[client.defaults]\nseverity = \"\"\nstatus = \"\"\nreport_format = \"\"\nsow_format = \"\"\n\n[client.report]\ntemplate = \"\"\ninclude_findings = \"\"\nexclude_status = []\n\n[client.sow]\ntemplate = \"\"\ninclude_requirements = \"\"\ninclude_scope = \"\"\nsections = []\n";

/// Built-in project `config.toml`.
pub const PROJECT_CONFIG_TEMPLATE: &'static str = "version = 1\n\n[project]\nabbreviation = \"GEN\"\nstatus = \"active\"\npriority = \"medium\"\nstart_date = \"\"\nend_date = \"\"\ntags = []\n\n[project.id]\nsequence = 1\npadding = 3\nrequirement_sequence = 1\n\n[project.defaults]\nseverity = \"\"\nstatus = \"\"\nreport_format = \"\"\nsow_format = \"\"\n\n[project.report]\ntemplate = \"\"\ninclude_findings = \"\"\nexclude_status = []\n\n[project.sow]\ntemplate = \"\"\ninclude_requirements = \"\"\ninclude_scope = \"\"\nsections = []\n";

/// Built-in engagement `config.toml`.
pub const ENGAGEMENT_CONFIG_TEMPLATE: &'static str = "version = 1\n\n[engagement]\ntype = \"assessment\"\nstatus = \"draft\"\nstart_date = \"\"\nend_date = \"\"\ncredentials_ready = false\noriginal_engagement = \"\"\n";

/// The built-in config template for an entity type: `workspace`, `client`,
/// `project` or `engagement`; `None` for any other name.
pub fn builtin_config_template(entity_type: &str) -> (r: Option<&'static str>)
    ensures
        entity_type@ == "workspace"@ ==> r == Some(WORKSPACE_CONFIG_TEMPLATE),
        entity_type@ == "client"@ ==> r == Some(CLIENT_CONFIG_TEMPLATE),
        entity_type@ == "project"@ ==> r == Some(PROJECT_CONFIG_TEMPLATE),
        entity_type@ == "engagement"@ ==> r == Some(ENGAGEMENT_CONFIG_TEMPLATE),
        r.is_none() <==> !(entity_type@ == "workspace"@ || entity_type@ == "client"@
            || entity_type@ == "project"@ || entity_type@ == "engagement"@),
{
    let v = chars_of(entity_type);
    proof {
        reveal_strlit("workspace");
        reveal_strlit("client");
        reveal_strlit("project");
        reveal_strlit("engagement");
        assert("workspace"@.len() == 9);
        assert("client"@.len() == 6);
        assert("project"@.len() == 7);
        assert("engagement"@.len() == 10);
    }
    if eq_lit(&v, "workspace") {
        Some(WORKSPACE_CONFIG_TEMPLATE)
    } else if eq_lit(&v, "client") {
        Some(CLIENT_CONFIG_TEMPLATE)
    } else if eq_lit(&v, "project") {
        Some(PROJECT_CONFIG_TEMPLATE)
    } else if eq_lit(&v, "engagement") {
        Some(ENGAGEMENT_CONFIG_TEMPLATE)
    } else {
        None
    }
}

// ───────────────────────── entity types ─────────────────────────

/// Entity types, told apart by their `config.toml` section.
#[derive(PartialEq, Eq, Structural, Clone, Copy, Debug)]
pub enum EntityType {
    Client,
    Project,
    Engagement,
}

impl EntityType {
    /// The `config.toml` section that marks the entity.
    pub fn section_name(&self) -> (r: &'static str)
        ensures
            r@ == match *self {
                EntityType::Client => "client"@,
                EntityType::Project => "project"@,
                EntityType::Engagement => "engagement"@,
            },
    {
        match self {
            EntityType::Client => "client",
            EntityType::Project => "project",
            EntityType::Engagement => "engagement",
        }
    }

    /// The entity type at a directory depth below the workspace root.
    pub fn from_depth(depth: usize) -> (r: Option<EntityType>)
        ensures
            r == (if depth == 1 {
                Some(EntityType::Client)
            } else if depth == 2 {
                Some(EntityType::Project)
            } else if depth == 3 {
                Some(EntityType::Engagement)
            } else {
                None
            }),
    {
        if depth == 1 {
            Some(EntityType::Client)
        } else if depth == 2 {
            Some(EntityType::Project)
        } else if depth == 3 {
            Some(EntityType::Engagement)
        } else {
            None
        }
    }
}

// ───────────────────────── config files ─────────────────────────

/// Client `config.toml` content.
pub struct ClientConfig {
    pub client: ClientSection,
    pub version: u32,
}

pub struct ClientSection {
    pub status: String,
    pub priority: String,
    pub email: String,
    pub phone: String,
    pub tags: Vec<String>,
    pub created: String,
    pub updated: String,
    pub id: Option<ClientIdSection>,
    pub defaults: DefaultsSection,
    pub report: ReportSettings,
    pub sow: SowSettings,
    pub contacts: Vec<Contact>,
}

/// Defaults shared by workspace, client and project configs; an empty
/// value means "not set here".
pub struct DefaultsSection {
    pub severity: String,
    pub status: String,
    pub report_format: String,
    pub sow_format: String,
}

impl DefaultsSection {
    pub open spec fn is_empty(&self) -> bool {
        self.severity@.len() == 0 && self.status@.len() == 0 && self.report_format@.len() == 0
            && self.sow_format@.len() == 0
    }

    /// A section that sets nothing.
    pub fn empty() -> (d: DefaultsSection)
        ensures
            d.is_empty(),
    {
        DefaultsSection {
            severity: String::new(),
            status: String::new(),
            report_format: String::new(),
            sow_format: String::new(),
        }
    }
}

/// Report settings of client and project configs.
pub struct ReportSettings {
    pub template: String,
    pub include_findings: String,
    pub exclude_status: Vec<String>,
}

impl ReportSettings {
    pub fn empty() -> (r: ReportSettings)
        ensures
            r.template@.len() == 0,
            r.include_findings@.len() == 0,
            r.exclude_status@.len() == 0,
    {
        ReportSettings { template: String::new(), include_findings: String::new(), exclude_status: Vec::new() }
    }
}

/// Statement-of-work settings of client and project configs.
pub struct SowSettings {
    pub template: String,
    pub include_requirements: String,
    pub include_scope: String,
    pub sections: Vec<String>,
}

impl SowSettings {
    pub fn empty() -> (r: SowSettings)
        ensures
            r.template@.len() == 0,
            r.include_requirements@.len() == 0,
            r.include_scope@.len() == 0,
            r.sections@.len() == 0,
    {
        SowSettings {
            template: String::new(),
            include_requirements: String::new(),
            include_scope: String::new(),
            sections: Vec::new(),
        }
    }
}

/// A contact of a client.
pub struct Contact {
    pub name: String,
    pub email: Option<String>,
    pub role: Option<String>,
    pub phone: Option<String>,
    pub is_primary: bool,
}

pub struct ClientIdSection {
    pub prefix: String,
}

impl ClientConfig {
    /// The configuration of a new client created on `today`: active, medium
    /// priority, ID prefix `TEST`, nothing else set.
    pub fn dated(today: &str) -> (c: ClientConfig)
        ensures
            c.version == 1,
            c.client.status@ == "active"@,
            c.client.priority@ == "medium"@,
            c.client.created@ == today@,
            c.client.updated@ == today@,
            c.client.id matches Some(id) && id.prefix@ == "TEST"@,
            c.client.defaults.is_empty(),
            c.client.tags@.len() == 0,
            c.client.contacts@.len() == 0,
    {
        ClientConfig {
            client: ClientSection {
                status: lit("active"),
                priority: lit("medium"),
                email: String::new(),
                phone: String::new(),
                tags: Vec::new(),
                created: lit(today),
                updated: lit(today),
                id: Some(ClientIdSection { prefix: lit("TEST") }),
                defaults: DefaultsSection::empty(),
                report: ReportSettings::empty(),
                sow: SowSettings::empty(),
                contacts: Vec::new(),
            },
            version: 1,
        }
    }
}

/// Project `config.toml` content.
pub struct ProjectConfig {
    pub project: ProjectSection,
    pub version: u32,
}

pub struct ProjectSection {
    pub abbreviation: String,
    pub status: String,
    pub priority: String,
    pub start_date: String,
    pub end_date: String,
    pub tags: Vec<String>,
    pub id: Option<ProjectIdSection>,
    pub defaults: DefaultsSection,
    pub report: ReportSettings,
    pub sow: SowSettings,
}

/// The ID counters of a project.
pub struct ProjectIdSection {
    pub sequence: u32,
    pub padding: u32,
    pub requirement_sequence: u32,
}

impl Default for ProjectConfig {
    /// A new project: abbreviation `GEN`, active, medium priority, counters
    /// at 1 with three-digit padding.
    fn default() -> (c: ProjectConfig)
        ensures
            c.version == 1,
            c.project.abbreviation@ == "GEN"@,
            c.project.status@ == "active"@,
            c.project.priority@ == "medium"@,
            c.project.id matches Some(id) && id.sequence == 1 && id.padding == 3
                && id.requirement_sequence == 1,
            c.project.defaults.is_empty(),
    {
        ProjectConfig {
            project: ProjectSection {
                abbreviation: lit("GEN"),
                status: lit("active"),
                priority: lit("medium"),
                start_date: String::new(),
                end_date: String::new(),
                tags: Vec::new(),
                id: Some(ProjectIdSection { sequence: 1, padding: 3, requirement_sequence: 1 }),
                defaults: DefaultsSection::empty(),
                report: ReportSettings::empty(),
                sow: SowSettings::empty(),
            },
            version: 1,
        }
    }
}

/// Engagement `config.toml` content.
pub struct EngagementConfig {
    pub engagement: EngagementSection,
    pub version: u32,
}

/// The `[engagement]` section; `engagement_type` is the `type` key.
pub struct EngagementSection {
    pub engagement_type: String,
    pub status: String,
    pub start_date: String,
    pub end_date: String,
    pub credentials_ready: bool,
    pub original_engagement: String,
}

impl Default for EngagementConfig {
    /// A new engagement: an assessment in draft, no dates, credentials not
    /// ready.
    fn default() -> (c: EngagementConfig)
        ensures
            c.version == 1,
            c.engagement.engagement_type@ == "assessment"@,
            c.engagement.status@ == "draft"@,
            c.engagement.start_date@.len() == 0,
            c.engagement.end_date@.len() == 0,
            !c.engagement.credentials_ready,
            c.engagement.original_engagement@.len() == 0,
    {
        EngagementConfig {
            engagement: EngagementSection {
                engagement_type: lit("assessment"),
                status: lit("draft"),
                start_date: String::new(),
                end_date: String::new(),
                credentials_ready: false,
                original_engagement: String::new(),
            },
            version: 1,
        }
    }
}

/// An engagement as listed for a client.
pub struct EngagementSummary {
    pub client: String,
    pub project: String,
    pub name: String,
    pub status: String,
    pub start_date: String,
    pub end_date: String,
}

// ───────────────────────── entity paths ─────────────────────────

/// Why an entity path is refused, or the segments it names.
pub open spec fn entity_segments_spec(path: Seq<char>) -> Option<Seq<Seq<char>>> {
    let segs = split_on(path, '/');
    if path.len() == 0 || path[0] == '/' || segs.len() > 3 {
        None
    } else if exists|i: int| 0 <= i < segs.len() && (#[trigger] name_check(segs[i])).is_some() {
        None
    } else {
        Some(segs)
    }
}

/// Splits a workspace-relative entity path (`client`, `client/project` or
/// `client/project/engagement`) into its names, checking each one. An empty
/// or absolute path is an `InvalidName` error, more than three segments is
/// `NotFound` and a bad segment gives that segment's name error.
pub fn entity_segments(path: &str) -> (r: Result<Vec<String>, WorkspaceError>)
    ensures
        r.is_ok() <==> entity_segments_spec(path@).is_some(),
        r matches Ok(v) ==> v@.len() == split_on(path@, '/').len() && forall|i: int|
            0 <= i < v@.len() ==> (#[trigger] v@[i])@ == split_on(path@, '/')[i],
        r matches Ok(v) ==> 1 <= v@.len() <= 3,
        (path@.len() == 0 || path@[0] == '/') ==> (r matches Err(WorkspaceError::InvalidName(m))
            && m@ == "Entity paths must be relative to the workspace."@),
        (path@.len() > 0 && path@[0] != '/' && split_on(path@, '/').len() <= 3 && r is Err) ==> exists|i: int|
            0 <= i < split_on(path@, '/').len() && (forall|j: int| 0 <= j < i ==> (#[trigger] name_check(split_on(path@, '/')[j])).is_none())
                && name_check(split_on(path@, '/')[i]).is_some() && kind_of(r->Err_0) == name_check(split_on(path@, '/')[i])
                && (match r->Err_0 {
                    WorkspaceError::InvalidName(m) => m@ == name_error_detail(split_on(path@, '/')[i]),
                    WorkspaceError::ReservedName(m) => m@ == name_error_detail(split_on(path@, '/')[i]),
                    _ => false,
                }),
        (path@.len() > 0 && path@[0] != '/' && split_on(path@, '/').len() > 3) ==> (r matches Err(
            WorkspaceError::NotFound(p),
        ) && p@ == path@),
{
    let v = chars_of(path);
    if v.len() == 0 || v[0] == '/' {
        return Err(WorkspaceError::InvalidName(lit("Entity paths must be relative to the workspace.")));
    }
    let parts = split_chars(&v, '/');
    if parts.len() > 3 {
        return Err(WorkspaceError::NotFound(lit(path)));
    }
    let mut out: Vec<String> = Vec::new();
    let mut i: usize = 0;
    while i < parts.len()
        invariant
            i <= parts@.len() <= 3,
            path@.len() > 0 && path@[0] != '/',
            parts@.len() == split_on(path@, '/').len(),
            v@ == path@,
            forall|j: int| 0 <= j < parts@.len() ==> (#[trigger] parts@[j])@ == split_on(path@, '/')[j],
            out@.len() == i,
            forall|j: int| 0 <= j < i ==> (#[trigger] out@[j])@ == split_on(path@, '/')[j],
            forall|j: int| 0 <= j < i ==> (#[trigger] name_check(split_on(path@, '/')[j])).is_none(),
        decreases parts.len() - i,
    {
        let seg = string_of(&parts[i]);
        match validate_name(seg.as_str()) {
            Ok(()) => {},
            Err(e) => {
                assert(name_check(split_on(path@, '/')[i as int]).is_some());
                assert(seg@ == split_on(path@, '/')[i as int]);
                return Err(e);
            },
        }
        out.push(seg);
        i = i + 1;
    }
    proof {
        crate::text::lemma_split_on_nonempty(path@, '/');
    }
    Ok(out)
}

// ───────────────────────── IDs ─────────────────────────

/// Takes the next finding number of a project: returns it zero-padded to
/// the project's padding and advances the counter.
pub fn next_sequence_id(id: &mut ProjectIdSection) -> (r: String)
    requires
        old(id).sequence < u32::MAX,
    ensures
        r@ == zero_padded(old(id).sequence as nat, old(id).padding as nat),
        final(id).sequence == old(id).sequence + 1,
        final(id).padding == old(id).padding,
        final(id).requirement_sequence == old(id).requirement_sequence,
{
    let r = zero_padded_string(id.sequence as u64, id.padding as usize);
    id.sequence = id.sequence + 1;
    r
}

/// Takes the next requirement number of a project: `REQ-` and the
/// zero-padded number, and advances the counter.
pub fn next_requirement_id(id: &mut ProjectIdSection) -> (r: String)
    requires
        old(id).requirement_sequence < u32::MAX,
    ensures
        r@ == "REQ-"@ + zero_padded(old(id).requirement_sequence as nat, old(id).padding as nat),
        final(id).requirement_sequence == old(id).requirement_sequence + 1,
        final(id).sequence == old(id).sequence,
        final(id).padding == old(id).padding,
{
    let n = zero_padded_string(id.requirement_sequence as u64, id.padding as usize);
    let r = concat("REQ-", n.as_str());
    id.requirement_sequence = id.requirement_sequence + 1;
    r
}

/// The abbreviation of a project name: the first three characters of its
/// first `_`-separated word, upper-cased.
pub open spec fn abbreviation_spec(project: Seq<char>) -> Seq<char> {
    uppercase(first_chars(split_on(project, '_')[0], 3))
}

/// Derives a project's ID abbreviation from its name; an empty result is an
/// `InvalidName` error.
pub fn project_abbreviation(project: &str) -> (r: Result<String, WorkspaceError>)
    ensures
        r matches Ok(a) ==> a@ == abbreviation_spec(project@) && a@.len() > 0,
        r is Err <==> abbreviation_spec(project@).len() == 0,
        r matches Err(e) ==> e matches WorkspaceError::InvalidName(_),
{
    let v = chars_of(project);
    let parts = split_chars(&v, '_');
    proof {
        crate::text::lemma_split_on_nonempty(project@, '_');
    }
    let first = string_of(&parts[0]);
    let head = crate::text::take_chars(&first, 3);
    let abbr = to_uppercase(head.as_str());
    let av = chars_of(abbr.as_str());
    if av.len() == 0 {
        return Err(WorkspaceError::InvalidName(lit("Could not generate abbreviation from project name")));
    }
    Ok(abbr)
}

// ───────────────────────── statuses and values ─────────────────────────

/// The engagement statuses.
pub open spec fn engagement_statuses() -> Seq<Seq<char>> {
    seq!["draft"@, "planned"@, "in_progress"@, "paused"@, "completed"@, "closed"@]
}

/// The finding statuses of the workspace files.
pub open spec fn finding_statuses() -> Seq<Seq<char>> {
    seq!["open"@, "fixed"@, "false_positive"@, "not_applicable"@, "risk_accepted"@]
}

/// The requirement statuses.
pub open spec fn requirement_statuses() -> Seq<Seq<char>> {
    seq!["open"@, "in_progress"@, "verified"@, "rejected"@, "deferred"@]
}

/// The severity levels.
pub open spec fn severities() -> Seq<Seq<char>> {
    seq!["critical"@, "high"@, "medium"@, "low"@, "informational"@]
}

/// Whether `status` is an engagement status.
pub fn is_valid_engagement_status(status: &str) -> (r: bool)
    ensures
        r == engagement_statuses().contains(status@),
{
    let v = chars_of(status);
    let r = eq_lit(&v, "draft") || eq_lit(&v, "planned") || eq_lit(&v, "in_progress") || eq_lit(
        &v,
        "paused",
    ) || eq_lit(&v, "completed") || eq_lit(&v, "closed");
    proof {
        let s = engagement_statuses();
        if r {
            if v@ == "draft"@ { assert(s[0] == status@); }
            if v@ == "planned"@ { assert(s[1] == status@); }
            if v@ == "in_progress"@ { assert(s[2] == status@); }
            if v@ == "paused"@ { assert(s[3] == status@); }
            if v@ == "completed"@ { assert(s[4] == status@); }
            if v@ == "closed"@ { assert(s[5] == status@); }
        }
    }
    r
}

/// The requirement state machine: staying put is always allowed, and the
/// moves open → in_progress, in_progress → verified, in_progress → rejected,
/// open → deferred and deferred → open.
pub open spec fn requirement_transition_ok(from: Seq<char>, to: Seq<char>) -> bool {
    from == to || (from == "open"@ && to == "in_progress"@) || (from == "in_progress"@ && to
        == "verified"@) || (from == "in_progress"@ && to == "rejected"@) || (from == "open"@ && to
        == "deferred"@) || (from == "deferred"@ && to == "open"@)
}

/// Setting a requirement to the status it already has is always allowed,
/// and a requirement never moves back out of `verified` or `rejected`.
pub proof fn law_requirement_transitions(from: Seq<char>, to: Seq<char>)
    ensures
        requirement_transition_ok(from, from),
        (from == "verified"@ || from == "rejected"@) && requirement_transition_ok(from, to) ==> to == from,
{
    reveal_strlit("verified");
    reveal_strlit("rejected");
    reveal_strlit("open");
    reveal_strlit("in_progress");
    reveal_strlit("deferred");
    assert("verified"@.len() == 8 && "rejected"@.len() == 8 && "open"@.len() == 4);
    assert("in_progress"@.len() == 11 && "deferred"@.len() == 8);
    assert("verified"@[0] == 'v' && "rejected"@[0] == 'r' && "deferred"@[0] == 'd');
}

/// Whether a requirement may move from status `from` to status `to`.
pub fn is_valid_requirement_transition(from: &str, to: &str) -> (r: bool)
    ensures
        r == requirement_transition_ok(from@, to@),
{
    let f = chars_of(from);
    let t = chars_of(to);
    if crate::text::chars_eq(&f, &t) {
        return true;
    }
    (eq_lit(&f, "open") && eq_lit(&t, "in_progress")) || (eq_lit(&f, "in_progress") && eq_lit(
        &t,
        "verified",
    )) || (eq_lit(&f, "in_progress") && eq_lit(&t, "rejected")) || (eq_lit(&f, "open") && eq_lit(
        &t,
        "deferred",
    )) || (eq_lit(&f, "deferred") && eq_lit(&t, "open"))
}

/// The required fields that are not among the present (non-null) keys, in
/// the order of `required`.
pub open spec fn missing_fields_spec(present: Seq<Seq<char>>, required: Seq<Seq<char>>) -> Seq<Seq<char>>
    decreases required.len(),
{
    if required.len() == 0 {
        Seq::empty()
    } else {
        let rest = missing_fields_spec(present, required.drop_last());
        if present.contains(required.last()) {
            rest
        } else {
            rest.push(required.last())
        }
    }
}

pub open spec fn strs_view(v: Seq<&str>) -> Seq<Seq<char>> {
    v.map_values(|s: &str| s@)
}

/// The required frontmatter fields that are missing or null, given the
/// keys whose values are present and not null.
pub fn check_missing_frontmatter_fields(present: &Vec<String>, required: &[&str]) -> (r: Vec<String>)
    ensures
        strings_view(r@) == missing_fields_spec(strings_view(present@), strs_view(required@)),
{
    let ghost p = strings_view(present@);
    let ghost req = strs_view(required@);
    let mut out: Vec<String> = Vec::new();
    let mut i: usize = 0;
    while i < required.len()
        invariant
            i <= required@.len(),
            p == strings_view(present@),
            req == strs_view(required@),
            strings_view(out@) == missing_fields_spec(p, req.take(i as int)),
        decreases required.len() - i,
    {
        assert(req.take(i + 1).drop_last() =~= req.take(i as int));
        assert(req.take(i + 1).last() == required@[i as int]@);
        let mut found = false;
        let mut j: usize = 0;
        while j < present.len()
            invariant
                j <= present@.len(),
                i < required@.len(),
                p == strings_view(present@),
                found == exists|k: int| 0 <= k < j && (#[trigger] p[k]) == required@[i as int]@,
            decreases present.len() - j,
        {
            if str_eq(present[j].as_str(), required[i]) {
                assert(p[j as int] == required@[i as int]@);
                found = true;
            }
            j = j + 1;
        }
        assert(found == p.contains(required@[i as int]@));
        let ghost before = strings_view(out@);
        if !found {
            out.push(lit(required[i]));
            assert(strings_view(out@) =~= before.push(required@[i as int]@));
        }
        i = i + 1;
    }
    assert(req.take(required.len() as int) =~= req);
    out
}

/// Whether `value` is one of `valid`.
pub fn is_valid_value(value: &str, valid: &[&str]) -> (r: bool)
    ensures
        r == exists|i: int| 0 <= i < valid@.len() && value@ == (#[trigger] valid@[i])@,
{
    let v = chars_of(value);
    one_of(&v, valid)
}

/// Whether position `i` of a `YYYY-MM-DD` date holds a dash (else a digit).
pub open spec fn dash_at(i: int) -> bool {
    i == 4 || i == 7
}

/// A date in the `YYYY-MM-DD` format: four, two and two ASCII digits
/// separated by dashes.
pub open spec fn date_shape(date: Seq<char>) -> bool {
    &&& date.len() == 10
    &&& forall|i: int| 0 <= i < 10 ==> if dash_at(i) { #[trigger] date[i] == '-' } else { is_ascii_digit(date[i]) }
}

/// Whether `date` is in the `YYYY-MM-DD` format.
pub fn is_valid_date(date: &str) -> (r: bool)
    ensures
        r == date_shape(date@),
{
    let v = chars_of(date);
    if v.len() != 10 {
        return false;
    }
    let mut i: usize = 0;
    while i < 10
        invariant
            i <= 10,
            v@ == date@,
            v@.len() == 10,
            forall|j: int| 0 <= j < i ==> if dash_at(j) { #[trigger] v@[j] == '-' } else { is_ascii_digit(v@[j]) },
        decreases 10 - i,
    {
        let ok = if i == 4 || i == 7 {
            v[i] == '-'
        } else {
            char_is_ascii_digit(v[i])
        };
        if !ok {
            assert(!(if dash_at(i as int) { v@[i as int] == '-' } else { is_ascii_digit(v@[i as int]) }));
            return false;
        }
        i = i + 1;
    }
    true
}

// ───────────────────────── engagement changes ─────────────────────────

/// Checks a status change of an engagement: the status must be an
/// engagement status, and starting work (`in_progress`) needs the
/// credentials marked ready when the workspace asks for that.
pub fn check_engagement_status_change(
    new_status: &str,
    require_credentials_ready: bool,
    credentials_ready: bool,
    path: &str,
) -> (r: Result<(), WorkspaceError>)
    ensures
        !engagement_statuses().contains(new_status@) ==> r matches Err(
            WorkspaceError::InvalidStatusSeverity(_),
        ),
        engagement_statuses().contains(new_status@) ==> (r.is_err() <==> (new_status@
            == "in_progress"@ && require_credentials_ready && !credentials_ready)),
        !engagement_statuses().contains(new_status@) ==> (r matches Err(WorkspaceError::InvalidStatusSeverity(m)) && m@
            == "'"@ + new_status@ + "' is not a valid engagement status. Use: draft, planned, in_progress, paused, completed, closed."@),
        engagement_statuses().contains(new_status@) ==> (r is Err ==> (r matches Err(WorkspaceError::MissingField(m)) && m@
            == "Cannot start engagement: credentials not marked ready. Use `sm engagement "@ + path@ + " --credentials-ready` first."@)),
{
    if !is_valid_engagement_status(new_status) {
        let mut m = lit("'");
        m.append(new_status);
        m.append("' is not a valid engagement status. Use: draft, planned, in_progress, paused, completed, closed.");
        return Err(WorkspaceError::InvalidStatusSeverity(m));
    }
    let v = chars_of(new_status);
    if eq_lit(&v, "in_progress") && require_credentials_ready && !credentials_ready {
        let mut m = lit("Cannot start engagement: credentials not marked ready. Use `sm engagement ");
        m.append(path);
        m.append(" --credentials-ready` first.");
        return Err(WorkspaceError::MissingField(m));
    }
    Ok(())
}

/// Whether chrono reads `date` as a date in the format `%Y-%m-%d`.
pub uninterp spec fn ymd_date_parses(date: Seq<char>) -> bool;

/// Calls `chrono::NaiveDate::parse_from_str(date, "%Y-%m-%d")` and tells
/// whether it succeeded; the answer is named `ymd_date_parses`.
#[verifier::external_body]
fn parse_ymd(date: &str) -> (r: bool)
    ensures
        r == ymd_date_parses(date@),
{
    chrono::NaiveDate::parse_from_str(date, "%Y-%m-%d").is_ok()
}

/// Checks a date given for an engagement: an empty date clears it; any
/// other must be a `YYYY-MM-DD` calendar date, else it is refused as an
/// `InvalidDate` carrying the date.
pub fn check_engagement_date(date: &str) -> (r: Result<(), WorkspaceError>)
    ensures
        r is Ok <==> (date@.len() == 0 || ymd_date_parses(date@)),
        r is Err ==> (r matches Err(WorkspaceError::InvalidDate(d)) && d@ == date@),
{
    if chars_of(date).len() > 0 && !parse_ymd(date) {
        Err(WorkspaceError::InvalidDate(lit(date)))
    } else {
        Ok(())
    }
}

/// Sets the start or end date of an engagement; any other field name is an
/// `InvalidName` error and leaves the section as it was.
pub fn set_engagement_date(section: &mut EngagementSection, field: &str, date: &str) -> (r: Result<(), WorkspaceError>)
    ensures
        field@ == "start_date"@ ==> r is Ok && final(section).start_date@ == date@
            && final(section).end_date@ == old(section).end_date@,
        field@ == "end_date"@ ==> r is Ok && final(section).end_date@ == date@
            && final(section).start_date@ == old(section).start_date@,
        !(field@ == "start_date"@ || field@ == "end_date"@) ==> (r matches Err(WorkspaceError::InvalidName(m))
            && m@ == "Unknown date field: "@ + field@
            && final(section).start_date@ == old(section).start_date@
            && final(section).end_date@ == old(section).end_date@),
        final(section).status@ == old(section).status@,
        final(section).engagement_type@ == old(section).engagement_type@,
        final(section).credentials_ready == old(section).credentials_ready,
        final(section).original_engagement@ == old(section).original_engagement@,
{
    let f = chars_of(field);
    proof {
        reveal_strlit("start_date");
        reveal_strlit("end_date");
        assert("start_date"@.len() == 10);
        assert("end_date"@.len() == 8);
    }
    if eq_lit(&f, "start_date") {
        section.start_date = lit(date);
        Ok(())
    } else if eq_lit(&f, "end_date") {
        section.end_date = lit(date);
        Ok(())
    } else {
        Err(WorkspaceError::InvalidName(concat("Unknown date field: ", field)))
    }
}

// ───────────────────────── defaults inheritance ─────────────────────────

/// Defaults in force after walking project > client > workspace > built-in.
pub struct EffectiveDefaults {
    pub severity: String,
    pub status: String,
    pub report_format: String,
    pub sow_format: String,
}

/// A layer's value wins over what came before when it is not empty.
pub open spec fn layer(before: Seq<char>, value: Seq<char>) -> Seq<char> {
    if value.len() == 0 {
        before
    } else {
        value
    }
}

impl Default for EffectiveDefaults {
    /// The built-in defaults: medium, open, markdown, markdown.
    fn default() -> (d: EffectiveDefaults)
        ensures
            d.severity@ == "medium"@,
            d.status@ == "open"@,
            d.report_format@ == "markdown"@,
            d.sow_format@ == "markdown"@,
    {
        EffectiveDefaults {
            severity: lit("medium"),
            status: lit("open"),
            report_format: lit("markdown"),
            sow_format: lit("markdown"),
        }
    }
}

fn layered(before: String, value: &String) -> (r: String)
    ensures
        r@ == layer(before@, value@),
{
    if value.as_str().is_empty() {
        before
    } else {
        copy_string(value)
    }
}

impl EffectiveDefaults {
    /// Lays a defaults section over these: every non-empty value replaces
    /// the one in force.
    pub fn apply(self, d: &DefaultsSection) -> (r: EffectiveDefaults)
        ensures
            r.severity@ == layer(self.severity@, d.severity@),
            r.status@ == layer(self.status@, d.status@),
            r.report_format@ == layer(self.report_format@, d.report_format@),
            r.sow_format@ == layer(self.sow_format@, d.sow_format@),
    {
        EffectiveDefaults {
            severity: layered(self.severity, &d.severity),
            status: layered(self.status, &d.status),
            report_format: layered(self.report_format, &d.report_format),
            sow_format: layered(self.sow_format, &d.sow_format),
        }
    }
}

/// One field of the effective defaults: the project's value when set, else
/// the client's, else the workspace's, else the built-in one.
pub open spec fn effective_field(
    builtin: Seq<char>,
    ws: Seq<char>,
    client: Option<Seq<char>>,
    project: Option<Seq<char>>,
) -> Seq<char> {
    let w = layer(builtin, ws);
    let c = match client {
        Some(v) => layer(w, v),
        None => w,
    };
    match project {
        Some(v) => layer(c, v),
        None => c,
    }
}

/// Defaults are inherited down the hierarchy: a value set (non-empty) on
/// the project wins; otherwise the client's applies, then the workspace's,
/// then the built-in one.
pub proof fn law_defaults_precedence(builtin: Seq<char>, ws: Seq<char>, client: Option<Seq<char>>, project: Option<Seq<char>>)
    ensures
        (project matches Some(p) && p.len() > 0) ==> effective_field(builtin, ws, client, project) == project->0,
        (project is None || project == Some(Seq::<char>::empty())) ==> effective_field(builtin, ws, client, project)
            == effective_field(builtin, ws, client, None),
        (client matches Some(c) && c.len() > 0) ==> effective_field(builtin, ws, client, None) == client->0,
        (client is None || client == Some(Seq::<char>::empty())) ==> effective_field(builtin, ws, client, None)
            == (if ws.len() > 0 { ws } else { builtin }),
{
}

/// The defaults in force for an entity, from the workspace defaults and the
/// client's and project's defaults where their configs could be read.
pub fn effective_defaults(
    ws: &DefaultsSection,
    client: Option<&DefaultsSection>,
    project: Option<&DefaultsSection>,
) -> (r: EffectiveDefaults)
    ensures
        r.severity@ == effective_field(
            "medium"@,
            ws.severity@,
            match client { Some(c) => Some(c.severity@), None => None },
            match project { Some(p) => Some(p.severity@), None => None },
        ),
        r.status@ == effective_field(
            "open"@,
            ws.status@,
            match client { Some(c) => Some(c.status@), None => None },
            match project { Some(p) => Some(p.status@), None => None },
        ),
        r.report_format@ == effective_field(
            "markdown"@,
            ws.report_format@,
            match client { Some(c) => Some(c.report_format@), None => None },
            match project { Some(p) => Some(p.report_format@), None => None },
        ),
        r.sow_format@ == effective_field(
            "markdown"@,
            ws.sow_format@,
            match client { Some(c) => Some(c.sow_format@), None => None },
            match project { Some(p) => Some(p.sow_format@), None => None },
        ),
{
    let mut ef = EffectiveDefaults::default().apply(ws);
    match client {
        Some(c) => {
            ef = ef.apply(c);
        },
        None => {},
    }
    match project {
        Some(p) => {
            ef = ef.apply(p);
        },
        None => {},
    }
    ef
}

/// The template named by the project's settings when set, else by the
/// client's, else none.
pub open spec fn effective_template_spec(project: Option<Seq<char>>, client: Option<Seq<char>>) -> Option<Seq<char>> {
    if project matches Some(p) && p.len() > 0 {
        project
    } else if client matches Some(c) && c.len() > 0 {
        client
    } else {
        None
    }
}

/// Picks a report or statement-of-work template name from the project's
/// and the client's settings (an empty name is not set).
pub fn effective_template(project: Option<&String>, client: Option<&String>) -> (r: Option<String>)
    ensures
        match r {
            Some(s) => effective_template_spec(
                match project { Some(p) => Some(p@), None => None },
                match client { Some(c) => Some(c@), None => None },
            ) == Some(s@),
            None => effective_template_spec(
                match project { Some(p) => Some(p@), None => None },
                match client { Some(c) => Some(c@), None => None },
            ) is None,
        },
{
    match project {
        Some(p) => {
            if !p.as_str().is_empty() {
                return Some(copy_string(p));
            }
        },
        None => {},
    }
    match client {
        Some(c) => {
            if !c.as_str().is_empty() {
                return Some(copy_string(c));
            }
        },
        None => {},
    }
    None
}

// ───────────────────────── retests ─────────────────────────

/// Whether a finding of the original engagement is carried into a retest:
/// it was fixed or its risk accepted.
pub fn is_retest_candidate(status: &str) -> (r: bool)
    ensures
        r == (status@ == "fixed"@ || status@ == "risk_accepted"@),
{
    let v = chars_of(status);
    eq_lit(&v, "fixed") || eq_lit(&v, "risk_accepted")
}

/// The frontmatter and body of a finding copied into a retest.
pub open spec fn retest_content_spec(
    new_id: Seq<char>,
    severity: Seq<char>,
    today: Seq<char>,
    orig_id: Seq<char>,
    body: Seq<char>,
) -> Seq<char> {
    "---\nid: \""@ + new_id + "\"\nstatus: \"open\"\nseverity: \""@ + severity + "\"\ncreated: \""@
        + today + "\"\nupdated: \""@ + today + "\"\noriginal_finding_id: \""@ + orig_id
        + "\"\nretest_result: \"not_tested\"\n---\n\n"@ + body
}

/// A retest copy keeps the link to the finding it was copied from: its
/// frontmatter starts with the new ID and ends with `original_finding_id`
/// set to the original ID and the retest result `not_tested`, and the
/// finding's body follows unchanged.
pub proof fn law_retest_links_original(
    new_id: Seq<char>,
    severity: Seq<char>,
    today: Seq<char>,
    orig_id: Seq<char>,
    body: Seq<char>,
)
    ensures
        exists|middle: Seq<char>|
            #[trigger] retest_content_spec(new_id, severity, today, orig_id, body) == "---\nid: \""@ + new_id + middle
                + "\"\noriginal_finding_id: \""@ + orig_id + "\"\nretest_result: \"not_tested\"\n---\n\n"@ + body,
{
    let middle = "\"\nstatus: \"open\"\nseverity: \""@ + severity + "\"\ncreated: \""@ + today + "\"\nupdated: \""@
        + today;
    assert(retest_content_spec(new_id, severity, today, orig_id, body) =~= "---\nid: \""@ + new_id + middle
        + "\"\noriginal_finding_id: \""@ + orig_id + "\"\nretest_result: \"not_tested\"\n---\n\n"@ + body);
}

/// Writes the file content of a retest copy of a finding: reopened, with
/// its new ID, the original ID and `not_tested` as retest result.
pub fn retest_finding_content(
    new_id: &str,
    severity: &str,
    today: &str,
    orig_id: &str,
    body: &str,
) -> (r: String)
    ensures
        r@ == retest_content_spec(new_id@, severity@, today@, orig_id@, body@),
{
    let mut s = lit("---\nid: \"");
    s.append(new_id);
    s.append("\"\nstatus: \"open\"\nseverity: \"");
    s.append(severity);
    s.append("\"\ncreated: \"");
    s.append(today);
    s.append("\"\nupdated: \"");
    s.append(today);
    s.append("\"\noriginal_finding_id: \"");
    s.append(orig_id);
    s.append("\"\nretest_result: \"not_tested\"\n---\n\n");
    s.append(body);
    s
}

} // verus!
