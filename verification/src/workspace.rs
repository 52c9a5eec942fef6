//! Workspace-wide rules: entity names, path forms, slugs and the error type.

use crate::entities::DefaultsSection;
use crate::text::{char_is_alphanumeric, chars_of, concat, eq_lit, lit, lowercase, strip, strip_chars, string_of, to_lowercase, unicode_alphanumeric};
use vstd::prelude::*;

verus! {

/// Name of the configuration file that marks a workspace or an entity.
pub const CONFIG_FILE: &'static str = "config.toml";

/// What can go wrong in workspace operations. Outside errors (I/O, TOML,
/// frontmatter) are carried as their message.
#[derive(Debug)]
pub enum WorkspaceError {
    Io(String),
    Serialize(String),
    Deserialize(String),
    Frontmatter(String),
    NotAWorkspace,
    AlreadyExists(String),
    NoConfigDir,
    NoDefaultWorkspace,
    NotFound(String),
    InvalidName(String),
    ReservedName(String),
    MissingField(String),
    InvalidDate(String),
    InvalidStatusSeverity(String),
    SymlinkEscape(String),
}

/// The message of an error, as the program prints it.
pub open spec fn error_message(e: WorkspaceError) -> Seq<char> {
    match e {
        WorkspaceError::Io(m) => "IO error: "@ + m@,
        WorkspaceError::Serialize(m) => "TOML serialization error: "@ + m@,
        WorkspaceError::Deserialize(m) => "TOML deserialization error: "@ + m@,
        WorkspaceError::Frontmatter(m) => "Frontmatter error: "@ + m@,
        WorkspaceError::NotAWorkspace => "Not a SecuritySmith workspace"@,
        WorkspaceError::AlreadyExists(p) => "Workspace already exists at "@ + p@,
        WorkspaceError::NoConfigDir => "No config directory found on this platform"@,
        WorkspaceError::NoDefaultWorkspace => "No default workspace configured. Set one with `sm config set default_workspace <path>` or pass a path to `sm new`."@,
        WorkspaceError::NotFound(p) => "Not found: "@ + p@,
        WorkspaceError::InvalidName(m) => "Invalid name: "@ + m@,
        WorkspaceError::ReservedName(m) => "Reserved name: "@ + m@,
        WorkspaceError::MissingField(m) => "Missing required field: "@ + m@,
        WorkspaceError::InvalidDate(m) => "Invalid date: "@ + m@,
        WorkspaceError::InvalidStatusSeverity(m) => "Invalid status or severity: "@ + m@,
        WorkspaceError::SymlinkEscape(p) => "Symlink escapes the workspace: "@ + p@,
    }
}

impl WorkspaceError {
    /// The message of the error.
    pub fn message(&self) -> (r: String)
        ensures
            r@ == error_message(*self),
    {
        match self {
            WorkspaceError::Io(m) => concat("IO error: ", m.as_str()),
            WorkspaceError::Serialize(m) => concat("TOML serialization error: ", m.as_str()),
            WorkspaceError::Deserialize(m) => concat("TOML deserialization error: ", m.as_str()),
            WorkspaceError::Frontmatter(m) => concat("Frontmatter error: ", m.as_str()),
            WorkspaceError::NotAWorkspace => lit("Not a SecuritySmith workspace"),
            WorkspaceError::AlreadyExists(p) => concat("Workspace already exists at ", p.as_str()),
            WorkspaceError::NoConfigDir => lit("No config directory found on this platform"),
            WorkspaceError::NoDefaultWorkspace => lit(
                "No default workspace configured. Set one with `sm config set default_workspace <path>` or pass a path to `sm new`.",
            ),
            WorkspaceError::NotFound(p) => concat("Not found: ", p.as_str()),
            WorkspaceError::InvalidName(m) => concat("Invalid name: ", m.as_str()),
            WorkspaceError::ReservedName(m) => concat("Reserved name: ", m.as_str()),
            WorkspaceError::MissingField(m) => concat("Missing required field: ", m.as_str()),
            WorkspaceError::InvalidDate(m) => concat("Invalid date: ", m.as_str()),
            WorkspaceError::InvalidStatusSeverity(m) => concat(
                "Invalid status or severity: ",
                m.as_str(),
            ),
            WorkspaceError::SymlinkEscape(p) => concat("Symlink escapes the workspace: ", p.as_str()),
        }
    }
}

/// Workspace `config.toml` content.
pub struct WorkspaceConfig {
    pub workspace: WorkspaceHeader,
}

pub struct WorkspaceHeader {
    pub version: u32,
    pub name: String,
    pub created: String,
    pub defaults: DefaultsSection,
    pub require_credentials_ready: bool,
}

impl WorkspaceConfig {
    /// A fresh configuration: version 1, the given name and creation date,
    /// empty defaults, no credential gate.
    pub fn named(name: String, created: String) -> (c: WorkspaceConfig)
        ensures
            c.workspace.version == 1,
            c.workspace.name@ == name@,
            c.workspace.created@ == created@,
            c.workspace.defaults.is_empty(),
            !c.workspace.require_credentials_ready,
    {
        WorkspaceConfig {
            workspace: WorkspaceHeader {
                version: 1,
                name,
                created,
                defaults: DefaultsSection::empty(),
                require_credentials_ready: false,
            },
        }
    }
}

/// How an entity was removed.
#[derive(PartialEq, Eq, Structural, Clone, Copy, Debug)]
pub enum RemovalMethod {
    /// Moved to the OS trash (recoverable).
    Trashed,
    /// Deleted for good (no trash on this platform).
    PermanentlyDeleted,
}

// ───────────────────────── names ─────────────────────────

/// A character allowed in an entity name: `a-z`, `0-9` or `_`.
pub open spec fn name_char(c: char) -> bool {
    ('a' <= c && c <= 'z') || ('0' <= c && c <= '9') || c == '_'
}

/// A snake_case name: not empty, made of `a-z`, `0-9` and `_`.
pub open spec fn is_snake_case(s: Seq<char>) -> bool {
    s.len() > 0 && forall|i: int| 0 <= i < s.len() ==> name_char(#[trigger] s[i])
}

/// The outcome of `validate_name`.
pub open spec fn name_check(name: Seq<char>) -> Option<WorkspaceErrorKind> {
    if name.len() == 0 {
        Some(WorkspaceErrorKind::InvalidName)
    } else if name == "templates"@ {
        Some(WorkspaceErrorKind::ReservedName)
    } else if !is_snake_case(name) {
        Some(WorkspaceErrorKind::InvalidName)
    } else {
        None
    }
}

/// The variant of a `WorkspaceError`, without its payload.
#[derive(PartialEq, Eq, Structural, Clone, Copy, Debug)]
pub enum WorkspaceErrorKind {
    InvalidName,
    ReservedName,
}

pub open spec fn kind_of(e: WorkspaceError) -> Option<WorkspaceErrorKind> {
    match e {
        WorkspaceError::InvalidName(_) => Some(WorkspaceErrorKind::InvalidName),
        WorkspaceError::ReservedName(_) => Some(WorkspaceErrorKind::ReservedName),
        _ => None,
    }
}

/// The message carried by a name error.
pub open spec fn name_error_detail(name: Seq<char>) -> Seq<char> {
    if name.len() == 0 {
        "name cannot be empty"@
    } else if name == "templates"@ {
        name
    } else {
        "Names must be snake_case (a-z, 0-9, underscores). Got: '"@ + name + "'"@
    }
}

fn is_name_char(c: char) -> (r: bool)
    ensures
        r == name_char(c),
{
    ('a' <= c && c <= 'z') || ('0' <= c && c <= '9') || c == '_'
}

/// Checks that `name` is a snake_case name (lower-case letters, digits and
/// underscores, not empty) and not the reserved name `templates`.
pub fn validate_name(name: &str) -> (r: Result<(), WorkspaceError>)
    ensures
        r.is_ok() <==> name_check(name@).is_none(),
        r matches Err(e) ==> kind_of(e) == name_check(name@) && (match e {
            WorkspaceError::InvalidName(m) => m@ == name_error_detail(name@),
            WorkspaceError::ReservedName(m) => m@ == name_error_detail(name@),
            _ => false,
        }),
{
    let v = chars_of(name);
    if v.len() == 0 {
        return Err(WorkspaceError::InvalidName(lit("name cannot be empty")));
    }
    if eq_lit(&v, "templates") {
        return Err(WorkspaceError::ReservedName(lit(name)));
    }
    let mut i: usize = 0;
    while i < v.len()
        invariant
            i <= v@.len(),
            v@ == name@,
            name@.len() > 0,
            name@ != "templates"@,
            forall|j: int| 0 <= j < i ==> name_char(#[trigger] v@[j]),
        decreases v.len() - i,
    {
        if !is_name_char(v[i]) {
            assert(!name_char(name@[i as int]));
            assert(!is_snake_case(name@));
            let mut m = lit("Names must be snake_case (a-z, 0-9, underscores). Got: '");
            m.append(name);
            m.append("'");
            return Err(WorkspaceError::InvalidName(m));
        }
        i = i + 1;
    }
    Ok(())
}

/// Whether `s` is written as an absolute path: it starts with `/` or `~`.
pub fn is_absolute_path(s: &str) -> (r: bool)
    ensures
        r == (s@.len() > 0 && (s@[0] == '/' || s@[0] == '~')),
{
    let v = chars_of(s);
    v.len() > 0 && (v[0] == '/' || v[0] == '~')
}

// ───────────────────────── slugs ─────────────────────────

/// A character kept in a slug, or `_` in its place.
pub open spec fn slug_char(c: char) -> char {
    if unicode_alphanumeric(c) {
        c
    } else {
        '_'
    }
}

/// The slug of a title: lower-cased, every character that is not
/// alphanumeric turned into `_`, and `_` trimmed from both ends.
pub open spec fn slug_from_title_spec(title: Seq<char>) -> Seq<char> {
    strip(lowercase(title).map_values(|c: char| slug_char(c)), '_')
}

/// Builds a file-name slug from a title.
pub fn slug_from_title(title: &str) -> (r: String)
    ensures
        r@ == slug_from_title_spec(title@),
{
    let lower = to_lowercase(title);
    let lv = chars_of(lower.as_str());
    let mut mapped: Vec<char> = Vec::new();
    let mut i: usize = 0;
    while i < lv.len()
        invariant
            i <= lv@.len(),
            mapped@ == lv@.take(i as int).map_values(|c: char| slug_char(c)),
        decreases lv.len() - i,
    {
        let c = lv[i];
        if char_is_alphanumeric(c) {
            mapped.push(c);
        } else {
            mapped.push('_');
        }
        assert(lv@.take(i + 1).map_values(|c: char| slug_char(c)) =~= lv@.take(i as int).map_values(
            |c: char| slug_char(c),
        ).push(slug_char(c)));
        i = i + 1;
    }
    assert(lv@.take(lv@.len() as int) =~= lv@);
    let t = strip_chars(&mapped, '_');
    string_of(&t)
}

} // verus!
