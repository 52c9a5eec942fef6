//! Workspace templates: naming rules, kinds, and the listing of workspace
//! and built-in templates.

use crate::text::{chars_eq, chars_of, ends_with, has_suffix, lit, concat};
use crate::workspace::WorkspaceError;
use vstd::prelude::*;

verus! {

/// Directory of the workspace templates.
pub const TEMPLATE_DIR: &'static str = "templates";

/// Where a listed template comes from.
#[derive(PartialEq, Eq, Structural, Clone, Copy, Debug)]
pub enum TemplateSource {
    Workspace,
    Builtin,
}

/// A listed template.
pub struct TemplateEntry {
    pub name: String,
    pub source: TemplateSource,
}

/// A character allowed in a template name: `a-z`, `0-9`, `_` or `-`.
pub open spec fn template_name_char(c: char) -> bool {
    ('a' <= c && c <= 'z') || ('0' <= c && c <= '9') || c == '_' || c == '-'
}

pub open spec fn is_template_name(s: Seq<char>) -> bool {
    s.len() > 0 && forall|i: int| 0 <= i < s.len() ==> template_name_char(#[trigger] s[i])
}

/// Checks a template name: not empty, lower-case letters, digits, `_` and
/// `-` only; otherwise an `InvalidName` error.
pub fn validate_template_name(name: &str) -> (r: Result<(), WorkspaceError>)
    ensures
        r is Ok <==> is_template_name(name@),
        r is Err ==> (r matches Err(WorkspaceError::InvalidName(m))
            && m@ == "Template names may contain lowercase letters, digits, underscores, and hyphens."@),
{
    let v = chars_of(name);
    if v.len() == 0 {
        return Err(WorkspaceError::InvalidName(lit("Template names may contain lowercase letters, digits, underscores, and hyphens.")));
    }
    let mut i: usize = 0;
    while i < v.len()
        invariant
            i <= v@.len(),
            v@ == name@,
            forall|j: int| 0 <= j < i ==> template_name_char(#[trigger] v@[j]),
        decreases v.len() - i,
    {
        let c = v[i];
        if !(('a' <= c && c <= 'z') || ('0' <= c && c <= '9') || c == '_' || c == '-') {
            assert(!template_name_char(name@[i as int]));
            return Err(WorkspaceError::InvalidName(lit("Template names may contain lowercase letters, digits, underscores, and hyphens.")));
        }
        i = i + 1;
    }
    Ok(())
}

/// The content template types (Markdown files).
pub open spec fn content_template_types() -> Seq<Seq<char>> {
    seq!["finding"@, "report"@, "sow"@, "requirement"@]
}

/// The config template types (TOML files).
pub open spec fn config_template_types() -> Seq<Seq<char>> {
    seq!["workspace"@, "client"@, "project"@, "engagement"@]
}

fn in_list(v: &Vec<char>, opts: &[&str]) -> (r: bool)
    ensures
        r == opts@.map_values(|s: &str| s@).contains(v@),
{
    let r = crate::text::one_of(v, opts);
    proof {
        let m = opts@.map_values(|s: &str| s@);
        if r {
            let i = choose|i: int| 0 <= i < opts@.len() && v@ == (#[trigger] opts@[i])@;
            assert(m[i] == v@);
        } else {
            assert forall|i: int| 0 <= i < m.len() implies m[i] != v@ by {
                assert(m[i] == opts@[i]@);
            }
        }
    }
    r
}

/// The file a new workspace template of this name is created as:
/// `<name>.toml` for a config template, `<name>.md` for a content one. Any
/// other name is an `InvalidName` error (after the name check).
pub fn template_file_name(name: &str) -> (r: Result<String, WorkspaceError>)
    ensures
        !is_template_name(name@) ==> (r matches Err(WorkspaceError::InvalidName(m))
            && m@ == "Template names may contain lowercase letters, digits, underscores, and hyphens."@),
        is_template_name(name@) && config_template_types().contains(name@) ==> (r matches Ok(f) && f@ == name@ + ".toml"@),
        is_template_name(name@) && !config_template_types().contains(name@) && content_template_types().contains(name@)
            ==> (r matches Ok(f) && f@ == name@ + ".md"@),
        is_template_name(name@) && !config_template_types().contains(name@) && !content_template_types().contains(name@)
            ==> (r matches Err(WorkspaceError::InvalidName(m)) && m@ == "Unknown template type: "@ + name@
            + ". Valid types: finding, report, sow, requirement, workspace, client, project, engagement"@),
{
    match validate_template_name(name) {
        Ok(()) => {},
        Err(e) => return Err(e),
    }
    let v = chars_of(name);
    let config_opts = ["workspace", "client", "project", "engagement"];
    let content_opts = ["finding", "report", "sow", "requirement"];
    proof {
        assert(config_opts@.map_values(|s: &str| s@) =~= config_template_types());
        assert(content_opts@.map_values(|s: &str| s@) =~= content_template_types());
    }
    let is_config = in_list(&v, &config_opts);
    let is_content = in_list(&v, &content_opts);
    if !is_config && !is_content {
        let mut m = lit("Unknown template type: ");
        m.append(name);
        m.append(". Valid types: finding, report, sow, requirement, workspace, client, project, engagement");
        return Err(WorkspaceError::InvalidName(m));
    }
    if is_config {
        Ok(concat(name, ".toml"))
    } else {
        Ok(concat(name, ".md"))
    }
}

/// The template name of a file in the templates directory: the file name
/// without `.md`, else without `.toml`; other files are not templates.
pub open spec fn template_name_of(file: Seq<char>) -> Option<Seq<char>> {
    if ends_with(file, ".md"@) {
        Some(file.take(file.len() - 3))
    } else if ends_with(file, ".toml"@) {
        Some(file.take(file.len() - 5))
    } else {
        None
    }
}

/// Reads the template name of a file of the templates directory.
pub fn template_name_from_file(file: &str) -> (r: Option<String>)
    ensures
        match r {
            Some(n) => template_name_of(file@) == Some(n@),
            None => template_name_of(file@) is None,
        },
{
    let v = chars_of(file);
    let md = chars_of(".md");
    let toml = chars_of(".toml");
    proof {
        reveal_strlit(".md");
        reveal_strlit(".toml");
    }
    if has_suffix(&v, &md) {
        let mut out: Vec<char> = Vec::new();
        let n = v.len() - 3;
        let mut i: usize = 0;
        while i < n
            invariant
                i <= n,
                n == v@.len() - 3,
                out@ == v@.take(i as int),
            decreases n - i,
        {
            out.push(v[i]);
            i = i + 1;
            assert(out@ =~= v@.take(i as int));
        }
        Some(crate::text::string_of(&out))
    } else if has_suffix(&v, &toml) {
        let mut out: Vec<char> = Vec::new();
        let n = v.len() - 5;
        let mut i: usize = 0;
        while i < n
            invariant
                i <= n,
                n == v@.len() - 5,
                out@ == v@.take(i as int),
            decreases n - i,
        {
            out.push(v[i]);
            i = i + 1;
            assert(out@ =~= v@.take(i as int));
        }
        Some(crate::text::string_of(&out))
    } else {
        None
    }
}

/// Whether an entry of the listing has the name.
pub open spec fn lists(es: Seq<TemplateEntry>, n: Seq<char>) -> bool {
    exists|i: int| 0 <= i < es.len() && (#[trigger] es[i]).name@ == n
}

fn name_listed(entries: &Vec<TemplateEntry>, name: &str) -> (r: bool)
    ensures
        r == exists|j: int| 0 <= j < entries@.len() && (#[trigger] entries@[j]).name@ == name@,
{
    let want = chars_of(name);
    let mut i: usize = 0;
    while i < entries.len()
        invariant
            i <= entries@.len(),
            want@ == name@,
            forall|j: int| 0 <= j < i ==> (#[trigger] entries@[j]).name@ != name@,
        decreases entries.len() - i,
    {
        let v = chars_of(entries[i].name.as_str());
        if chars_eq(&v, &want) {
            return true;
        }
        i = i + 1;
    }
    false
}

/// The names that the listing offers: the workspace templates found, then
/// each built-in content and config template that no workspace template
/// overrides.
pub fn template_entries(workspace_names: &Vec<String>) -> (r: Vec<TemplateEntry>)
    ensures
        r@.len() >= workspace_names@.len(),
        forall|i: int| 0 <= i < workspace_names@.len() ==> (#[trigger] r@[i]).name@ == workspace_names@[i]@
            && r@[i].source == TemplateSource::Workspace,
        forall|i: int| workspace_names@.len() <= i < r@.len() ==> (#[trigger] r@[i]).source == TemplateSource::Builtin
            && (content_template_types().contains(r@[i].name@) || config_template_types().contains(r@[i].name@)),
        forall|n: Seq<char>| #[trigger] content_template_types().contains(n) ==> lists(r@, n),
        forall|n: Seq<char>| #[trigger] config_template_types().contains(n) ==> lists(r@, n),
{
    let mut out: Vec<TemplateEntry> = Vec::new();
    let mut i: usize = 0;
    while i < workspace_names.len()
        invariant
            i <= workspace_names@.len(),
            out@.len() == i,
            forall|j: int| 0 <= j < i ==> (#[trigger] out@[j]).name@ == workspace_names@[j]@
                && out@[j].source == TemplateSource::Workspace,
        decreases workspace_names.len() - i,
    {
        out.push(TemplateEntry { name: lit(workspace_names[i].as_str()), source: TemplateSource::Workspace });
        i = i + 1;
    }
    let builtins = ["finding", "report", "sow", "requirement", "workspace", "client", "project", "engagement"];
    let ghost all = content_template_types() + config_template_types();
    proof {
        assert(builtins@.map_values(|s: &str| s@) =~= all);
    }
    let mut k: usize = 0;
    while k < builtins.len()
        invariant
            k <= 8,
            builtins@.len() == 8,
            builtins@.map_values(|s: &str| s@) == all,
            all == content_template_types() + config_template_types(),
            out@.len() >= workspace_names@.len(),
            forall|j: int| 0 <= j < workspace_names@.len() ==> (#[trigger] out@[j]).name@ == workspace_names@[j]@
                && out@[j].source == TemplateSource::Workspace,
            forall|j: int| workspace_names@.len() <= j < out@.len() ==> (#[trigger] out@[j]).source == TemplateSource::Builtin
                && all.contains(out@[j].name@),
            forall|q: int| 0 <= q < k ==> lists(out@, #[trigger] all[q]),
        decreases 8 - k,
    {
        assert(builtins@.map_values(|s: &str| s@)[k as int] == builtins@[k as int]@);
        if !name_listed(&out, builtins[k]) {
            let ghost before = out@;
            out.push(TemplateEntry { name: lit(builtins[k]), source: TemplateSource::Builtin });
            proof {
                assert(out@[out@.len() - 1].name@ == all[k as int]);
                assert forall|q: int| 0 <= q < k + 1 implies lists(out@, #[trigger] all[q]) by {
                    if q < k {
                        let j = choose|j: int| 0 <= j < before.len() && (#[trigger] before[j]).name@ == all[q];
                        assert(out@[j] == before[j]);
                    } else {
                        assert(out@[out@.len() - 1].name@ == all[q]);
                    }
                }
            }
        }
        k = k + 1;
    }
    proof {
        assert forall|i: int| workspace_names@.len() <= i < out@.len() implies (#[trigger] out@[i]).source == TemplateSource::Builtin
            && (content_template_types().contains(out@[i].name@) || config_template_types().contains(out@[i].name@)) by {
            let n = out@[i].name@;
            let q = choose|q: int| 0 <= q < all.len() && all[q] == n;
            if q < 4 {
                assert(content_template_types()[q] == n);
            } else {
                assert(config_template_types()[q - 4] == n);
            }
        }
        assert forall|n: Seq<char>| #[trigger] content_template_types().contains(n) implies lists(out@, n) by {
            let k2 = choose|k2: int| 0 <= k2 < 4 && content_template_types()[k2] == n;
            assert(all[k2] == content_template_types()[k2]);
        }
        assert forall|n: Seq<char>| #[trigger] config_template_types().contains(n) implies lists(out@, n) by {
            let k2 = choose|k2: int| 0 <= k2 < 4 && config_template_types()[k2] == n;
            assert(all[k2 + 4] == config_template_types()[k2]);
        }
    }
    out
}


// ───────────────────────── built-in content templates ─────────────────────────

/// Built-in finding template; `{{title}}` stands for the finding's title.
pub const FINDING_TEMPLATE: &'static str = "---\nid: \"\"\nstatus: \"open\"\nseverity: \"\"\ncvss: \"\"\ncwe: \"\"\ncreated: \"\"\nupdated: \"\"\n---\n\n# {{title}}\n\n## Description\n\n## Impact\n\n## Steps to Reproduce\n\n## Remediation\n\n## References\n";

/// Built-in requirement template; `{{title}}` stands for the requirement's
/// title.
pub const REQUIREMENT_TEMPLATE: &'static str = "---\nid: \"\"\nstatus: \"draft\"\ncreated: \"\"\nupdated: \"\"\n---\n\n# {{title}}\n\n## Description\n\n## Acceptance Criteria\n";

/// Built-in report template.
pub const REPORT_TEMPLATE: &'static str = "# Security Assessment Report\n\n## Executive Summary\n\n## Scope\n\n## Methodology\n\n## Findings\n\n## Conclusion\n";

/// Built-in statement-of-work template.
pub const SOW_TEMPLATE: &'static str = "# Statement of Work\n\n## Objectives\n\n## Scope\n\n## Approach\n\n## Timeline\n\n## Deliverables\n";

/// The built-in content template for a type: `finding`, `requirement`,
/// `report` or `sow`; `None` for any other name.
pub fn builtin_template(name: &str) -> (r: Option<&'static str>)
    ensures
        name@ == "finding"@ ==> r == Some(FINDING_TEMPLATE),
        name@ == "requirement"@ ==> r == Some(REQUIREMENT_TEMPLATE),
        name@ == "report"@ ==> r == Some(REPORT_TEMPLATE),
        name@ == "sow"@ ==> r == Some(SOW_TEMPLATE),
        r.is_none() <==> !(name@ == "finding"@ || name@ == "requirement"@ || name@ == "report"@
            || name@ == "sow"@),
{
    let v = chars_of(name);
    proof {
        reveal_strlit("finding");
        reveal_strlit("requirement");
        reveal_strlit("report");
        reveal_strlit("sow");
        assert("finding"@.len() == 7);
        assert("requirement"@.len() == 11);
        assert("report"@.len() == 6);
        assert("sow"@.len() == 3);
    }
    if crate::text::eq_lit(&v, "finding") {
        Some(FINDING_TEMPLATE)
    } else if crate::text::eq_lit(&v, "requirement") {
        Some(REQUIREMENT_TEMPLATE)
    } else if crate::text::eq_lit(&v, "report") {
        Some(REPORT_TEMPLATE)
    } else if crate::text::eq_lit(&v, "sow") {
        Some(SOW_TEMPLATE)
    } else {
        None
    }
}

} // verus!
