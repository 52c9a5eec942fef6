//! Stored templates of the application and the rules for them.

use super::clients::{check, checked};
use crate::text::{byte_len, chars_of, lit, one_of, str_len, trim, trim_str};
use vstd::prelude::*;

verus! {

/// A template as listed.
pub struct TemplateSummary {
    pub id: u32,
    pub name: String,
    pub category: String,
    pub subcategory: String,
    pub tags: Vec<String>,
    pub is_builtin: bool,
    pub created_at: i64,
    pub updated_at: i64,
}

/// A template with its content.
pub struct Template {
    pub id: u32,
    pub name: String,
    pub category: String,
    pub subcategory: String,
    pub content: String,
    pub tags: Vec<String>,
    pub is_builtin: bool,
    pub is_active: bool,
    pub created_at: i64,
    pub updated_at: i64,
}

/// A template as entered.
pub struct TemplateInput {
    pub name: String,
    pub category: String,
    pub subcategory: String,
    pub content: String,
    pub tags: Option<Vec<String>>,
}

/// The template categories.
pub open spec fn template_categories() -> Seq<Seq<char>> {
    seq!["finding"@, "requirements"@, "checklist"@, "email"@, "status_report"@, "engagement_status"@]
}

pub open spec fn category_rule(c: Seq<char>) -> Result<(), Seq<char>> {
    check(
        template_categories().contains(c),
        "Invalid category: "@ + c
            + ". Must be one of: [\"finding\", \"requirements\", \"checklist\", \"email\", \"status_report\", \"engagement_status\"]"@,
    )
}

/// Checks a template category.
pub fn validate_category(category: &str) -> (r: Result<(), String>)
    ensures
        checked(r, category_rule(category@)),
{
    let v = chars_of(category);
    let opts = ["finding", "requirements", "checklist", "email", "status_report", "engagement_status"];
    let ok = one_of(&v, &opts);
    proof {
        assert(opts@.map_values(|s: &str| s@) =~= template_categories());
        if ok {
            let i = choose|i: int| 0 <= i < opts@.len() && v@ == (#[trigger] opts@[i])@;
            assert(template_categories()[i] == category@);
        } else {
            assert forall|i: int| 0 <= i < template_categories().len() implies template_categories()[i] != category@ by {
                assert(opts@[i]@ == template_categories()[i]);
            }
        }
    }
    if ok {
        Ok(())
    } else {
        let mut m = lit("Invalid category: ");
        m.append(category);
        m.append(". Must be one of: [\"finding\", \"requirements\", \"checklist\", \"email\", \"status_report\", \"engagement_status\"]");
        Err(m)
    }
}

/// The rule for a template name: not blank, at most 255 bytes.
pub open spec fn template_name_rule(name: Seq<char>) -> Result<(), Seq<char>> {
    if trim(name).len() == 0 {
        Err("Template name is required."@)
    } else if byte_len(name) > 255 {
        Err("Template name exceeds 255 characters."@)
    } else {
        Ok(())
    }
}

/// Checks a template name.
pub fn validate_name(name: &str) -> (r: Result<(), String>)
    ensures
        checked(r, template_name_rule(name@)),
{
    let t = trim_str(name);
    if t.as_str().is_empty() {
        return Err(lit("Template name is required."));
    }
    if str_len(name) > 255 {
        return Err(lit("Template name exceeds 255 characters."));
    }
    Ok(())
}

/// The rule for template content: at most 100,000 bytes.
pub open spec fn content_rule(content: Seq<char>) -> Result<(), Seq<char>> {
    check(byte_len(content) <= 100_000, "Template content exceeds maximum size of 100KB."@)
}

/// Checks template content.
pub fn validate_content(content: &str) -> (r: Result<(), String>)
    ensures
        checked(r, content_rule(content@)),
{
    if str_len(content) > 100_000 {
        return Err(lit("Template content exceeds maximum size of 100KB."));
    }
    Ok(())
}

} // verus!
