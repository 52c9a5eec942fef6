//! Client contacts: their records and the rules for names, e-mail and roles.

use super::clients::{check, checked};
use crate::text::{byte_len, chars_of, lit, one_of, str_len, trim, trim_str};
use vstd::prelude::*;

verus! {

/// A contact as stored.
pub struct Contact {
    pub id: u32,
    pub client_id: u32,
    pub name: String,
    pub email: String,
    pub phone: Option<String>,
    pub role: String,
    pub role_label: Option<String>,
    pub title: Option<String>,
    pub notes: Option<String>,
    pub is_primary: bool,
    pub is_active: bool,
    pub created_at: i64,
    pub updated_at: i64,
}

/// A contact as entered.
pub struct ContactInput {
    pub client_id: u32,
    pub name: String,
    pub email: String,
    pub phone: Option<String>,
    pub role: String,
    pub role_label: Option<String>,
    pub title: Option<String>,
    pub notes: Option<String>,
    pub is_primary: Option<bool>,
}

/// The contact roles.
pub open spec fn contact_roles() -> Seq<Seq<char>> {
    seq!["technical_poc"@, "management"@, "billing"@, "legal"@, "remediation"@, "executive"@, "other"@]
}

/// The message for a role that is not one of the roles.
pub open spec fn role_error(role: Seq<char>) -> Seq<char> {
    "Invalid role: "@ + role
        + ". Must be one of: [\"technical_poc\", \"management\", \"billing\", \"legal\", \"remediation\", \"executive\", \"other\"]"@
}

pub open spec fn role_rule(role: Seq<char>) -> Result<(), Seq<char>> {
    check(contact_roles().contains(role), role_error(role))
}

/// Checks that a role is one of the contact roles.
pub fn validate_role(role: &str) -> (r: Result<(), String>)
    ensures
        checked(r, role_rule(role@)),
{
    let v = chars_of(role);
    let opts = ["technical_poc", "management", "billing", "legal", "remediation", "executive", "other"];
    let ok = one_of(&v, &opts);
    proof {
        assert(opts@.map_values(|s: &str| s@) =~= contact_roles());
        if ok {
            let i = choose|i: int| 0 <= i < opts@.len() && v@ == (#[trigger] opts@[i])@;
            assert(contact_roles()[i] == role@);
        } else {
            assert forall|i: int| 0 <= i < contact_roles().len() implies contact_roles()[i] != role@ by {
                assert(opts@[i]@ == contact_roles()[i]);
            }
        }
    }
    if ok {
        Ok(())
    } else {
        let mut m = lit("Invalid role: ");
        m.append(role);
        m.append(". Must be one of: [\"technical_poc\", \"management\", \"billing\", \"legal\", \"remediation\", \"executive\", \"other\"]");
        Err(m)
    }
}

/// The rules for a contact: a name (not blank, at most 255 bytes), an
/// e-mail (not blank, at most 255 bytes) and a known role.
pub open spec fn contact_rule(name: Seq<char>, email: Seq<char>, role: Seq<char>) -> Result<(), Seq<char>> {
    if trim(name).len() == 0 {
        Err("Name is required."@)
    } else if byte_len(name) > 255 {
        Err("Name must be 255 characters or fewer."@)
    } else if trim(email).len() == 0 {
        Err("Email is required."@)
    } else if byte_len(email) > 255 {
        Err("Email must be 255 characters or fewer."@)
    } else {
        role_rule(role)
    }
}

/// Checks a contact as entered.
pub fn validate_contact(input: &ContactInput) -> (r: Result<(), String>)
    ensures
        checked(r, contact_rule(input.name@, input.email@, input.role@)),
{
    let n = trim_str(input.name.as_str());
    if n.as_str().is_empty() {
        return Err(lit("Name is required."));
    }
    if str_len(input.name.as_str()) > 255 {
        return Err(lit("Name must be 255 characters or fewer."));
    }
    let e = trim_str(input.email.as_str());
    if e.as_str().is_empty() {
        return Err(lit("Email is required."));
    }
    if str_len(input.email.as_str()) > 255 {
        return Err(lit("Email must be 255 characters or fewer."));
    }
    validate_role(input.role.as_str())
}

} // verus!
