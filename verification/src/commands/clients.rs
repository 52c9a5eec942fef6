//! Clients: their records and the rules for names, e-mail addresses and notes.

use crate::text::{byte_len, chars_of, contains, lit, split_chars, split_on, str_len, trim, trim_str};
use vstd::prelude::*;

verus! {

/// A client as stored.
pub struct Client {
    pub id: u32,
    pub name: String,
    pub contact_email: Option<String>,
    pub notes: Option<String>,
    pub tags: Vec<String>,
    pub tech_stack: Vec<String>,
    pub created_at: i64,
    pub updated_at: i64,
}

/// Counts shown on the dashboard.
pub struct DashboardStats {
    pub client_count: u32,
    pub finding_count: u32,
    pub engagement_count: u32,
    pub findings_ready: bool,
    pub engagements_ready: bool,
}

/// The outcome of a check, as the command reports it.
pub open spec fn check(ok: bool, message: Seq<char>) -> Result<(), Seq<char>> {
    if ok {
        Ok(())
    } else {
        Err(message)
    }
}

/// Whether an exec check result is the model one.
pub open spec fn checked(r: Result<(), String>, m: Result<(), Seq<char>>) -> bool {
    match r {
        Ok(()) => m is Ok,
        Err(e) => m == Err::<(), Seq<char>>(e@),
    }
}

/// The rule for a client name: not blank, at most 255 bytes.
pub open spec fn client_name_rule(name: Seq<char>) -> Result<(), Seq<char>> {
    if trim(name).len() == 0 {
        Err("Client name is required."@)
    } else if byte_len(name) > 255 {
        Err("Client name must be 255 characters or fewer."@)
    } else {
        Ok(())
    }
}

/// Checks a client name.
pub fn validate_name(name: &str) -> (r: Result<(), String>)
    ensures
        checked(r, client_name_rule(name@)),
{
    let t = trim_str(name);
    if t.as_str().is_empty() {
        return Err(lit("Client name is required."));
    }
    if str_len(name) > 255 {
        return Err(lit("Client name must be 255 characters or fewer."));
    }
    Ok(())
}

/// An address with exactly one `@` whose domain holds a `.` neither at its
/// start nor at its end.
pub open spec fn email_shape(email: Seq<char>) -> bool {
    let parts = split_on(email, '@');
    parts.len() == 2 && parts[1].contains('.') && parts[1][0] != '.' && parts[1].last() != '.'
}

/// Whether an e-mail address has a plausible shape.
pub fn is_valid_email(email: &str) -> (r: bool)
    ensures
        r == email_shape(email@),
{
    let v = chars_of(email);
    let parts = split_chars(&v, '@');
    if parts.len() != 2 {
        return false;
    }
    let d = &parts[1];
    proof {
        assert(d@ == split_on(email@, '@')[1]);
    }
    let mut has_dot = false;
    let mut i: usize = 0;
    while i < d.len()
        invariant
            i <= d@.len(),
            has_dot == exists|j: int| 0 <= j < i && d@[j] == '.',
        decreases d.len() - i,
    {
        if d[i] == '.' {
            has_dot = true;
        }
        i = i + 1;
    }
    if !has_dot {
        assert(!d@.contains('.'));
        return false;
    }
    assert(d@.contains('.')) by {
        let j = choose|j: int| 0 <= j < i && d@[j] == '.';
        assert(d@[j] == '.');
    }
    d[0] != '.' && d[d.len() - 1] != '.'
}

/// The rule for a client's contact e-mail: empty, or of a plausible shape.
pub open spec fn client_email_rule(email: Seq<char>) -> Result<(), Seq<char>> {
    check(email.len() == 0 || email_shape(email), "Contact email is invalid."@)
}

/// Checks a client's contact e-mail.
pub fn validate_email(email: &str) -> (r: Result<(), String>)
    ensures
        checked(r, client_email_rule(email@)),
{
    if !email.is_empty() && !is_valid_email(email) {
        return Err(lit("Contact email is invalid."));
    }
    Ok(())
}

/// The rule for client notes: at most 10,000 bytes.
pub open spec fn client_notes_rule(notes: Seq<char>) -> Result<(), Seq<char>> {
    check(byte_len(notes) <= 10_000, "Notes must be 10,000 characters or fewer."@)
}

/// Checks client notes.
pub fn validate_notes(notes: &str) -> (r: Result<(), String>)
    ensures
        checked(r, client_notes_rule(notes@)),
{
    if str_len(notes) > 10_000 {
        return Err(lit("Notes must be 10,000 characters or fewer."));
    }
    Ok(())
}

/// Checks the fields given to create or update a client, in the order the
/// commands check them: name, then e-mail, then notes.
pub fn validate_client_fields(name: Option<&str>, email: Option<&str>, notes: Option<&str>) -> (r: Result<(), String>)
    ensures
        checked(
            r,
            match name {
                Some(n) if client_name_rule(n@) is Err => client_name_rule(n@),
                _ => match email {
                    Some(e) if client_email_rule(e@) is Err => client_email_rule(e@),
                    _ => match notes {
                        Some(t) => client_notes_rule(t@),
                        None => Ok(()),
                    },
                },
            },
        ),
{
    match name {
        Some(n) => match validate_name(n) {
            Ok(()) => {},
            Err(e) => return Err(e),
        },
        None => {},
    }
    match email {
        Some(e) => match validate_email(e) {
            Ok(()) => {},
            Err(m) => return Err(m),
        },
        None => {},
    }
    match notes {
        Some(t) => validate_notes(t),
        None => Ok(()),
    }
}

} // verus!
