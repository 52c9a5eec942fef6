//! Client records kept in `clients/<short_name>/client-config.toml`.

use crate::text::{lit};
use crate::workspace::WorkspaceError;
use vstd::prelude::*;

verus! {

/// Name of a client's configuration file.
pub const CLIENT_FILE: &'static str = "client-config.toml";

/// A client record.
pub struct Client {
    pub short_name: String,
    pub display_name: String,
    pub registered_name: Option<String>,
    pub country: Option<String>,
    pub address: Option<String>,
    pub email: Option<String>,
    pub phone: Option<String>,
    pub business_tier: Option<String>,
    pub priority: Option<String>,
    pub status: String,
    pub tags: Vec<String>,
    pub notes: Option<String>,
}

impl Client {
    /// A new active client with the given names and nothing else set.
    pub fn new(short_name: String, display_name: String) -> (c: Client)
        ensures
            c.short_name@ == short_name@,
            c.display_name@ == display_name@,
            c.status@ == "active"@,
            c.registered_name is None && c.country is None && c.address is None && c.email is None
                && c.phone is None && c.business_tier is None && c.priority is None && c.notes is None,
            c.tags@.len() == 0,
    {
        Client {
            short_name,
            display_name,
            registered_name: None,
            country: None,
            address: None,
            email: None,
            phone: None,
            business_tier: None,
            priority: None,
            status: lit("active"),
            tags: Vec::new(),
            notes: None,
        }
    }

    /// The record renamed to a new short name (which must not be empty,
    /// else an I/O-kind error as the renaming reports it); every other field
    /// is kept.
    pub fn renamed(self, new_short: String) -> (r: Result<Client, WorkspaceError>)
        ensures
            new_short@.len() == 0 <==> r is Err,
            r matches Err(e) ==> (e matches WorkspaceError::Io(m) && m@ == "new short name cannot be empty"@),
            r matches Ok(c) ==> c.short_name@ == new_short@ && c.display_name@ == self.display_name@
                && c.status@ == self.status@ && c.tags@ == self.tags@,
    {
        if new_short.as_str().is_empty() {
            return Err(WorkspaceError::Io(lit("new short name cannot be empty")));
        }
        let mut c = self;
        c.short_name = new_short;
        Ok(c)
    }
}

} // verus!
