//! Input rules and pure decisions of the desktop application's commands:
//! what each command accepts, and what it computes from what it read.

pub mod clients;
pub mod contacts;
pub mod findings;
pub mod finding_query;
pub mod findings_import;
pub mod scope;
pub mod templates;
pub mod attachments;
pub mod email;
pub mod vault;
