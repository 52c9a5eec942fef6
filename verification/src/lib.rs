//! Verified core of SecuritySmith: validation rules, scanner-output parsers,
//! Markdown to Typst conversion and the workspace naming rules.

pub mod text;
pub mod parsers;
pub mod markdown;
pub mod typst;
pub mod workspace;
pub mod entities;
pub mod documents;
pub mod checklists;
pub mod evidence;
pub mod credentials;
pub mod import;
pub mod render;
pub mod templates;
pub mod commands;
pub mod records;
pub mod client;
pub mod notes;
pub mod search;
pub mod check;
pub mod stats;
pub mod findings;
pub mod sections;
pub mod config_tree;
pub mod news;
