use securitysmith::entities::{
    check_engagement_date, is_valid_date, check_engagement_status_change, entity_segments, is_valid_requirement_transition,
    next_sequence_id, set_engagement_date, EngagementSection, ProjectIdSection,
};
use securitysmith::config_tree::{copy_value, merge_config, ConfigValue};
use securitysmith::findings::check_requirement_status_change;
use securitysmith::workspace::WorkspaceError;

#[test]
fn resolve_path_rejects_unsafe_segments() {
    for path in ["../acme", "acme/../initial", "/tmp/acme", "acme//initial", "acme/./initial"] {
        assert!(entity_segments(path).is_err(), "accepted unsafe path: {path}");
    }
}

#[test]
fn entity_segments_splits_valid_paths() {
    let segs = entity_segments("acme/web_app/initial").unwrap();
    assert_eq!(segs, vec!["acme", "web_app", "initial"]);
    assert!(matches!(entity_segments("a/b/c/d"), Err(WorkspaceError::NotFound(p)) if p == "a/b/c/d"));
    assert!(matches!(entity_segments(""), Err(WorkspaceError::InvalidName(_))));
}

#[test]
fn increment_sequence_works() {
    let mut id = ProjectIdSection { sequence: 1, padding: 3, requirement_sequence: 1 };
    assert_eq!(next_sequence_id(&mut id), "001");
    assert_eq!(next_sequence_id(&mut id), "002");
    assert_eq!(id.sequence, 3);
}

#[test]
fn invalid_status_transition_rejected() {
    let result = check_requirement_status_change("open", "verified");
    assert!(result.is_err());
    let err = result.unwrap_err();
    assert!(matches!(err, WorkspaceError::InvalidStatusSeverity(ref m) if m == "Invalid requirement status transition: open -> verified"));
}

#[test]
fn same_status_transition_is_noop() {
    assert!(check_requirement_status_change("open", "open").is_ok());
    assert!(check_requirement_status_change("verified", "verified").is_ok());
    assert!(check_requirement_status_change("", "verified").is_ok());
}

#[test]
fn requirement_state_machine_moves() {
    assert!(is_valid_requirement_transition("open", "in_progress"));
    assert!(is_valid_requirement_transition("in_progress", "verified"));
    assert!(is_valid_requirement_transition("in_progress", "rejected"));
    assert!(is_valid_requirement_transition("open", "deferred"));
    assert!(is_valid_requirement_transition("deferred", "open"));
    assert!(!is_valid_requirement_transition("verified", "open"));
    assert!(!is_valid_requirement_transition("rejected", "in_progress"));
}

#[test]
fn credential_gate_blocks_in_progress() {
    let r = check_engagement_status_change("in_progress", true, false, "acme/web/initial");
    assert!(matches!(r, Err(WorkspaceError::MissingField(ref m))
        if m == "Cannot start engagement: credentials not marked ready. Use `sm engagement acme/web/initial --credentials-ready` first."));
    assert!(check_engagement_status_change("in_progress", true, true, "acme/web/initial").is_ok());
    assert!(check_engagement_status_change("in_progress", false, false, "acme/web/initial").is_ok());
}

#[test]
fn entities_invalid_status_rejected() {
    let r = check_engagement_status_change("invalid", false, false, "acme/web/initial");
    assert!(matches!(r, Err(WorkspaceError::InvalidStatusSeverity(ref m))
        if m == "'invalid' is not a valid engagement status. Use: draft, planned, in_progress, paused, completed, closed."));
}

fn section() -> EngagementSection {
    EngagementSection {
        engagement_type: "assessment".to_string(),
        status: "draft".to_string(),
        start_date: String::new(),
        end_date: String::new(),
        credentials_ready: false,
        original_engagement: String::new(),
    }
}

#[test]
fn update_engagement_date_works() {
    let mut s = section();
    check_engagement_date("2026-08-01").unwrap();
    set_engagement_date(&mut s, "start_date", "2026-08-01").unwrap();
    assert_eq!(s.start_date, "2026-08-01");
    assert_eq!(s.end_date, "");
}

#[test]
fn invalid_date_rejected() {
    assert!(matches!(check_engagement_date("invalid"), Err(WorkspaceError::InvalidDate(ref d)) if d == "invalid"));
    assert!(check_engagement_date("2026-02-30").is_err());
    assert!(check_engagement_date("").is_ok());
    let mut s = section();
    assert!(matches!(set_engagement_date(&mut s, "due_date", "2026-08-01"), Err(WorkspaceError::InvalidName(_))));
}

fn leaf_names(v: &ConfigValue) -> Vec<String> {
    match v {
        ConfigValue::Table(t) => t.iter().map(|(k, _)| k.clone()).collect(),
        ConfigValue::Leaf(_) => Vec::new(),
    }
}

#[test]
fn migration_fills_missing_keys_only() {
    let existing = ConfigValue::Table(vec![
        ("client".to_string(), ConfigValue::Table(vec![("status".to_string(), ConfigValue::Leaf(1))])),
        ("version".to_string(), ConfigValue::Leaf(2)),
    ]);
    let defaults = ConfigValue::Table(vec![
        (
            "client".to_string(),
            ConfigValue::Table(vec![
                ("priority".to_string(), ConfigValue::Leaf(10)),
                ("status".to_string(), ConfigValue::Leaf(11)),
            ]),
        ),
        ("version".to_string(), ConfigValue::Leaf(12)),
        ("defaults".to_string(), ConfigValue::Table(vec![])),
    ]);
    let merged = merge_config(existing, &defaults);
    assert_eq!(leaf_names(&merged), vec!["client", "version", "defaults"]);
    match &merged {
        ConfigValue::Table(t) => {
            assert_eq!(leaf_names(&t[0].1), vec!["status", "priority"]);
            match &t[0].1 {
                ConfigValue::Table(c) => {
                    assert!(matches!(c[0].1, ConfigValue::Leaf(1)));
                    assert!(matches!(c[1].1, ConfigValue::Leaf(10)));
                }
                ConfigValue::Leaf(_) => panic!("client is a table"),
            }
            assert!(matches!(t[1].1, ConfigValue::Leaf(2)));
        }
        ConfigValue::Leaf(_) => panic!("merged config is a table"),
    }
    assert!(matches!(merge_config(ConfigValue::Leaf(5), &defaults), ConfigValue::Leaf(5)));
    assert!(matches!(copy_value(&ConfigValue::Leaf(7)), ConfigValue::Leaf(7)));
}

#[test]
fn dates_must_be_yyyy_mm_dd() {
    assert!(is_valid_date("2026-07-14"));
    assert!(!is_valid_date("not-a-date"));
    assert!(!is_valid_date("2026-7-14"));
    assert!(!is_valid_date("12-345-678"));
    assert!(!is_valid_date("2026/07/14"));
    assert!(!is_valid_date("2026-07-1x"));
}
