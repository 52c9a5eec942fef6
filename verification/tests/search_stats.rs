use securitysmith::check::{
    config_date_issues, credential_store_issue, duplicate_id_issues, engagement_status_issue,
    finding_value_issues, missing_field_issues, orphan_client_issue, requirement_value_issues,
    stale_workspace_issue, IssueSeverity,
};
use securitysmith::entities::check_missing_frontmatter_fields;
use securitysmith::search::{classify_entity, first_matching_line, search_file, MAX_RESULTS};
use securitysmith::sections::{
    hierarchy_levels, section_candidate, section_display_name, section_path_parts, split_list, Section,
    SectionList,
};
use securitysmith::stats::{is_client_config, FindingFields, StatsCollector, Tally};

#[test]
fn classify_by_path() {
    assert_eq!(classify_entity("templates/finding.md"), "template");
    assert_eq!(classify_entity("acme/web/initial/findings/acme_web_001_xss.md"), "finding");
    assert_eq!(classify_entity("acme/web/initial/requirements/req_001.md"), "requirement");
    assert_eq!(classify_entity("acme/web/initial/notes/n.md"), "note");
    assert_eq!(classify_entity("acme/documents/doc_001_nda.md"), "document");
    assert_eq!(classify_entity("docs/web/methodology.md"), "section");
    assert_eq!(classify_entity("acme/web/initial/scope.md"), "scope");
    assert_eq!(classify_entity("config.toml"), "workspace");
    assert_eq!(classify_entity("acme/config.toml"), "client");
    assert_eq!(classify_entity("acme/web/config.toml"), "project");
    assert_eq!(classify_entity("acme/web/initial/config.toml"), "engagement");
    assert_eq!(classify_entity("acme.md"), "client");
    assert_eq!(classify_entity("acme/web/initial/other/x.md"), "file");
}

#[test]
fn search_case_insensitive() {
    let content = "---\nid: X\n---\n\n# Stored XSS\n\n  Cross-site scripting in search  \n";
    assert_eq!(first_matching_line(content, "xss"), Some((5, "# Stored XSS".to_string())));
    assert_eq!(first_matching_line(content, "CROSS-SITE"), Some((7, "Cross-site scripting in search".to_string())));
    assert_eq!(first_matching_line(content, "sqli"), None);
    assert_eq!(MAX_RESULTS, 50);
}

#[test]
fn search_filters_by_type_and_client() {
    let rel = "acme/web/initial/findings/acme_web_001_xss.md";
    let r = search_file(rel, "# Stored XSS\n", "xss", None, None).unwrap();
    assert_eq!(r.entity_type, "finding");
    assert_eq!(r.file_path, rel);
    assert_eq!(r.line_number, 1);
    assert!(search_file(rel, "# Stored XSS\n", "xss", Some("note"), None).is_none());
    assert!(search_file(rel, "# Stored XSS\n", "xss", Some("finding"), Some("other")).is_none());
    assert!(search_file(rel, "# Stored XSS\n", "xss", Some("finding"), Some("acme")).is_some());
}

#[test]
fn tally_keeps_keys_sorted_and_counted() {
    let mut t = Tally::new();
    for k in ["medium", "high", "medium", "critical", "high", "medium"] {
        t.add(k);
    }
    let got: Vec<(&str, usize)> = t.entries.iter().map(|(k, c)| (k.as_str(), *c)).collect();
    assert_eq!(got, vec![("critical", 1), ("high", 2), ("medium", 3)]);
}

#[test]
fn tally_same_in_any_order() {
    let mut a = Tally::new();
    let mut b = Tally::new();
    for k in ["b", "a", "c", "a"] {
        a.add(k);
    }
    for k in ["a", "c", "a", "b"] {
        b.add(k);
    }
    assert_eq!(a.entries, b.entries);
}

#[test]
fn stats_with_data() {
    let mut c = StatsCollector::new();
    c.add_client(Some("high"));
    c.add_project(Some("medium"));
    c.add_engagement(Some("in_progress"));
    c.add_finding("web", Some(FindingFields { status: Some("open".into()), severity: Some("high".into()) }));
    c.add_finding("web", Some(FindingFields { status: Some("fixed".into()), severity: None }));
    c.add_finding("web", None);
    let s = c.finish();
    assert_eq!((s.clients, s.projects, s.engagements), (1, 1, 1));
    assert_eq!(s.findings_total, 3);
    assert_eq!(s.findings_open, 1);
    assert_eq!(s.findings_by_severity, vec![("high".to_string(), 1), ("unknown".to_string(), 1)]);
    assert_eq!(s.open_findings_per_project, vec![("web".to_string(), 1)]);
    assert_eq!(s.clients_by_priority, vec![("high".to_string(), 1)]);
    assert_eq!(s.engagements_by_status, vec![("in_progress".to_string(), 1)]);
    assert!(is_client_config("[client]\nstatus = \"active\"\n"));
    assert!(!is_client_config("[project]\n"));
}

#[test]
fn duplicate_ids_reported_after_first() {
    let ids = vec![
        ("A-1".to_string(), Some("a.md".to_string())),
        ("A-2".to_string(), None),
        ("A-1".to_string(), Some("c.md".to_string())),
        ("A-1".to_string(), Some("d.md".to_string())),
    ];
    let issues = duplicate_id_issues(&ids);
    assert_eq!(issues.len(), 2);
    assert_eq!(issues[0].message, "Duplicate finding ID: A-1");
    assert_eq!(issues[0].path.as_deref(), Some("c.md"));
    assert_eq!(issues[1].path.as_deref(), Some("d.md"));
    assert_eq!(issues[0].severity, IssueSeverity::Error);
}

#[test]
fn check_missing_frontmatter_field() {
    let present = vec!["id".to_string(), "status".to_string()];
    let missing = check_missing_frontmatter_fields(&present, &["id", "status", "severity", "created", "updated"]);
    assert_eq!(missing, vec!["severity", "created", "updated"]);
    let issues = missing_field_issues("Finding", Some("ACME-WEB-001"), &missing, &None);
    assert_eq!(issues[0].message, "Finding `ACME-WEB-001` is missing required field `severity`.");
    let issues = missing_field_issues("Requirement", None, &vec!["id".to_string()], &None);
    assert_eq!(issues[0].message, "Requirement `unknown` is missing required field `id`.");
}

#[test]
fn check_invalid_finding_values() {
    let p = Some("f.md".to_string());
    let issues = finding_value_issues(Some("bogus"), Some("extreme"), &p);
    assert_eq!(issues.len(), 2);
    assert_eq!(issues[0].message, "`bogus` is not a valid Finding status.");
    assert_eq!(issues[1].message, "`extreme` is not a valid Finding severity.");
    assert!(finding_value_issues(Some("open"), Some("high"), &p).is_empty());
    assert!(finding_value_issues(None, None, &p).is_empty());
    let r = requirement_value_issues(Some("done"), &p);
    assert_eq!(r[0].message, "`done` is not a valid Requirement status.");
    assert!(requirement_value_issues(Some("deferred"), &p).is_empty());
}

#[test]
fn check_invalid_dates_and_statuses() {
    let issues = config_date_issues("2026-13", "", &None);
    assert_eq!(issues.len(), 1);
    assert_eq!(issues[0].message, "Date `2026-13` is not in YYYY-MM-DD format.");
    assert!(config_date_issues("2026-07-01", "2026-07-14", &None).is_empty());
    let e = engagement_status_issue("bogus", &None).unwrap();
    assert_eq!(e.message, "`bogus` is not a valid engagement status. Use: draft, planned, in_progress, paused, completed, closed.");
    assert!(engagement_status_issue("paused", &None).is_none());
}

#[test]
fn check_credential_store_magic() {
    let bad = credential_store_issue(Some(b"NOTCRED"), "/w/.credentials.enc").unwrap();
    assert_eq!(bad.message, "Credential store has invalid format (bad magic header).");
    assert!(credential_store_issue(Some(b"SSCRED\x01rest"), "/w/.credentials.enc").is_none());
    assert!(credential_store_issue(Some(b"SSC"), "p").is_some());
    assert_eq!(credential_store_issue(None, "p").unwrap().message, "Cannot read credential store file.");
}

#[test]
fn check_orphans_and_stale() {
    let o = orphan_client_issue("acme", false, true, &None).unwrap();
    assert_eq!(o.message, "Client directory `acme` has no config.toml");
    assert_eq!(o.severity, IssueSeverity::Warning);
    assert!(orphan_client_issue("templates", false, true, &None).is_none());
    assert!(orphan_client_issue("acme", true, true, &None).is_none());
    let s = stale_workspace_issue("work", "/x", false).unwrap();
    assert_eq!(s.message, "Stale workspace entry: work at /x (path no longer exists)");
    assert!(stale_workspace_issue("work", "/x", true).is_none());
}

fn sec(name: &str, level: &'static str, content: &str) -> Section {
    Section { name: name.to_string(), source_level: level, path: String::new(), content: content.to_string() }
}

#[test]
fn discover_sections_inheritance_override() {
    let mut l = SectionList::new();
    l.insert_if_absent(sec("methodology", "client", "Client methodology"));
    l.insert_if_absent(sec("methodology", "workspace", "Master methodology"));
    l.insert_if_absent(sec("terms", "workspace", "Terms"));
    let items = l.into_items();
    assert_eq!(items.len(), 2);
    assert_eq!(items[0].content, "Client methodology");
    assert_eq!(items[0].source_level, "client");
    assert_eq!(items[1].name, "terms");
}

#[test]
fn assemble_with_exclude() {
    let mut l = SectionList::new();
    l.insert(sec("pricing", "workspace", "Pricing"));
    l.insert(sec("methodology", "workspace", "Methodology"));
    l.insert(sec("terms", "workspace", "Terms"));
    for item in split_list("pricing") {
        l.remove(&item);
    }
    assert!(l.contains_name("methodology"));
    assert!(!l.contains_name("pricing"));
    assert!(l.contains_name("terms"));
}

#[test]
fn section_paths_and_levels() {
    let levels = hierarchy_levels("/acme/web/initial/");
    let got: Vec<(&str, &str)> = levels.iter().map(|(a, b)| (*a, b.as_str())).collect();
    assert_eq!(
        got,
        vec![("client", "acme"), ("project", "acme/web"), ("engagement", "acme/web/initial"), ("workspace", "")]
    );
    assert_eq!(split_list(" web/methodology, ,api/methodology ,"), vec!["web/methodology", "api/methodology"]);
    assert_eq!(section_path_parts("web/methodology"), ("web".to_string(), "methodology".to_string()));
    assert_eq!(section_path_parts("a/b/c"), ("a".to_string(), "b/c".to_string()));
    assert_eq!(section_path_parts("terms"), (String::new(), "terms".to_string()));
    assert_eq!(section_display_name("web", "methodology"), "web_methodology");
    assert_eq!(section_display_name("", "terms"), "terms");
    assert_eq!(section_candidate("web", "methodology", false), "web/methodology.md");
    assert_eq!(section_candidate("", "terms", true), "common/terms.md");
    assert_eq!(section_candidate("", "terms", false), "terms.md");
}
