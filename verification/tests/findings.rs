use securitysmith::commands::finding_query::{finding_filter, finding_query, FindingFilters, SqlValue};
use securitysmith::findings::{
    calculate_fix_deadline, entity_body, find_finding_name, finding_file_name, finding_file_stem, finding_id,
    finding_passes_filters, fix_deadline_days, fix_deadline_on, replace_str, sort_order,
};

#[test]
fn finding_file_name_from_id_and_title() {
    let id = finding_id("ACME", "WEB", "001");
    assert_eq!(id, "ACME-WEB-001");
    let name = finding_file_name(&id, "Stored XSS");
    assert!(name.starts_with("acme_web_001_"));
    assert!(name.ends_with(".md"));
    assert_eq!(name, "acme_web_001_stored_xss.md");
}

#[test]
fn finding_found_by_id_prefix() {
    let names = vec![
        "notes.txt".to_string(),
        "acme_web_002_sqli.md".to_string(),
        "acme_web_001_stored_xss.md".to_string(),
        "acme_web_001_other.md".to_string(),
    ];
    assert_eq!(finding_file_stem("ACME-WEB-001"), "acme_web_001");
    assert_eq!(find_finding_name(&names, "ACME-WEB-001"), Some(2));
    assert_eq!(find_finding_name(&names, "acme-web-002"), Some(1));
    assert_eq!(find_finding_name(&names, "ACME-WEB-003"), None);
}

#[test]
fn listing_filters() {
    assert!(finding_passes_filters("high", "open", None, None));
    assert!(finding_passes_filters("high", "open", Some("high"), Some("open")));
    assert!(!finding_passes_filters("high", "open", Some("low"), None));
    assert!(!finding_passes_filters("high", "open", None, Some("fixed")));
}

#[test]
fn fix_deadline_by_severity() {
    assert_eq!(fix_deadline_days("critical"), Some(30));
    assert_eq!(fix_deadline_days("high"), Some(60));
    assert_eq!(fix_deadline_days("medium"), Some(90));
    assert_eq!(fix_deadline_days("low"), Some(180));
    assert_eq!(fix_deadline_days("informational"), None);
    assert_eq!(fix_deadline_on("critical", 0), "1970-01-31");
    assert_eq!(fix_deadline_on("low", 0), "1970-06-30");
    assert_eq!(fix_deadline_on("informational", 0), "");
    assert_eq!(fix_deadline_on("critical", i32::MAX), "");
    assert_eq!(calculate_fix_deadline("informational"), "");
    assert_eq!(calculate_fix_deadline("high").len(), 10);
}

#[test]
fn body_from_template_or_heading() {
    assert_eq!(entity_body(None, "Stored XSS"), "# Stored XSS\n\n");
    assert_eq!(entity_body(Some("# {{title}}\n\nSee {{title}}."), "XSS"), "# XSS\n\nSee XSS.");
    assert_eq!(replace_str("aaa", "aa", "b"), "ba");
    assert_eq!(replace_str("no match", "{{x}}", "y"), "no match");
}

#[test]
fn sort_order_is_stable_by_id() {
    let ids = vec!["B".to_string(), "A".to_string(), "B".to_string(), "AA".to_string(), "".to_string()];
    assert_eq!(sort_order(&ids), vec![4, 1, 3, 0, 2]);
    assert_eq!(sort_order(&Vec::new()), Vec::<usize>::new());
}

fn no_filters() -> FindingFilters {
    FindingFilters { engagement_id: None, client_id: None, search: None, severity: None, status: None, owasp_category: None }
}

#[test]
fn finding_query_without_filters() {
    let q = finding_query(&no_filters(), 0);
    assert!(q.count_sql.ends_with("WHERE f.is_active = 1"));
    assert!(q.items_sql.ends_with("WHERE f.is_active = 1 ORDER BY f.created_at DESC LIMIT ? OFFSET ?"));
    assert!(q.filter_params.is_empty());
    assert_eq!(q.limit, 1);
    assert_eq!(finding_query(&no_filters(), 9999).limit, 500);
    assert_eq!(finding_query(&no_filters(), 25).limit, 25);
}

#[test]
fn finding_query_binds_filters_in_order() {
    let f = FindingFilters {
        engagement_id: Some(4),
        client_id: None,
        search: Some("  sql injection ".to_string()),
        severity: Some("high".to_string()),
        status: None,
        owasp_category: Some("A03".to_string()),
    };
    let (sql, params) = finding_filter(&f);
    assert_eq!(
        sql,
        " AND f.engagement_id = ? AND f.severity = ? AND f.owasp_category = ? AND (f.title LIKE ? OR f.owasp_category LIKE ? OR f.tags LIKE ? OR c.name LIKE ? OR e.name LIKE ?)"
    );
    let term = SqlValue::Text("%sql injection%".to_string());
    assert_eq!(params.len(), 8);
    assert_eq!(params[0], SqlValue::Int(4));
    assert_eq!(params[1], SqlValue::Text("high".to_string()));
    assert_eq!(params[2], SqlValue::Text("A03".to_string()));
    for p in &params[3..] {
        assert_eq!(*p, term);
    }
    let q = finding_query(&f, 50);
    assert!(q.count_sql.ends_with(&sql));
    assert_eq!(q.filter_params, params);
}
