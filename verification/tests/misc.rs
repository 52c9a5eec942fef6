use securitysmith::client::Client;
use securitysmith::commands::email::{follow_up_reminders, follow_up_reminders_today, CompletedEngagement};
use securitysmith::documents::{document_content, document_id, needs_status_change, DocumentStatus};
use securitysmith::entities::{effective_defaults, effective_template, DefaultsSection};
use securitysmith::entities::ProjectIdSection;
use securitysmith::import::{
    finding_file_content, heading_title, import_slug, is_duplicate_title, plan_import, project_path_of, ParsedFinding,
};
use securitysmith::render::pdf_source;
use securitysmith::templates::{builtin_template, template_file_name, template_name_from_file, validate_template_name};
use securitysmith::typst::{get_builtin_template, template_choice};

fn eng(id: u32, updated_at: i64) -> CompletedEngagement {
    CompletedEngagement { id, name: format!("E{id}"), client_name: "Acme".to_string(), updated_at }
}

#[test]
fn follow_ups_due_after_completion() {
    // 2026-07-08 is day 20642; completed at 2026-07-01 00:00 UTC.
    let today = 20642;
    let done = (20642 - 7) * 86400;
    let r = follow_up_reminders(today, 7, 30, &vec![eng(3, done)], &vec![]);
    assert_eq!(r.len(), 1);
    assert_eq!(r[0].reminder_type, "feedback");
    assert_eq!(r[0].due_date, "2026-07-08");
    assert_eq!(r[0].days_overdue, 0);
    let dismissed = vec!["followup_feedback:3".to_string()];
    assert!(follow_up_reminders(today, 7, 30, &vec![eng(3, done)], &dismissed).is_empty());
    let r = follow_up_reminders(today, 3, 5, &vec![eng(4, done)], &vec![]);
    assert_eq!(r.len(), 2);
    assert_eq!(r[0].days_overdue, 4);
    assert_eq!(r[1].reminder_type, "retest");
    assert_eq!(r[1].days_overdue, 2);
}

#[test]
fn import_helpers() {
    assert_eq!(import_slug("Stored XSS (v2)!"), "stored_xss__v2");
    let c = finding_file_content("ACME-WEB-001", "high", "2026-07-08", "XSS", "desc");
    assert!(c.starts_with("---\nid: \"ACME-WEB-001\"\nstatus: \"open\"\nseverity: \"high\"\n"));
    assert!(c.ends_with("---\n\n# XSS\n\ndesc\n"));
    assert_eq!(heading_title("---\nid: x\n---\n\n# Stored XSS\n\nBody"), "Stored XSS");
    let existing = vec!["Stored XSS".to_string()];
    assert!(is_duplicate_title("Stored XSS", &existing));
    assert!(!is_duplicate_title("stored xss", &existing));
    assert!(!is_duplicate_title("SQLi", &existing));
    assert_eq!(project_path_of("acme/web/initial"), "acme/web");
}

#[test]
fn finalize_already_finalized() {
    assert!(needs_status_change("draft", DocumentStatus::Finalized));
    assert!(!needs_status_change("finalized", DocumentStatus::Finalized));
    assert!(needs_status_change("finalized", DocumentStatus::Draft));
    assert_eq!(document_id(1), "DOC-001");
    assert_eq!(document_id(1234), "DOC-1234");
    let c = document_content("id: DOC-001\n", "NDA", "Body");
    assert!(c.contains("NDA"));
}

fn defaults(sev: &str, status: &str) -> DefaultsSection {
    DefaultsSection {
        severity: sev.to_string(),
        status: status.to_string(),
        report_format: String::new(),
        sow_format: String::new(),
    }
}

#[test]
fn defaults_inherited_down_the_hierarchy() {
    let ws = defaults("", "");
    let d = effective_defaults(&ws, None, None);
    assert_eq!((d.severity.as_str(), d.status.as_str(), d.report_format.as_str()), ("medium", "open", "markdown"));
    let ws = defaults("low", "");
    let client = defaults("high", "");
    let project = defaults("", "fixed");
    let d = effective_defaults(&ws, Some(&client), Some(&project));
    assert_eq!(d.severity, "high");
    assert_eq!(d.status, "fixed");
    let project = defaults("critical", "");
    assert_eq!(effective_defaults(&ws, Some(&client), Some(&project)).severity, "critical");
    assert_eq!(effective_defaults(&ws, None, None).severity, "low");
    let p = "custom".to_string();
    let e = String::new();
    let c = "client_tpl".to_string();
    assert_eq!(effective_template(Some(&p), Some(&c)), Some("custom".to_string()));
    assert_eq!(effective_template(Some(&e), Some(&c)), Some("client_tpl".to_string()));
    assert_eq!(effective_template(None, None), None);
}

#[test]
fn template_names() {
    assert!(validate_template_name("finding").is_ok());
    assert!(validate_template_name("Bad Name").is_err());
    assert!(validate_template_name("").is_err());
    assert_eq!(template_name_from_file("finding.md"), Some("finding".to_string()));
    assert!(template_file_name("finding").is_ok());
}

#[test]
fn client_records() {
    let c = Client::new("acme".to_string(), "Acme Corp".to_string());
    assert_eq!(c.status, "active");
    assert!(c.tags.is_empty());
    let r = c.renamed("acme2".to_string()).ok().unwrap();
    assert_eq!(r.short_name, "acme2");
    assert_eq!(r.display_name, "Acme Corp");
    let c = Client::new("x".to_string(), "X".to_string());
    assert!(c.renamed(String::new()).is_err());
}

#[test]
fn pdf_source_wraps_markup() {
    let s = pdf_source("# Title\n\nText").unwrap();
    assert!(s.contains("= Title"));
    assert!(s.contains("Text"));
    assert!(s.starts_with("#let simple(doc) = {\n  set page(paper: \"a4\", margin: 2cm)"));
    assert!(s.ends_with("\n"));
}

#[test]
fn follow_ups_today_from_the_clock() {
    assert!(follow_up_reminders_today(7, 30, &vec![], &vec![]).is_empty());
    // Completed at the Unix epoch: both follow-ups are long due today.
    let r = follow_up_reminders_today(7, 30, &vec![eng(9, 0)], &vec![]);
    assert_eq!(r.len(), 2);
    let dismissed = vec!["followup_feedback:9".to_string(), "followup_retest:9".to_string()];
    assert!(follow_up_reminders_today(7, 30, &vec![eng(9, 0)], &dismissed).is_empty());
}

#[test]
fn follow_ups_carry_engagement_and_client_names() {
    let today = 20642;
    let r = follow_up_reminders(today, 7, 7, &vec![eng(5, (20642 - 7) * 86400)], &vec![]);
    assert_eq!(r.len(), 2);
    for x in &r {
        assert_eq!(x.engagement_id, 5);
        assert_eq!(x.engagement_name, "E5");
        assert_eq!(x.client_name, "Acme");
    }
    assert_eq!(r[0].reminder_type, "feedback");
    assert_eq!(r[1].reminder_type, "retest");
}

fn pf(title: &str, severity: &str) -> ParsedFinding {
    ParsedFinding { title: title.to_string(), severity: severity.to_string(), description: "Desc".to_string() }
}

#[test]
fn import_plan_numbers_new_findings_and_skips_duplicates() {
    let existing = vec!["Old Issue".to_string()];
    let parsed = vec![pf("Old Issue", "low"), pf("SQL Injection!", "high"), pf("XSS", "medium")];
    let mut ids = ProjectIdSection { sequence: 7, padding: 3, requirement_sequence: 2 };
    let plan = plan_import(&existing, &parsed, &mut ids, "2026-07-14");
    assert_eq!(plan.summary.parsed, 3);
    assert_eq!(plan.summary.created, 2);
    assert_eq!(plan.summary.duplicates, 1);
    assert_eq!(ids.sequence, 9);
    assert_eq!(ids.requirement_sequence, 2);
    assert_eq!(plan.files[0].filename, "007_sql_injection.md");
    assert_eq!(
        plan.files[0].content,
        "---\nid: \"007\"\nstatus: \"open\"\nseverity: \"high\"\ncreated: \"2026-07-14\"\nupdated: \"2026-07-14\"\n---\n\n# SQL Injection!\n\nDesc\n"
    );
    assert_eq!(plan.files[1].filename, "008_xss.md");
}

#[test]
fn get_builtin_finding_template() {
    assert!(builtin_template("finding").unwrap().contains("{{title}}"));
    assert!(builtin_template("requirement").unwrap().contains("{{title}}"));
    assert!(builtin_template("report").unwrap().contains("Security Assessment Report"));
    assert!(builtin_template("sow").is_some());
    assert!(builtin_template("workspace").is_none());
}

#[test]
fn builtin_typst_templates_define_their_function() {
    for name in ["report", "sow", "proposal", "finding", "requirement", "scope", "note", "roe", "nda", "custom"] {
        let t = get_builtin_template(name).unwrap();
        assert!(t.starts_with(&format!("#let {name}(")));
    }
    assert!(get_builtin_template("unknown").is_none());
    let (c, f) = template_choice("report", Some("#let report(doc) = doc".to_string())).unwrap();
    assert_eq!(c, "#let report(doc) = doc");
    assert_eq!(f, "report");
    let (c, _) = template_choice("nda", None).unwrap();
    assert!(c.contains("Non-Disclosure Agreement"));
    assert_eq!(
        template_choice("x", None).unwrap_err(),
        "No template found for 'x'. No workspace template and no built-in default."
    );
}
