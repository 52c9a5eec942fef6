use securitysmith::commands::clients::{is_valid_email, validate_client_fields, validate_email, validate_name, validate_notes};
use securitysmith::commands::contacts::{validate_contact, validate_role, ContactInput};
use securitysmith::commands::findings::{
    validate_finding, validate_severity, validate_status, AffectedEndpoint, Evidence, FindingInput, ImpactItem,
    RemediationItem,
};
use securitysmith::commands::templates::{validate_category, validate_content, validate_name as validate_template_title};
use securitysmith::records::{
    payment_cleared, recalc_total, time_invoice_notes, time_invoice_number, validate_activity, validate_invoice_status,
    InvoiceItemInput,
};

fn minimal_finding(title: &str) -> FindingInput {
    FindingInput {
        engagement_id: 1,
        title: title.to_string(),
        severity: "high".to_string(),
        overview: "Overview".to_string(),
        summary: "Summary".to_string(),
        affected_endpoints: vec![AffectedEndpoint {
            method: "GET".to_string(),
            path: "/api/test".to_string(),
            description: "Test endpoint".to_string(),
        }],
        evidence: vec![Evidence {
            title: "Evidence 1".to_string(),
            request: "GET /api/test".to_string(),
            response: "200 OK".to_string(),
        }],
        impact_items: vec![ImpactItem { title: "Impact".to_string(), explanation: "Explanation".to_string() }],
        remediation_items: vec![RemediationItem { action: "Fix".to_string(), fix: "Fix it".to_string(), code_snippet: None }],
        steps_to_reproduce: "Step 1".to_string(),
        cvss_score_bits: None,
        owasp_category: None,
        cwe_id: None,
        references: None,
        tags: None,
        notes: None,
    }
}

#[test]
fn test_invalid_severity() {
    let mut input = minimal_finding("Bad");
    input.severity = "bad".to_string();
    let result = validate_finding(&input);
    assert!(result.is_err());
    assert!(result.unwrap_err().contains("Invalid severity"));
}

#[test]
fn finding_rules_in_order() {
    assert!(validate_finding(&minimal_finding("XSS")).is_ok());
    assert_eq!(validate_finding(&minimal_finding("   ")).unwrap_err(), "Title is required.");
    let mut f = minimal_finding("XSS");
    f.affected_endpoints.clear();
    assert_eq!(validate_finding(&f).unwrap_err(), "At least one affected endpoint is required.");
    let mut f = minimal_finding("XSS");
    f.cvss_score_bits = Some(11.0f32.to_bits());
    assert_eq!(validate_finding(&f).unwrap_err(), "CVSS score must be between 0.0 and 10.0.");
    let mut f = minimal_finding("XSS");
    f.cvss_score_bits = Some(9.8f32.to_bits());
    assert!(validate_finding(&f).is_ok());
    let mut f = minimal_finding("XSS");
    f.cvss_score_bits = Some((-0.5f32).to_bits());
    assert!(validate_finding(&f).is_err());
    let mut f = minimal_finding("XSS");
    f.tags = Some(vec!["x".repeat(65)]);
    assert_eq!(validate_finding(&f).unwrap_err(), "Each tag must be 64 characters or fewer.");
    assert!(validate_severity("informational").is_ok());
    assert!(validate_status("wont_fix").is_ok());
    assert!(validate_status("open").is_err());
}

#[test]
fn client_fields_checked() {
    assert_eq!(validate_name("  ").unwrap_err(), "Client name is required.");
    assert!(validate_name("Acme").is_ok());
    assert!(validate_name(&"a".repeat(256)).is_err());
    assert!(is_valid_email("a@b.com"));
    assert!(!is_valid_email("a@b"));
    assert!(!is_valid_email("a@.b"));
    assert!(!is_valid_email("a@b@c.com"));
    assert!(validate_email("").is_ok());
    assert_eq!(validate_email("nope").unwrap_err(), "Contact email is invalid.");
    assert!(validate_notes(&"n".repeat(10_001)).is_err());
    assert!(validate_client_fields(Some("Acme"), Some("x@y.org"), None).is_ok());
    assert_eq!(validate_client_fields(Some(""), Some("bad"), None).unwrap_err(), "Client name is required.");
}

#[test]
fn contact_roles_checked() {
    assert!(validate_role("billing").is_ok());
    assert_eq!(
        validate_role("boss").unwrap_err(),
        "Invalid role: boss. Must be one of: [\"technical_poc\", \"management\", \"billing\", \"legal\", \"remediation\", \"executive\", \"other\"]"
    );
    let c = ContactInput {
        client_id: 1,
        name: "Ann".to_string(),
        email: "ann@acme.com".to_string(),
        phone: None,
        role: "legal".to_string(),
        role_label: None,
        title: None,
        notes: None,
        is_primary: None,
    };
    assert!(validate_contact(&c).is_ok());
}

#[test]
fn template_fields_checked() {
    assert!(validate_category("finding").is_ok());
    assert!(validate_category("poem").unwrap_err().starts_with("Invalid category: poem."));
    assert!(validate_template_title("Weekly status").is_ok());
    assert!(validate_template_title(" ").is_err());
    assert!(validate_content("body").is_ok());
}

#[test]
fn invoice_totals() {
    let items = vec![
        InvoiceItemInput { description: "Testing".to_string(), quantity: 10, rate_cents: 15_000 },
        InvoiceItemInput { description: "Report".to_string(), quantity: 1, rate_cents: 50_000 },
    ];
    assert_eq!(recalc_total(&items, 0, 0, 0), (200_000, 200_000));
    assert_eq!(recalc_total(&items, 1_000, 0, 0), (200_000, 220_000));
    assert_eq!(recalc_total(&items, 0, 10_000, 500), (200_000, 180_000));
    assert_eq!(recalc_total(&items, 0, 500_000, 0), (200_000, 0));
    assert_eq!(recalc_total(&[], 825, 0, 0), (0, 0));
}

#[test]
fn test_invalid_activity_type_rejected() {
    let err = validate_activity("bogus").unwrap_err();
    assert!(err.to_lowercase().contains("activity"));
    assert!(validate_activity("testing").is_ok());
}

#[test]
fn invoice_status_rules() {
    for s in ["draft", "sent", "paid", "cancelled", "overdue"] {
        assert!(validate_invoice_status(s).is_ok());
    }
    let err = validate_invoice_status("bogus").unwrap_err();
    assert_eq!(err, "Invalid invoice status.");
    assert!(err.to_lowercase().contains("invalid"));
    assert_eq!(payment_cleared("paid"), 1);
    assert_eq!(payment_cleared("sent"), 0);
}

#[test]
fn invoice_from_time_labels() {
    assert_eq!(time_invoice_number(1767225600), "INV-1767225600");
    assert_eq!(time_invoice_number(0), "INV-0");
    assert_eq!(
        time_invoice_notes("2026-06-01", "2026-06-30"),
        "Generated from time entries 2026-06-01 to 2026-06-30"
    );
}
