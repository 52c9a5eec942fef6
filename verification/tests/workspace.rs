use securitysmith::typst::{build_source, FindingInput, TypstInputs};
use securitysmith::checklists::{
    covered_count, list_builtin_checklists, ChecklistTracking, TrackingItem, TrackingMeta,
};
use securitysmith::documents::{slugify, DocumentType};
use securitysmith::evidence::sanitize_filename;
use securitysmith::render::{render_html, render_markdown, OutputFormat};
use securitysmith::typst::{escape_typst_string, markdown_to_typst};
use securitysmith::workspace::{is_absolute_path, validate_name};

#[test]
fn validate_name_accepts_snake_case() {
    assert!(validate_name("acme").is_ok());
    assert!(validate_name("web_app_2026").is_ok());
    assert!(validate_name("abc123").is_ok());
}

#[test]
fn validate_name_rejects_invalid() {
    assert!(validate_name("").is_err());
    assert!(validate_name("Acme").is_err());
    assert!(validate_name("acme-corp").is_err());
    assert!(validate_name("acme corp").is_err());
    assert!(validate_name("templates").is_err());
}

#[test]
fn is_absolute_path_detects() {
    assert!(is_absolute_path("/home/user/test"));
    assert!(is_absolute_path("~/securitysmith"));
    assert!(!is_absolute_path("acme"));
    assert!(!is_absolute_path("acme/web_app"));
}

#[test]
fn document_type_parse() {
    assert_eq!(DocumentType::parse("roe"), Some(DocumentType::Roe));
    assert_eq!(DocumentType::parse("nda"), Some(DocumentType::Nda));
    assert_eq!(DocumentType::parse("proposal"), Some(DocumentType::Proposal));
    assert_eq!(DocumentType::parse("custom"), Some(DocumentType::Custom));
    assert_eq!(DocumentType::parse("invalid"), None);
}

#[test]
fn slugify_works() {
    assert_eq!(slugify("Rules of Engagement"), "rules_of_engagement");
    assert_eq!(slugify("NDA"), "nda");
    assert_eq!(slugify("Test!@#Title"), "test_title");
}

#[test]
fn sanitize_filename_basic() {
    assert_eq!(sanitize_filename("screenshot.png"), "screenshot.png");
    assert_eq!(sanitize_filename("file with spaces.txt"), "file_with_spaces.txt");
    assert_eq!(sanitize_filename("../../etc/passwd"), ".._.._etc_passwd");
}

#[test]
fn builtin_checklists_listed() {
    let list = list_builtin_checklists();
    assert!(list.contains(&"owasp-wstg"));
}

fn item(id: &str, status: &str) -> TrackingItem {
    TrackingItem {
        id: id.to_string(),
        status: status.to_string(),
        finding_id: String::new(),
        notes: String::new(),
    }
}

#[test]
fn coverage_calculation() {
    let tracking = ChecklistTracking {
        tracking: TrackingMeta { checklist_name: String::new() },
        items: vec![
            item("1", "tested"),
            item("2", "not_started"),
            item("3", "finding_created"),
            item("4", "not_applicable"),
            item("5", "in_progress"),
        ],
    };
    let covered = covered_count(&tracking);
    let coverage = (covered as f64 / tracking.items.len() as f64) * 100.0;
    assert_eq!(coverage, 60.0);
}

#[test]
fn render_markdown_identity() {
    let md = "# Test\n\nHello.\n";
    let result = render_markdown(md);
    assert_eq!(String::from_utf8(result).unwrap(), md);
}

#[test]
fn render_html_basic() {
    let md = "# Test\n\nHello.\n";
    let html = render_html(md);
    assert!(html.contains("<!DOCTYPE html>"));
    assert!(html.contains("<h1>Test</h1>"));
}

#[test]
fn output_format_from_str() {
    assert_eq!(OutputFormat::parse_format("markdown"), Some(OutputFormat::Markdown));
    assert_eq!(OutputFormat::parse_format("html"), Some(OutputFormat::Html));
    assert_eq!(OutputFormat::parse_format("pdf"), Some(OutputFormat::Pdf));
    assert_eq!(OutputFormat::parse_format("json"), Some(OutputFormat::Json));
    assert_eq!(OutputFormat::parse_format("invalid"), None);
}

#[test]
fn convert_heading() {
    let result = markdown_to_typst("# Hello\n\nWorld").unwrap();
    assert!(result.contains("= Hello"));
}

#[test]
fn convert_bold() {
    let result = markdown_to_typst("**bold text**").unwrap();
    assert!(result.contains("#strong[bold text]"));
}

#[test]
fn convert_italic() {
    let result = markdown_to_typst("*italic text*").unwrap();
    assert!(result.contains("#emph[italic text]"));
}

#[test]
fn convert_inline_code() {
    let result = markdown_to_typst("`code`").unwrap();
    assert!(result.contains("#raw(\"code\")"));
}

#[test]
fn convert_unordered_list() {
    let result = markdown_to_typst("- item one\n- item two").unwrap();
    assert!(result.contains("- item one"));
    assert!(result.contains("- item two"));
}

#[test]
fn convert_ordered_list() {
    let result = markdown_to_typst("1. first\n2. second").unwrap();
    assert!(result.contains("+ first"));
    assert!(result.contains("+ second"));
}

#[test]
fn convert_link() {
    let result = markdown_to_typst("[text](https://example.com)").unwrap();
    assert!(result.contains("#link(\"https://example.com\")[text]"));
}

#[test]
fn convert_code_block() {
    let result = markdown_to_typst("```rust\nfn main() {}\n```").unwrap();
    assert!(result.contains("#raw(block: true"));
}

#[test]
fn convert_table() {
    let result = markdown_to_typst("| A | B |\n|---|---|\n| 1 | 2 |").unwrap();
    assert!(result.contains("#table("));
    assert!(result.contains("columns: 2"));
}

#[test]
fn convert_empty() {
    let result = markdown_to_typst("").unwrap();
    assert!(result.is_empty());
}

#[test]
fn escape_string_basic() {
    assert_eq!(escape_typst_string("hello"), "hello");
    assert_eq!(escape_typst_string("say \"hi\""), "say \\\"hi\\\"");
    assert_eq!(escape_typst_string("line\nbreak"), "line\\nbreak");
    assert_eq!(escape_typst_string("back\\slash"), "back\\\\slash");
}

#[test]
fn typst_source_assembled() {
    let inputs = TypstInputs {
        findings: vec![FindingInput {
            id: "A-1".to_string(),
            status: "open".to_string(),
            severity: "high".to_string(),
            body: "say \"hi\"".to_string(),
        }],
        requirements: vec![],
        scope: None,
        sections: vec![],
        metadata: vec![("client".to_string(), "Acme".to_string())],
        notes: vec![],
    };
    let src = build_source("#let report(doc) = doc", "report", &inputs);
    assert!(src.starts_with("#let report(doc) = doc\n\n#let findings = (\n"));
    assert!(src.contains("  (id: \"A-1\", status: \"open\", severity: \"high\", body: eval(\"say \\\"hi\\\"\", mode: \"markup\")),\n"));
    assert!(src.contains("#let scope = none\n\n"));
    assert!(src.contains("Acme"));
}

#[test]
fn typst_string_escape_leaves_no_control_chars() {
    let out = escape_typst_string("a\u{1}b\tc\r\u{7f}\u{9f}");
    assert_eq!(out, "a\\u{0001}b\\tc\\r\\u{007f}\\u{009f}");
    assert!(!out.chars().any(|c| c.is_control()));
}
