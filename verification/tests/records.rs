use securitysmith::checklists::{
    find_item, get_builtin_checklist, link_item_finding, new_tracking, owasp_wstg_subset, set_item_status,
};
use securitysmith::commands::attachments::{
    ensure_unique_filename, prepare_upload, sanitize_filename as attachment_name, AttachmentInput,
};
use securitysmith::commands::email::infer_mime_type;
use securitysmith::commands::scope::{bulk_import_items, detect_type, regex_simple_ip};
use securitysmith::commands::vault::{
    check_new_password, check_recovery_words, escape_sql_string, generate_positions, positions_from, recovery_audit,
    recovery_confirmed, recovery_envelope, retry_recovery, vault_salt, version_file_text, RecoveryState,
};
use securitysmith::documents::{document_filename, next_document_seq};
use securitysmith::evidence::{
    hash_check, is_text_extension, sanitize_filename, secret_warning, sha256_hex, unique_filename, EvidenceEntry,
};
use securitysmith::import::normalize_severity;
use securitysmith::notes::{note_filename, note_slug};
use securitysmith::entities::project_abbreviation;
use securitysmith::news::matched_clients;
use securitysmith::typst::escape_markup;
use securitysmith::workspace::WorkspaceError;

#[test]
fn test_generate_positions_returns_three_distinct_sorted() {
    for _ in 0..50 {
        let p = generate_positions();
        assert_eq!(p.len(), 3);
        assert!(p.windows(2).all(|w| w[0] < w[1]), "positions must be sorted");
        assert!(p.iter().all(|&x| x < 12));
    }
}

#[test]
fn positions_from_fixed_rolls() {
    let p = positions_from(&vec![0u8; 11]);
    assert_eq!(p.len(), 3);
    assert!(p[0] < p[1] && p[1] < p[2] && p[2] < 12);
}

fn pending() -> RecoveryState {
    RecoveryState { phrase: "alpha beta gamma delta".to_string(), positions: vec![0, 2, 3], is_rotation: false }
}

#[test]
fn recovery_words_checked_against_phrase() {
    let words: Vec<String> = ["alpha", "beta", "gamma", "delta"].iter().map(|s| s.to_string()).collect();
    let p = pending();
    let answer = vec![" Alpha ".to_string(), "GAMMA".to_string(), "delta".to_string()];
    assert_eq!(check_recovery_words(&p, "alpha beta gamma delta", &vec![0, 2, 3], &answer, &words), Ok(true));
    let wrong = vec!["alpha".to_string(), "beta".to_string(), "delta".to_string()];
    assert_eq!(check_recovery_words(&p, "alpha beta gamma delta", &vec![0, 2, 3], &wrong, &words), Ok(false));
    let empty = vec!["".to_string(), "gamma".to_string(), "delta".to_string()];
    assert_eq!(check_recovery_words(&p, "alpha beta gamma delta", &vec![0, 2, 3], &empty, &words), Ok(false));
    assert_eq!(
        check_recovery_words(&p, "other", &vec![0, 2, 3], &answer, &words),
        Err("Provided phrase does not match pending recovery state.".to_string())
    );
    assert_eq!(
        check_recovery_words(&p, "alpha beta gamma delta", &vec![0, 2, 1], &answer, &words),
        Err("Validation positions do not match pending recovery state.".to_string())
    );
    assert_eq!(
        check_recovery_words(&p, "alpha beta gamma delta", &vec![0, 2, 3], &vec!["alpha".to_string()], &words),
        Err("Exactly 3 words must be provided.".to_string())
    );
}

#[test]
fn sql_quotes_doubled() {
    assert_eq!(escape_sql_string("it's"), "it''s");
    assert_eq!(escape_sql_string("''"), "''''");
    assert_eq!(escape_sql_string("plain"), "plain");
}

#[test]
fn markup_specials_escaped() {
    assert_eq!(escape_markup("a#b*c_d"), "a\\#b\\*c\\_d");
    assert_eq!(escape_markup("\\"), "\\\\");
    assert_eq!(escape_markup("<x>/@[]{}~$`"), "\\<x\\>\\/\\@\\[\\]\\{\\}\\~\\$\\`");
}

#[test]
fn sanitizing_twice_changes_nothing() {
    let once = sanitize_filename("../a b/ünï.txt");
    assert_eq!(once, ".._a_b__n_.txt");
    assert_eq!(sanitize_filename(&once), once);
    let long: String = std::iter::repeat('x').take(300).collect();
    assert_eq!(sanitize_filename(&long).chars().count(), 255);
    let a = attachment_name("résumé final.pdf");
    assert_eq!(a, "résumé_final.pdf");
    assert_eq!(attachment_name(&a), a);
}

#[test]
fn severity_normalized_to_five_levels() {
    for (raw, want) in [
        ("crit", "critical"),
        ("4", "critical"),
        ("3", "high"),
        ("moderate", "medium"),
        ("med", "medium"),
        ("1", "low"),
        ("whatever", "informational"),
    ] {
        assert_eq!(normalize_severity(raw), want);
        assert_eq!(normalize_severity(want), want);
    }
}

#[test]
fn document_numbering_skips_used_numbers() {
    let names = vec!["doc_001_nda.md".to_string(), "doc_007_roe.md".to_string(), "notes.md".to_string()];
    let n = next_document_seq(&names);
    assert_eq!(n, 8);
    let name = document_filename(n as u64, "proposal");
    assert_eq!(name, "doc_008_proposal.md");
    assert!(!names.contains(&name));
}

#[test]
fn duplicate_filename_gets_suffix() {
    let f1 = unique_filename("test.txt", &vec![]);
    assert_eq!(f1, "test.txt");
    let f2 = unique_filename("test.txt", &vec![f1.clone()]);
    assert_ne!(f1, f2);
    assert!(f2.starts_with("test_1"));
    let f3 = unique_filename("test.txt", &vec!["test.txt".to_string(), "test_1.txt".to_string()]);
    assert_eq!(f3, "test_2.txt");
    assert_eq!(unique_filename("README", &vec!["README".to_string()]), "README_1");
}

#[test]
fn verify_hashes_detects_mismatch() {
    let original = sha256_hex(b"original");
    assert_eq!(original, "0682c5f2076f099c34cfdd15a9e063849ed437a49677e6fcc5b4198c76575be5");
    let entry = EvidenceEntry {
        filename: "test.txt".to_string(),
        original_path: "/tmp/test.txt".to_string(),
        sha256: original.clone(),
        size: 8,
        date_added: "2026-07-08".to_string(),
    };
    assert_eq!(hash_check(&entry, Some(&original)), None);
    let modified = sha256_hex(b"modified");
    let m = hash_check(&entry, Some(&modified)).unwrap();
    assert!(m.contains("Hash mismatch"));
    assert_eq!(hash_check(&entry, None), Some("Missing: test.txt".to_string()));
}

#[test]
fn secret_scan_finds_passwords() {
    let w = secret_warning("config.txt", "password=secret123\napi_key=abc123").unwrap();
    assert!(w.contains("potential secret"));
    assert_eq!(w, "config.txt: potential secret pattern 'password=' found");
    assert_eq!(
        secret_warning("k.txt", "-----begin rsa private key-----"),
        Some("k.txt: potential secret pattern '-----BEGIN' found".to_string())
    );
    assert_eq!(secret_warning("clean.txt", "nothing here"), None);
}

#[test]
fn secret_scan_ignores_binary_files() {
    assert!(!is_text_extension("png"));
    assert!(is_text_extension("txt"));
    assert!(is_text_extension(""));
}

#[test]
fn attachment_names_made_unique() {
    let taken = vec!["report.pdf".to_string(), "report_2.pdf".to_string()];
    assert_eq!(ensure_unique_filename("report.pdf", &taken), "report_3.pdf");
    assert_eq!(ensure_unique_filename("notes", &vec!["notes".to_string()]), "notes_2");
    assert_eq!(ensure_unique_filename("new.pdf", &taken), "new.pdf");
}

fn upload(entity: &str, data: &str) -> AttachmentInput {
    AttachmentInput {
        entity_type: entity.to_string(),
        entity_id: 1,
        filename: "shot 1.png".to_string(),
        original_name: "shot 1.png".to_string(),
        mime_type: "image/png".to_string(),
        file_data_base64: data.to_string(),
    }
}

#[test]
fn upload_decoded_hashed_and_named() {
    let p = prepare_upload(&upload("finding", "aGVsbG8=")).ok().unwrap();
    assert_eq!(p.data, b"hello".to_vec());
    assert_eq!(p.sha256, "2cf24dba5fb0a30e26e83b2ac5b9e29e1b161e5c1fa7425e73043362938b9824");
    assert_eq!(p.safe_name, "shot_1.png");
    assert_eq!(prepare_upload(&upload("client", "aGVsbG8=")).err().unwrap(), "Invalid entity_type. Must be finding, engagement, or document.");
    assert_eq!(prepare_upload(&upload("finding", "")).err().unwrap(), "Empty file data.");
    assert!(prepare_upload(&upload("finding", "!!notbase64")).is_err());
}

#[test]
fn mime_types_by_extension() {
    assert_eq!(infer_mime_type("report.PDF"), "application/pdf");
    assert_eq!(infer_mime_type("a.jpeg"), "image/jpeg");
    assert_eq!(infer_mime_type("page.htm"), "text/html");
    assert_eq!(infer_mime_type("archive.tar.zip"), "application/zip");
    assert_eq!(infer_mime_type("noext"), "application/octet-stream");
    assert_eq!(infer_mime_type(".bashrc"), "application/octet-stream");
}

#[test]
fn scope_types_detected() {
    assert_eq!(detect_type("https://example.com"), "url");
    assert_eq!(detect_type("10.0.0.1"), "ip");
    assert_eq!(detect_type("10.0.0.0/24"), "cidr");
    assert_eq!(detect_type("10.0.0.1-10.0.0.9"), "ip_range");
    assert_eq!(detect_type("example.com"), "domain");
    assert!(!regex_simple_ip("256.0.0.1"));
    let items = bulk_import_items("  example.com \n\n10.0.0.1\r\n");
    assert_eq!(items, vec![("domain".to_string(), "example.com".to_string()), ("ip".to_string(), "10.0.0.1".to_string())]);
}

#[test]
fn checklists_invalid_status_rejected() {
    let def = get_builtin_checklist("owasp-wstg").unwrap();
    let mut t = new_tracking("owasp-wstg", &def);
    let result = set_item_status(&mut t, "WSTG-INFO-01", "invalid");
    assert!(matches!(result, Err(WorkspaceError::InvalidStatusSeverity(_))));
    assert!(matches!(set_item_status(&mut t, "NOPE", "tested"), Err(WorkspaceError::NotFound(_))));
}

#[test]
fn update_status_works() {
    let def = owasp_wstg_subset();
    let mut t = new_tracking("owasp-wstg", &def);
    set_item_status(&mut t, "WSTG-INFO-02", "in_progress").unwrap();
    let i = find_item(&t.items, "WSTG-INFO-02").unwrap();
    assert_eq!(t.items[i].status, "in_progress");
}

#[test]
fn link_finding_updates_status() {
    let def = owasp_wstg_subset();
    let mut t = new_tracking("owasp-wstg", &def);
    link_item_finding(&mut t, "WSTG-INFO-02", "ACME-WEB-001").unwrap();
    let i = find_item(&t.items, "WSTG-INFO-02").unwrap();
    assert_eq!(t.items[i].finding_id, "ACME-WEB-001");
    assert_eq!(t.items[i].status, "finding_created");
}

#[test]
fn note_names() {
    assert_eq!(note_filename("2026-07-08", "Found login page!"), "2026_07_08_found_login_page.md");
    assert!(note_slug("../../config").is_err());
    assert!(note_slug("..").is_err());
    assert_eq!(note_slug("2026_07_08_x.md").unwrap(), "2026_07_08_x");
}

#[test]
fn case_mapping_follows_std() {
    assert_eq!(project_abbreviation("ßab_web").unwrap(), "SSAB");
    let clients = vec![(1u32, vec!["ÀB".to_string()])];
    assert_eq!(matched_clients("xàb-c", None, &clients), vec![1]);
}

#[test]
fn new_password_rules() {
    assert!(check_new_password("old-password", "new-password").is_ok());
    assert_eq!(check_new_password("old", "short").unwrap_err(), "New password must be at least 8 characters");
    assert_eq!(
        check_new_password("same-password", "same-password").unwrap_err(),
        "New password must differ from the current password."
    );
}

#[test]
fn version_file_round_trip() {
    let salt: Vec<u8> = (0u8..16).map(|i| i * 17).collect();
    let text = version_file_text(&salt);
    assert_eq!(text, "2:00112233445566778899aabbccddeeff");
    assert_eq!(vault_salt(&text).unwrap(), salt);
    assert_eq!(vault_salt("  2:00112233445566778899AABBCCDDEEFF\n").unwrap(), salt);
}

#[test]
fn version_file_errors() {
    let unsupported = "Vault format not supported. Please create a new vault.";
    assert_eq!(vault_salt("1:00").unwrap_err(), unsupported);
    assert_eq!(vault_salt("2").unwrap_err(), unsupported);
    assert_eq!(vault_salt("2:ab:cd").unwrap_err(), unsupported);
    assert_eq!(vault_salt("2:zz").unwrap_err(), "Vault metadata corrupted");
    assert_eq!(vault_salt("2:abc").unwrap_err(), "Vault metadata corrupted");
    assert_eq!(vault_salt("2:abcd").unwrap_err(), "Vault metadata corrupted: invalid salt");
}

#[test]
fn recovery_after_confirmation() {
    let pending = RecoveryState { phrase: "a b c".to_string(), positions: vec![0, 1, 2], is_rotation: true };
    let (next, answer) = retry_recovery(&pending, "d e f".to_string(), vec![1, 4, 9]);
    assert_eq!(next.phrase, "d e f");
    assert_eq!(next.positions, vec![1, 4, 9]);
    assert!(next.is_rotation);
    assert!(!answer.success);
    assert_eq!(answer.new_phrase.as_deref(), Some("d e f"));
    assert_eq!(answer.new_positions, Some(vec![1, 4, 9]));
    let ok = recovery_confirmed();
    assert!(ok.success && ok.new_phrase.is_none() && ok.new_positions.is_none());
    assert_eq!(recovery_envelope(&vec![1, 2], &vec![3]), vec![1, 2, 3]);
    assert_eq!(recovery_audit(true), ("UPDATE", Some("old phrase invalidated"), "recovery_phrase_rotation"));
    assert_eq!(recovery_audit(false), ("INSERT", None, "vault_creation"));
}
