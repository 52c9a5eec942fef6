use securitysmith::credentials::{
    add_to_store, decrypt_store_bytes, derive_key, encrypt_store_bytes, find_credential, next_cred_id,
    open_with_key, remove_from_store, seal_with_key, set_credential_status, summaries_for, CredentialStore,
};
use securitysmith::workspace::WorkspaceError;

fn store() -> CredentialStore {
    CredentialStore { credentials: Vec::new() }
}

#[test]
fn add_and_list_credential() {
    let mut s = store();
    let id = add_to_store(&mut s, "acme/web/initial", "Admin Login", "username_password", "admin:secret", "", "2026-07-08")
        .unwrap();
    assert!(id.starts_with("CRED-"));
    let creds = summaries_for(&s, "acme/web/initial");
    assert_eq!(creds.len(), 1);
    assert_eq!(creds[0].label, "Admin Login");
}

#[test]
fn show_includes_value() {
    let mut s = store();
    let id = add_to_store(&mut s, "e", "API", "api_key", "sk-123", "prod", "2026-07-08").unwrap();
    let i = find_credential(&s, &id).unwrap();
    assert_eq!(s.credentials[i].value, "sk-123");
}

#[test]
fn wrong_password_fails() {
    let file = encrypt_store_bytes(b"{\"credentials\":[]}", "correct").unwrap();
    assert!(decrypt_store_bytes(&file, "wrong").is_err());
}

#[test]
fn encrypted_file_not_readable() {
    let file = encrypt_store_bytes(b"{\"value\":\"secret_value\"}", "pass").unwrap();
    assert_eq!(&file[..7], b"SSCRED\x01");
    assert!(!String::from_utf8_lossy(&file).contains("secret_value"));
}

#[test]
fn update_status() {
    let mut s = store();
    let id = add_to_store(&mut s, "e", "T", "api_key", "s", "", "2026-07-08").unwrap();
    set_credential_status(&mut s, &id, "working", "2026-07-09").unwrap();
    let i = find_credential(&s, &id).unwrap();
    assert_eq!(s.credentials[i].status, "working");
    assert_eq!(s.credentials[i].updated, "2026-07-09");
}

#[test]
fn remove_works() {
    let mut s = store();
    let id = add_to_store(&mut s, "e", "T", "api_key", "s", "", "2026-07-08").unwrap();
    remove_from_store(&mut s, &id).unwrap();
    assert!(summaries_for(&s, "e").is_empty());
}

#[test]
fn invalid_type_rejected() {
    let mut s = store();
    assert!(add_to_store(&mut s, "e", "T", "bad_type", "s", "", "2026-07-08").is_err());
    assert!(s.credentials.is_empty());
}

#[test]
fn sequential_ids() {
    let mut s = store();
    let id1 = add_to_store(&mut s, "e", "First", "api_key", "v1", "", "2026-07-08").unwrap();
    let id2 = add_to_store(&mut s, "e", "Second", "api_key", "v2", "", "2026-07-08").unwrap();
    assert_ne!(id1, id2);
    assert_eq!(id1, "CRED-001");
    assert_eq!(id2, "CRED-002");
    assert_eq!(summaries_for(&s, "e").len(), 2);
}

#[test]
fn next_id_follows_largest_number() {
    let mut s = store();
    add_to_store(&mut s, "e", "A", "url", "x", "", "d").unwrap();
    s.credentials[0].id = "CRED-041".to_string();
    assert_eq!(next_cred_id(&s), "CRED-042");
}

#[test]
fn round_trip_restores_plaintext() {
    let plain = b"{\"credentials\":[{\"id\":\"CRED-001\"}]}";
    let file = encrypt_store_bytes(plain, "hunter2").unwrap();
    assert_eq!(decrypt_store_bytes(&file, "hunter2").unwrap(), plain.to_vec());
}

#[test]
fn sealed_file_opens_with_same_key() {
    let salt = vec![7u8; 16];
    let nonce = vec![9u8; 12];
    let key = derive_key("pw", &salt).unwrap();
    assert_eq!(key.len(), 32);
    let file = seal_with_key(b"data", &key, &salt, &nonce).unwrap();
    assert_eq!(&file[7..23], &salt[..]);
    assert_eq!(&file[23..35], &nonce[..]);
    assert_ne!(&file[35..], b"data");
    assert_eq!(open_with_key(&file, &key).unwrap(), b"data".to_vec());
}

#[test]
fn short_file_rejected() {
    assert_eq!(
        decrypt_store_bytes(b"SSCRED\x01", "pw").unwrap_err(),
        "Credential file is too short or corrupted"
    );
}

#[test]
fn bad_magic_rejected() {
    let file = vec![0u8; 60];
    assert_eq!(decrypt_store_bytes(&file, "pw").unwrap_err(), "Invalid credential file format");
}

#[test]
fn unknown_credential_status_rejected() {
    let mut s = store();
    let id = add_to_store(&mut s, "e", "T", "api_key", "s", "", "d").unwrap();
    assert!(matches!(
        set_credential_status(&mut s, &id, "bogus", "d"),
        Err(WorkspaceError::InvalidStatusSeverity(_))
    ));
    assert!(matches!(
        set_credential_status(&mut s, "CRED-999", "working", "d"),
        Err(WorkspaceError::NotFound(_))
    ));
}
