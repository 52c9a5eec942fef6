//! The encrypted credential store: credential records, their rules, and the
//! file format (magic, salt, nonce, ChaCha20-Poly1305 ciphertext of the
//! JSON store, with an Argon2id key from the master password).

use crate::text::{chars_eq, chars_of, concat, lit, parse_unsigned, parse_unsigned_max, starts_with, zero_padded, zero_padded_string};
use crate::workspace::WorkspaceError;
use vstd::prelude::*;

verus! {

/// One stored credential; `cred_type` is the `type` key.
pub struct Credential {
    pub id: String,
    pub label: String,
    pub cred_type: String,
    pub value: String,
    pub status: String,
    pub notes: String,
    pub engagement_path: String,
    pub created: String,
    pub updated: String,
}

/// The decrypted store.
pub struct CredentialStore {
    pub credentials: Vec<Credential>,
}

/// A credential as listed, without its secret value.
pub struct CredentialSummary {
    pub id: String,
    pub label: String,
    pub cred_type: String,
    pub status: String,
}

// ───────────────────────── values ─────────────────────────

/// The credential types.
pub open spec fn cred_types() -> Seq<Seq<char>> {
    seq!["url"@, "username_password"@, "api_key"@, "bearer_token"@, "vpn_config"@, "ssh_key"@, "custom"@]
}

/// The credential statuses.
pub open spec fn cred_statuses() -> Seq<Seq<char>> {
    seq!["not_verified"@, "working"@, "not_working"@, "expired"@]
}

/// Whether `t` is a credential type.
pub fn is_valid_cred_type(t: &str) -> (r: bool)
    ensures
        r == cred_types().contains(t@),
{
    let v = chars_of(t);
    let opts = ["url", "username_password", "api_key", "bearer_token", "vpn_config", "ssh_key", "custom"];
    let r = crate::text::one_of(&v, &opts);
    proof {
        assert(opts@.map_values(|s: &str| s@) =~= cred_types());
        if r {
            let i = choose|i: int| 0 <= i < opts@.len() && v@ == (#[trigger] opts@[i])@;
            assert(cred_types()[i] == t@);
        } else {
            assert forall|i: int| 0 <= i < cred_types().len() implies cred_types()[i] != t@ by {
                assert(opts@[i]@ == cred_types()[i]);
            }
        }
    }
    r
}

/// Whether `s` is a credential status.
pub fn is_valid_cred_status(s: &str) -> (r: bool)
    ensures
        r == cred_statuses().contains(s@),
{
    let v = chars_of(s);
    let opts = ["not_verified", "working", "not_working", "expired"];
    let r = crate::text::one_of(&v, &opts);
    proof {
        assert(opts@.map_values(|s: &str| s@) =~= cred_statuses());
        if r {
            let i = choose|i: int| 0 <= i < opts@.len() && v@ == (#[trigger] opts@[i])@;
            assert(cred_statuses()[i] == s@);
        } else {
            assert forall|i: int| 0 <= i < cred_statuses().len() implies cred_statuses()[i] != s@ by {
                assert(opts@[i]@ == cred_statuses()[i]);
            }
        }
    }
    r
}

// ───────────────────────── IDs ─────────────────────────

/// The number in a `CRED-<n>` identifier, read as a `usize`.
pub open spec fn cred_number(id: Seq<char>) -> Option<nat> {
    if starts_with(id, "CRED-"@) {
        parse_unsigned(id.skip(5), usize::MAX as nat)
    } else {
        None
    }
}

/// The largest credential number in the store (0 when there is none).
pub open spec fn max_cred_number(creds: Seq<Credential>) -> nat
    decreases creds.len(),
{
    if creds.len() == 0 {
        0
    } else {
        let p = max_cred_number(creds.drop_last());
        match cred_number(creds.last().id@) {
            Some(n) => if n > p { n } else { p },
            None => p,
        }
    }
}

proof fn lemma_max_cred_bound(creds: Seq<Credential>)
    ensures
        max_cred_number(creds) <= usize::MAX,
    decreases creds.len(),
{
    if creds.len() > 0 {
        lemma_max_cred_bound(creds.drop_last());
    }
}

proof fn lemma_max_cred_bound_at(creds: Seq<Credential>, i: int)
    requires
        0 <= i < creds.len(),
    ensures
        cred_number(creds[i].id@) matches Some(m) ==> m <= max_cred_number(creds),
    decreases creds.len(),
{
    if i < creds.len() - 1 {
        lemma_max_cred_bound_at(creds.drop_last(), i);
        assert(creds.drop_last()[i] == creds[i]);
    }
}

fn number_of_id(id: &String) -> (r: Option<usize>)
    ensures
        match r {
            Some(n) => cred_number(id@) == Some(n as nat),
            None => cred_number(id@) is None,
        },
{
    let v = chars_of(id.as_str());
    let p = chars_of("CRED-");
    proof {
        reveal_strlit("CRED-");
    }
    if !crate::text::has_prefix(&v, &p) {
        return None;
    }
    let mut rest: Vec<char> = Vec::new();
    let mut i: usize = 5;
    while i < v.len()
        invariant
            5 <= i <= v@.len(),
            rest@ == v@.subrange(5, i as int),
        decreases v.len() - i,
    {
        rest.push(v[i]);
        i = i + 1;
        assert(rest@ =~= v@.subrange(5, i as int));
    }
    assert(rest@ =~= id@.skip(5));
    match parse_unsigned_max(&rest, usize::MAX as u64) {
        Some(n) => Some(n as usize),
        None => None,
    }
}

/// The identifier given to a new credential is not that of any credential
/// already in the store.
pub proof fn law_new_credential_id_fresh(creds: Seq<Credential>)
    requires
        max_cred_number(creds) < usize::MAX,
    ensures
        forall|i: int| 0 <= i < creds.len() ==> (#[trigger] creds[i]).id@ != "CRED-"@ + zero_padded(max_cred_number(creds) + 1, 3),
{
    let n = max_cred_number(creds) + 1;
    let id = "CRED-"@ + zero_padded(n, 3);
    reveal_strlit("CRED-");
    crate::text::lemma_zero_padded_reads_back(n, 3);
    assert(id.take(5) =~= "CRED-"@);
    assert(id.skip(5) =~= zero_padded(n, 3));
    let z = zero_padded(n, 3);
    assert(z[0] != '+');
    assert(crate::text::unsigned_digits(z) == Some(z));
    assert(cred_number(id) == Some(n));
    assert forall|i: int| 0 <= i < creds.len() implies (#[trigger] creds[i]).id@ != id by {
        lemma_max_cred_bound_at(creds, i);
    }
}

/// The identifier of the next credential: `CRED-` and one more than the
/// largest number in use, padded to three digits.
pub fn next_cred_id(store: &CredentialStore) -> (r: String)
    requires
        max_cred_number(store.credentials@) < usize::MAX,
    ensures
        r@ == "CRED-"@ + zero_padded(max_cred_number(store.credentials@) + 1, 3),
{
    let ghost all = store.credentials@;
    let mut max: usize = 0;
    let mut i: usize = 0;
    assert(all.take(0) =~= Seq::<Credential>::empty());
    while i < store.credentials.len()
        invariant
            i <= all.len(),
            all == store.credentials@,
            max == max_cred_number(all.take(i as int)),
        decreases store.credentials.len() - i,
    {
        assert(all.take(i + 1).drop_last() =~= all.take(i as int));
        match number_of_id(&store.credentials[i].id) {
            Some(n) => {
                if n > max {
                    max = n;
                }
            },
            None => {},
        }
        i = i + 1;
    }
    assert(all.take(i as int) =~= all);
    let n = zero_padded_string((max + 1) as u64, 3);
    concat("CRED-", n.as_str())
}

// ───────────────────────── store operations ─────────────────────────

/// Adds a credential to a decrypted store: the type must be a credential
/// type; the new credential gets the next ID, status `not_verified` and
/// `today` as creation and update date. Returns the ID.
pub fn add_to_store(
    store: &mut CredentialStore,
    engagement_path: &str,
    label: &str,
    cred_type: &str,
    value: &str,
    notes: &str,
    today: &str,
) -> (r: Result<String, WorkspaceError>)
    requires
        max_cred_number(old(store).credentials@) < usize::MAX,
    ensures
        !cred_types().contains(cred_type@) ==> (r matches Err(WorkspaceError::InvalidStatusSeverity(m)) && m@ == "'"@
            + cred_type@ + "' is not a valid credential type. Use: url, username_password, api_key, bearer_token, vpn_config, ssh_key, custom."@
            && final(store).credentials@ == old(store).credentials@),
        cred_types().contains(cred_type@) ==> (r matches Ok(id) && id@ == "CRED-"@ + zero_padded(
            max_cred_number(old(store).credentials@) + 1,
            3,
        ) && final(store).credentials@.len() == old(store).credentials@.len() + 1
            && final(store).credentials@.drop_last() == old(store).credentials@ && ({
            let c = final(store).credentials@.last();
            &&& c.id@ == id@
            &&& c.label@ == label@
            &&& c.cred_type@ == cred_type@
            &&& c.value@ == value@
            &&& c.status@ == "not_verified"@
            &&& c.notes@ == notes@
            &&& c.engagement_path@ == engagement_path@
            &&& c.created@ == today@
            &&& c.updated@ == today@
        })),
{
    if !is_valid_cred_type(cred_type) {
        let mut m = lit("'");
        m.append(cred_type);
        m.append("' is not a valid credential type. Use: url, username_password, api_key, bearer_token, vpn_config, ssh_key, custom.");
        return Err(WorkspaceError::InvalidStatusSeverity(m));
    }
    let id = next_cred_id(store);
    let ret = lit(id.as_str());
    let ghost before = store.credentials@;
    store.credentials.push(Credential {
        id,
        label: lit(label),
        cred_type: lit(cred_type),
        value: lit(value),
        status: lit("not_verified"),
        notes: lit(notes),
        engagement_path: lit(engagement_path),
        created: lit(today),
        updated: lit(today),
    });
    assert(store.credentials@.drop_last() =~= before);
    Ok(ret)
}

/// The credentials of one engagement, without their values.
pub fn summaries_for(store: &CredentialStore, engagement_path: &str) -> (r: Vec<CredentialSummary>)
    ensures
        r@.map_values(|s: CredentialSummary| (s.id@, s.label@, s.cred_type@, s.status@))
            == store.credentials@.filter(|c: Credential| c.engagement_path@ == engagement_path@).map_values(
            |c: Credential| (c.id@, c.label@, c.cred_type@, c.status@),
        ),
{
    let ghost pred = |c: Credential| c.engagement_path@ == engagement_path@;
    let ghost f = |c: Credential| (c.id@, c.label@, c.cred_type@, c.status@);
    let ghost g = |s: CredentialSummary| (s.id@, s.label@, s.cred_type@, s.status@);
    let want = chars_of(engagement_path);
    let mut out: Vec<CredentialSummary> = Vec::new();
    let mut i: usize = 0;
    while i < store.credentials.len()
        invariant
            i <= store.credentials@.len(),
            want@ == engagement_path@,
            pred == (|c: Credential| c.engagement_path@ == engagement_path@),
            f == (|c: Credential| (c.id@, c.label@, c.cred_type@, c.status@)),
            g == (|s: CredentialSummary| (s.id@, s.label@, s.cred_type@, s.status@)),
            out@.map_values(g) == store.credentials@.take(i as int).filter(pred).map_values(f),
        decreases store.credentials.len() - i,
    {
        let c = &store.credentials[i];
        let v = chars_of(c.engagement_path.as_str());
        proof {
            let t = store.credentials@.take(i + 1);
            assert(t.drop_last() =~= store.credentials@.take(i as int));
            reveal(Seq::filter);
        }
        if chars_eq(&v, &want) {
            let ghost before = out@;
            out.push(CredentialSummary {
                id: lit(c.id.as_str()),
                label: lit(c.label.as_str()),
                cred_type: lit(c.cred_type.as_str()),
                status: lit(c.status.as_str()),
            });
            assert(out@.map_values(g) =~= before.map_values(g).push(f(*c)));
        }
        i = i + 1;
    }
    assert(store.credentials@.take(i as int) =~= store.credentials@);
    out
}

/// The index of the first credential with the given ID.
pub fn find_credential(store: &CredentialStore, cred_id: &str) -> (r: Option<usize>)
    ensures
        match r {
            Some(i) => i < store.credentials@.len() && store.credentials@[i as int].id@ == cred_id@
                && forall|j: int| 0 <= j < i ==> (#[trigger] store.credentials@[j]).id@ != cred_id@,
            None => forall|j: int|
                0 <= j < store.credentials@.len() ==> (#[trigger] store.credentials@[j]).id@ != cred_id@,
        },
{
    let want = chars_of(cred_id);
    let mut i: usize = 0;
    while i < store.credentials.len()
        invariant
            i <= store.credentials@.len(),
            want@ == cred_id@,
            forall|j: int| 0 <= j < i ==> (#[trigger] store.credentials@[j]).id@ != cred_id@,
        decreases store.credentials.len() - i,
    {
        let v = chars_of(store.credentials[i].id.as_str());
        if chars_eq(&v, &want) {
            return Some(i);
        }
        i = i + 1;
    }
    None
}

/// Sets the status (and update date) of the first credential with the ID.
/// An unknown status is `InvalidStatusSeverity`, an unknown ID `NotFound`.
pub fn set_credential_status(store: &mut CredentialStore, cred_id: &str, status: &str, today: &str) -> (r: Result<(), WorkspaceError>)
    ensures
        !cred_statuses().contains(status@) ==> (r matches Err(WorkspaceError::InvalidStatusSeverity(m)) && m@ == "'"@
            + status@ + "' is not a valid credential status. Use: not_verified, working, not_working, expired."@),
        cred_statuses().contains(status@) && (forall|j: int| 0 <= j < old(store).credentials@.len()
            ==> (#[trigger] old(store).credentials@[j]).id@ != cred_id@) ==> (r matches Err(WorkspaceError::NotFound(p))
            && p@ == cred_id@),
        r is Err ==> final(store).credentials@ == old(store).credentials@,
        r is Ok ==> cred_statuses().contains(status@) && exists|i: int|
            0 <= i < old(store).credentials@.len() && old(store).credentials@[i].id@ == cred_id@
            && (forall|j: int| 0 <= j < i ==> (#[trigger] old(store).credentials@[j]).id@ != cred_id@)
            && final(store).credentials@.len() == old(store).credentials@.len()
            && final(store).credentials@[i].status@ == status@
            && final(store).credentials@[i].updated@ == today@
            && final(store).credentials@[i].id@ == old(store).credentials@[i].id@
            && final(store).credentials@[i].value@ == old(store).credentials@[i].value@
            && forall|j: int| 0 <= j < old(store).credentials@.len() && j != i ==> (#[trigger] final(store).credentials@[j]) == old(store).credentials@[j],
{
    if !is_valid_cred_status(status) {
        let mut m = lit("'");
        m.append(status);
        m.append("' is not a valid credential status. Use: not_verified, working, not_working, expired.");
        return Err(WorkspaceError::InvalidStatusSeverity(m));
    }
    match find_credential(store, cred_id) {
        None => Err(WorkspaceError::NotFound(lit(cred_id))),
        Some(i) => {
            store.credentials[i].status = lit(status);
            store.credentials[i].updated = lit(today);
            Ok(())
        },
    }
}

/// Removes every credential with the given ID; `NotFound` when there is
/// none.
pub fn remove_from_store(store: &mut CredentialStore, cred_id: &str) -> (r: Result<(), WorkspaceError>)
    ensures
        final(store).credentials@ == old(store).credentials@.filter(|c: Credential| c.id@ != cred_id@),
        r is Err <==> forall|j: int| 0 <= j < old(store).credentials@.len() ==> (#[trigger] old(store).credentials@[j]).id@ != cred_id@,
        r is Err ==> (r matches Err(WorkspaceError::NotFound(p)) && p@ == cred_id@),
{
    let want = chars_of(cred_id);
    let ghost orig = store.credentials@;
    let n0 = store.credentials.len();
    assert(orig.len() == n0);
    let mut rest: Vec<Credential> = Vec::new();
    std::mem::swap(&mut rest, &mut store.credentials);
    let mut kept: Vec<Credential> = Vec::new();
    let ghost pred = |c: Credential| c.id@ != cred_id@;
    let mut i: usize = 0;
    let mut removed = false;
    while rest.len() > 0
        invariant
            i + rest@.len() == orig.len(),
            orig.len() <= usize::MAX,
            rest@ == orig.skip(i as int),
            kept@ == orig.take(i as int).filter(pred),
            want@ == cred_id@,
            pred == (|c: Credential| c.id@ != cred_id@),
            removed <==> exists|j: int| 0 <= j < i && (#[trigger] orig[j]).id@ == cred_id@,
        decreases rest@.len(),
    {
        let c = rest.remove(0);
        proof {
            assert(orig.take(i + 1).drop_last() =~= orig.take(i as int));
            assert(orig.take(i + 1).last() == c);
            assert(orig.skip(i + 1) =~= orig.skip(i as int).drop_first());
            reveal(Seq::filter);
        }
        let v = chars_of(c.id.as_str());
        if chars_eq(&v, &want) {
            removed = true;
        } else {
            kept.push(c);
        }
        i = i + 1;
    }
    assert(orig.take(i as int) =~= orig);
    store.credentials = kept;
    if !removed {
        return Err(WorkspaceError::NotFound(lit(cred_id)));
    }
    Ok(())
}

// ───────────────────────── the file format ─────────────────────────

/// Length of the salt that follows the magic bytes.
pub const SALT_LEN: usize = 16;
/// Length of the nonce that follows the salt.
pub const NONCE_LEN: usize = 12;

/// The magic bytes `SSCRED\x01` at the start of a store file.
pub open spec fn magic() -> Seq<u8> {
    seq![0x53u8, 0x53u8, 0x43u8, 0x52u8, 0x45u8, 0x44u8, 0x01u8]
}

/// What Argon2id (m = 19456 KiB, t = 2, p = 1, 32-byte output, version
/// 0x13) derives from a password and a salt.
pub uninterp spec fn argon2id_key(password: Seq<char>, salt: Seq<u8>) -> Seq<u8>;

/// What ChaCha20-Poly1305 produces for a key, a nonce and a plaintext (the
/// ciphertext with its 16-byte tag).
pub uninterp spec fn aead_sealed(key: Seq<u8>, nonce: Seq<u8>, plaintext: Seq<u8>) -> Seq<u8>;

/// Calls `argon2::Argon2::hash_password_into` with Argon2id, version 0x13
/// and the parameters above. When it succeeds the 32-byte key is named
/// `argon2id_key` of the password and salt. A salt shorter than 8 bytes
/// is refused; otherwise it fails only on a password or salt longer than
/// `u32::MAX` bytes or when its memory cannot be allocated, which depends on
/// the machine and is not stated.
#[verifier::external_body]
fn argon2_derive(password: &str, salt: &[u8]) -> (r: Result<Vec<u8>, String>)
    ensures
        r matches Ok(k) ==> k@ == argon2id_key(password@, salt@) && k@.len() == 32,
        salt@.len() < 8 ==> r is Err,
{
    let params = match argon2::Params::new(19456, 2, 1, Some(32)) {
        Ok(p) => p,
        Err(e) => return Err(format!("Argon2 params error: {e}")),
    };
    let a = argon2::Argon2::new(argon2::Algorithm::Argon2id, argon2::Version::V0x13, params);
    let mut key = vec![0u8; 32];
    match a.hash_password_into(password.as_bytes(), salt, &mut key) {
        Ok(()) => Ok(key),
        Err(e) => Err(format!("Argon2 key derivation failed: {e}")),
    }
}

/// Calls `Aead::encrypt` of `chacha20poly1305::ChaCha20Poly1305`. On success
/// the ciphertext is named `aead_sealed` of key, nonce and plaintext. With a
/// 32-byte key and a 12-byte nonce it fails exactly when the plaintext
/// reaches the cipher's limit of `u32::MAX` blocks of 64 bytes.
#[verifier::external_body]
fn aead_encrypt(key: &[u8], nonce: &[u8], plaintext: &[u8]) -> (r: Result<Vec<u8>, String>)
    requires
        key@.len() == 32,
        nonce@.len() == 12,
    ensures
        r matches Ok(c) ==> c@ == aead_sealed(key@, nonce@, plaintext@),
        r is Ok <==> plaintext@.len() / 64 < 0xffff_ffff,
{
    let cipher = match <chacha20poly1305::ChaCha20Poly1305 as chacha20poly1305::KeyInit>::new_from_slice(key) {
        Ok(c) => c,
        Err(e) => return Err(format!("Invalid key: {e}")),
    };
    let n = match chacha20poly1305::Nonce::try_from(nonce) {
        Ok(n) => n,
        Err(e) => return Err(format!("Invalid nonce: {e}")),
    };
    match <chacha20poly1305::ChaCha20Poly1305 as chacha20poly1305::aead::Aead>::encrypt(&cipher, &n, plaintext) {
        Ok(c) => Ok(c),
        Err(e) => Err(format!("Encryption failed: {e}")),
    }
}

/// Calls `Aead::decrypt` of `chacha20poly1305::ChaCha20Poly1305`. A
/// plaintext it returns is one whose sealing under the same key and nonce
/// is the ciphertext, and the sealing of any plaintext is opened to that
/// plaintext (AEAD correctness). Which wrong ciphertexts are refused is not
/// stated.
#[verifier::external_body]
fn aead_decrypt(key: &[u8], nonce: &[u8], ciphertext: &[u8]) -> (r: Result<Vec<u8>, String>)
    requires
        key@.len() == 32,
        nonce@.len() == 12,
    ensures
        r matches Ok(p) ==> aead_sealed(key@, nonce@, p@) == ciphertext@,
        forall|p: Seq<u8>| #[trigger] aead_sealed(key@, nonce@, p) == ciphertext@ ==> r is Ok && r.unwrap()@ == p,
{
    let cipher = match <chacha20poly1305::ChaCha20Poly1305 as chacha20poly1305::KeyInit>::new_from_slice(key) {
        Ok(c) => c,
        Err(e) => return Err(format!("Invalid key: {e}")),
    };
    let n = match chacha20poly1305::Nonce::try_from(nonce) {
        Ok(n) => n,
        Err(e) => return Err(format!("Invalid nonce: {e}")),
    };
    match <chacha20poly1305::ChaCha20Poly1305 as chacha20poly1305::aead::Aead>::decrypt(&cipher, &n, ciphertext) {
        Ok(p) => Ok(p),
        Err(e) => Err(format!("Decryption failed (wrong password or corrupted file): {e}")),
    }
}

/// Calls `OsRng::try_fill_bytes` (the operating system's CSPRNG): `n`
/// random bytes. Nothing is stated of their values.
#[verifier::external_body]
fn os_random(n: usize) -> (r: Result<Vec<u8>, String>)
    ensures
        r matches Ok(v) ==> v@.len() == n,
{
    let mut buf = vec![0u8; n];
    match <rand::rngs::OsRng as rand::TryRngCore>::try_fill_bytes(&mut rand::rngs::OsRng, &mut buf) {
        Ok(()) => Ok(buf),
        Err(e) => Err(format!("Random generation failed: {e}")),
    }
}

/// A store file: the magic bytes, the salt, the nonce and the ciphertext.
pub open spec fn store_file(salt: Seq<u8>, nonce: Seq<u8>, ciphertext: Seq<u8>) -> Seq<u8> {
    magic() + salt + nonce + ciphertext
}

/// The salt of a store file.
pub open spec fn salt_of(file: Seq<u8>) -> Seq<u8> {
    file.subrange(7, 23)
}

/// The nonce of a store file.
pub open spec fn nonce_of(file: Seq<u8>) -> Seq<u8> {
    file.subrange(23, 35)
}

fn byte_range(b: &[u8], from: usize, to: usize) -> (r: Vec<u8>)
    requires
        from <= to <= b@.len(),
    ensures
        r@ == b@.subrange(from as int, to as int),
{
    let mut r: Vec<u8> = Vec::new();
    let mut i: usize = from;
    while i < to
        invariant
            from <= i <= to <= b@.len(),
            r@ == b@.subrange(from as int, i as int),
        decreases to - i,
    {
        r.push(b[i]);
        i = i + 1;
        assert(r@ =~= b@.subrange(from as int, i as int));
    }
    r
}

fn magic_bytes() -> (r: Vec<u8>)
    ensures
        r@ == magic(),
{
    let r = vec![0x53u8, 0x53u8, 0x43u8, 0x52u8, 0x45u8, 0x44u8, 0x01u8];
    assert(r@ =~= magic());
    r
}

/// Derives the store key from the master password and a salt.
pub fn derive_key(password: &str, salt: &[u8]) -> (r: Result<Vec<u8>, String>)
    ensures
        r matches Ok(k) ==> k@ == argon2id_key(password@, salt@) && k@.len() == 32,
        salt@.len() < 8 ==> r is Err,
{
    argon2_derive(password, salt)
}

/// Encrypts the serialized store with a derived key, salt and nonce, and
/// frames it as a store file.
pub fn seal_with_key(plaintext: &[u8], key: &Vec<u8>, salt: &Vec<u8>, nonce: &Vec<u8>) -> (r: Result<Vec<u8>, String>)
    requires
        key@.len() == 32,
        salt@.len() == SALT_LEN,
        nonce@.len() == NONCE_LEN,
    ensures
        r matches Ok(f) ==> f@ == store_file(salt@, nonce@, aead_sealed(key@, nonce@, plaintext@)),
        r is Ok <==> plaintext@.len() / 64 < 0xffff_ffff,
{
    let ct = match aead_encrypt(key.as_slice(), nonce.as_slice(), plaintext) {
        Ok(c) => c,
        Err(e) => return Err(e),
    };
    let mut file = magic_bytes();
    let mut s = salt.clone();
    let mut n = nonce.clone();
    let mut c = ct;
    assert(s@ == salt@ && n@ == nonce@);
    file.append(&mut s);
    file.append(&mut n);
    file.append(&mut c);
    assert(file@ =~= store_file(salt@, nonce@, aead_sealed(key@, nonce@, plaintext@)));
    Ok(file)
}

/// A store file written with a key reads back: its magic bytes, salt and
/// nonce are found where opening looks for them, so opening it with the same
/// key gives back the plaintext that was sealed.
pub proof fn law_sealed_file_reads_back(salt: Seq<u8>, nonce: Seq<u8>, key: Seq<u8>, plaintext: Seq<u8>)
    requires
        salt.len() == SALT_LEN,
        nonce.len() == NONCE_LEN,
    ensures
        ({
            let f = store_file(salt, nonce, aead_sealed(key, nonce, plaintext));
            &&& f.len() >= 35
            &&& f.take(7) == magic()
            &&& salt_of(f) == salt
            &&& nonce_of(f) == nonce
            &&& f == store_file(salt_of(f), nonce_of(f), aead_sealed(key, nonce_of(f), plaintext))
        }),
{
    let f = store_file(salt, nonce, aead_sealed(key, nonce, plaintext));
    assert(f.take(7) =~= magic());
    assert(salt_of(f) =~= salt);
    assert(nonce_of(f) =~= nonce);
}

/// What the store is saved as reads back under the same password: a file
/// that sealing makes from a password, a salt and a nonce (the form every
/// file `encrypt_store_bytes` gives has) is well framed, its salt and nonce
/// are found where opening looks for them, and it is the sealing of the
/// same plaintext under the key derived from that salt, so
/// `decrypt_store_bytes` with the password gives the plaintext back
/// whenever the key derivation succeeds.
pub proof fn law_password_store_reads_back(password: Seq<char>, salt: Seq<u8>, nonce: Seq<u8>, plaintext: Seq<u8>)
    requires
        salt.len() == SALT_LEN,
        nonce.len() == NONCE_LEN,
    ensures
        ({
            let f = store_file(salt, nonce, aead_sealed(argon2id_key(password, salt), nonce, plaintext));
            &&& f.len() >= 35
            &&& f.take(7) == magic()
            &&& salt_of(f) == salt
            &&& nonce_of(f) == nonce
            &&& f == store_file(
                salt_of(f),
                nonce_of(f),
                aead_sealed(argon2id_key(password, salt_of(f)), nonce_of(f), plaintext),
            )
        }),
{
    law_sealed_file_reads_back(salt, nonce, argon2id_key(password, salt), plaintext);
}

/// Opens a store file with a derived key: a file shorter than magic, salt
/// and nonce, or with other magic bytes, is refused; otherwise the
/// ciphertext is decrypted. What a store file sealed with this key holds is
/// always given back.
pub fn open_with_key(file: &[u8], key: &Vec<u8>) -> (r: Result<Vec<u8>, String>)
    requires
        key@.len() == 32,
    ensures
        file@.len() < 35 ==> (r matches Err(m) && m@ == "Credential file is too short or corrupted"@),
        file@.len() >= 35 && file@.take(7) != magic() ==> (r matches Err(m) && m@
            == "Invalid credential file format"@),
        r matches Ok(p) ==> file@ == store_file(salt_of(file@), nonce_of(file@), aead_sealed(key@, nonce_of(file@), p@)),
        forall|j: Seq<u8>| file@.len() >= 35 && file@ == #[trigger] store_file(salt_of(file@), nonce_of(file@), aead_sealed(key@, nonce_of(file@), j))
            ==> r is Ok && r.unwrap()@ == j,
{
    if file.len() < 35 {
        return Err(lit("Credential file is too short or corrupted"));
    }
    let head = byte_range(file, 0, 7);
    let m = magic_bytes();
    let mut same = true;
    let mut i: usize = 0;
    while i < 7
        invariant
            i <= 7,
            file@.len() >= 35,
            head@.len() == 7,
            m@.len() == 7,
            head@ == file@.take(7),
            m@ == magic(),
            same <==> forall|k: int| 0 <= k < i ==> head@[k] == m@[k],
        decreases 7 - i,
    {
        if head[i] != m[i] {
            same = false;
        }
        i = i + 1;
    }
    if !same {
        proof {
            assert(file@.take(7) != magic());
            assert forall|j: Seq<u8>| file@ != #[trigger] store_file(salt_of(file@), nonce_of(file@), aead_sealed(key@, nonce_of(file@), j)) by {
                let f = store_file(salt_of(file@), nonce_of(file@), aead_sealed(key@, nonce_of(file@), j));
                assert(f.take(7) =~= magic());
            }
        }
        return Err(lit("Invalid credential file format"));
    }
    assert(head@ =~= magic());
    let nonce = byte_range(file, 23, 35);
    let ct = byte_range(file, 35, file.len());
    proof {
        assert forall|c: Seq<u8>| file@ == store_file(salt_of(file@), nonce_of(file@), c) <==> c == ct@ by {
            let f = store_file(salt_of(file@), nonce_of(file@), c);
            if file@ == f {
                assert(c =~= file@.skip(35));
            }
            if c == ct@ {
                assert(f =~= file@);
            }
        }
    }
    match aead_decrypt(key.as_slice(), nonce.as_slice(), ct.as_slice()) {
        Ok(p) => Ok(p),
        Err(e) => Err(e),
    }
}

/// Encrypts a serialized store under the master password with a fresh
/// random salt and nonce. Whatever salt and nonce were drawn, the file is
/// the framing of the sealed plaintext under the key derived from them.
pub fn encrypt_store_bytes(plaintext: &[u8], password: &str) -> (r: Result<Vec<u8>, String>)
    ensures
        r matches Ok(f) ==> exists|salt: Seq<u8>, nonce: Seq<u8>|
            salt.len() == SALT_LEN && nonce.len() == NONCE_LEN && f@ == #[trigger] store_file(
                salt,
                nonce,
                aead_sealed(argon2id_key(password@, salt), nonce, plaintext@),
            ),
        plaintext@.len() / 64 >= 0xffff_ffff ==> r is Err,
{
    let salt = match os_random(SALT_LEN) {
        Ok(s) => s,
        Err(e) => return Err(e),
    };
    let nonce = match os_random(NONCE_LEN) {
        Ok(n) => n,
        Err(e) => return Err(e),
    };
    let key = match derive_key(password, salt.as_slice()) {
        Ok(k) => k,
        Err(e) => return Err(e),
    };
    seal_with_key(plaintext, &key, &salt, &nonce)
}

/// Decrypts a store file with the master password: the framing is checked
/// first, then the key is derived from the file's salt and the ciphertext
/// opened. A file written by `encrypt_store_bytes` with the same password
/// opens to what was encrypted whenever opening succeeds.
pub fn decrypt_store_bytes(file: &[u8], password: &str) -> (r: Result<Vec<u8>, String>)
    ensures
        file@.len() < 35 ==> (r matches Err(m) && m@ == "Credential file is too short or corrupted"@),
        file@.len() >= 35 && file@.take(7) != magic() ==> (r matches Err(m) && m@
            == "Invalid credential file format"@),
        r matches Ok(p) ==> file@ == store_file(
            salt_of(file@),
            nonce_of(file@),
            aead_sealed(argon2id_key(password@, salt_of(file@)), nonce_of(file@), p@),
        ),
        forall|j: Seq<u8>| file@ == #[trigger] store_file(
            salt_of(file@),
            nonce_of(file@),
            aead_sealed(argon2id_key(password@, salt_of(file@)), nonce_of(file@), j),
        ) && file@.len() >= 35 ==> (r is Ok ==> r.unwrap()@ == j),
{
    if file.len() < 35 {
        return Err(lit("Credential file is too short or corrupted"));
    }
    let head = byte_range(file, 0, 7);
    let m = magic_bytes();
    let mut i: usize = 0;
    while i < 7
        invariant
            i <= 7,
            file@.len() >= 35,
            head@.len() == 7,
            m@.len() == 7,
            head@ == file@.take(7),
            m@ == magic(),
            forall|k: int| 0 <= k < i ==> head@[k] == m@[k],
        decreases 7 - i,
    {
        if head[i] != m[i] {
            return Err(lit("Invalid credential file format"));
        }
        i = i + 1;
    }
    assert(file@.take(7) =~= magic());
    let salt = byte_range(file, 7, 23);
    let key = match derive_key(password, salt.as_slice()) {
        Ok(k) => k,
        Err(e) => return Err(e),
    };
    open_with_key(file, &key)
}

} // verus!
