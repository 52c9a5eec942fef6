//! Attachments of findings, engagements and documents: where their files
//! go, how they are named, and what is checked before one is stored.

use crate::evidence::{hex_lower, sha256_digest, sha256_hex};
use crate::text::{char_is_alphanumeric, chars_eq, chars_of, decimal, decimal_string, eq_lit, first_chars, lit, push_char, str_len, string_of, unicode_alphanumeric};
use vstd::prelude::*;

verus! {

/// An attachment as stored.
pub struct Attachment {
    pub id: u32,
    pub entity_type: String,
    pub entity_id: u32,
    pub filename: String,
    pub original_name: String,
    pub mime_type: String,
    pub file_size: u64,
    pub sha256: String,
    pub sort_order: i32,
    pub created_at: i64,
}

/// An attachment as uploaded, with its data in standard base64.
pub struct AttachmentInput {
    pub entity_type: String,
    pub entity_id: u32,
    pub filename: String,
    pub original_name: String,
    pub mime_type: String,
    pub file_data_base64: String,
}

// ───────────────────────── paths ─────────────────────────

/// `PathBuf::join` on Unix: an absolute part replaces the base; otherwise
/// the part follows the base, with one `/` between them.
pub open spec fn join_path(base: Seq<char>, part: Seq<char>) -> Seq<char> {
    if part.len() > 0 && part[0] == '/' {
        part
    } else if base.len() == 0 || base.last() == '/' {
        base + part
    } else {
        base + "/"@ + part
    }
}

/// Joins a path and a part as `PathBuf::join` does on Unix.
pub fn join(base: &str, part: &str) -> (r: String)
    ensures
        r@ == join_path(base@, part@),
{
    let b = chars_of(base);
    let p = chars_of(part);
    proof {
        reveal_strlit("/");
    }
    if p.len() > 0 && p[0] == '/' {
        return lit(part);
    }
    let mut s = lit(base);
    if !(b.len() == 0 || b[b.len() - 1] == '/') {
        push_char(&mut s, '/');
    }
    s.append(part);
    s
}

/// The directory of all attachments under the application's data directory.
pub fn attachments_dir(data_dir: &str) -> (r: String)
    ensures
        r@ == join_path(data_dir@, "attachments"@),
{
    join(data_dir, "attachments")
}

/// The directory of one entity's attachments: `attachments/<type>/<id>`.
pub fn entity_dir(data_dir: &str, entity_type: &str, entity_id: u32) -> (r: String)
    ensures
        r@ == join_path(join_path(join_path(data_dir@, "attachments"@), entity_type@), decimal(entity_id as nat)),
{
    let a = attachments_dir(data_dir);
    let t = join(a.as_str(), entity_type);
    let n = decimal_string(entity_id as u64);
    join(t.as_str(), n.as_str())
}

// ───────────────────────── names ─────────────────────────

/// A character kept in an attachment's file name, or `_` in its place.
pub open spec fn attachment_char(c: char) -> char {
    if unicode_alphanumeric(c) || c == '.' || c == '_' || c == '-' {
        c
    } else {
        '_'
    }
}

/// A sanitized attachment name: alphanumerics, `.`, `_` and `-` kept, the
/// rest `_`, at most 255 characters.
pub open spec fn attachment_name_spec(name: Seq<char>) -> Seq<char> {
    first_chars(name.map_values(|c: char| attachment_char(c)), 255)
}

/// Sanitizes the file name of an attachment.
pub fn sanitize_filename(name: &str) -> (r: String)
    ensures
        r@ == attachment_name_spec(name@),
{
    let v = chars_of(name);
    let mut out: Vec<char> = Vec::new();
    let mut i: usize = 0;
    while i < v.len() && i < 255
        invariant
            i <= v@.len(),
            i <= 255,
            out@ == v@.take(i as int).map_values(|c: char| attachment_char(c)),
        decreases v.len() - i,
    {
        let c = v[i];
        let m = if char_is_alphanumeric(c) || c == '.' || c == '_' || c == '-' {
            c
        } else {
            '_'
        };
        out.push(m);
        assert(v@.take(i + 1).map_values(|c: char| attachment_char(c)) =~= v@.take(i as int).map_values(
            |c: char| attachment_char(c),
        ).push(attachment_char(c)));
        i = i + 1;
    }
    proof {
        let mapped = name@.map_values(|c: char| attachment_char(c));
        if v@.len() <= 255 {
            assert(v@.take(i as int) =~= v@);
        } else {
            assert(mapped.take(255) =~= v@.take(i as int).map_values(|c: char| attachment_char(c)));
        }
    }
    string_of(&out)
}

/// `Path::file_stem` of a plain file name (one without `/`), or `file`
/// when it has none (an empty name, `.` or `..`).
pub open spec fn plain_stem(name: Seq<char>) -> Seq<char> {
    let s = crate::evidence::split_ext(name);
    if name.len() == 0 || name == "."@ || name == ".."@ {
        "file"@
    } else if s.1.len() == 0 || s.0.len() == 0 {
        name
    } else {
        s.0
    }
}

/// `Path::extension` of a plain file name (without its dot), or empty when
/// it has none.
pub open spec fn plain_ext(name: Seq<char>) -> Seq<char> {
    let s = crate::evidence::split_ext(name);
    if name == ".."@ || s.1.len() == 0 || s.0.len() == 0 {
        Seq::empty()
    } else {
        s.1.drop_first()
    }
}

/// The candidate name with number `i`: `<stem>_<i>`, with `.<ext>` when
/// the extension is not empty.
pub open spec fn candidate(name: Seq<char>, i: nat) -> Seq<char> {
    if plain_ext(name).len() == 0 {
        plain_stem(name) + "_"@ + decimal(i)
    } else {
        plain_stem(name) + "_"@ + decimal(i) + "."@ + plain_ext(name)
    }
}

/// The name an attachment is stored under in a directory already holding
/// `taken`: the name itself when free, else the first free candidate
/// numbered 2 to 1000, else the name itself.
pub open spec fn unique_attachment_spec(name: Seq<char>, taken: Seq<Seq<char>>) -> Seq<char> {
    if !taken.contains(name) {
        name
    } else if exists|i: nat| 2 <= i <= 1000 && !taken.contains(#[trigger] candidate(name, i)) {
        candidate(
            name,
            choose|i: nat|
                2 <= i <= 1000 && !taken.contains(#[trigger] candidate(name, i)) && forall|j: nat|
                    2 <= j < i ==> taken.contains(#[trigger] candidate(name, j)),
        )
    } else {
        name
    }
}

fn taken_has(taken: &Vec<String>, name: &Vec<char>) -> (r: bool)
    ensures
        r == taken@.map_values(|s: String| s@).contains(name@),
{
    let ghost tv = taken@.map_values(|s: String| s@);
    let mut i: usize = 0;
    while i < taken.len()
        invariant
            i <= taken@.len(),
            tv == taken@.map_values(|s: String| s@),
            forall|j: int| 0 <= j < i ==> tv[j] != name@,
        decreases taken.len() - i,
    {
        let v = chars_of(taken[i].as_str());
        if chars_eq(&v, name) {
            assert(tv[i as int] == name@);
            return true;
        }
        i = i + 1;
    }
    false
}

fn stem_and_ext(v: &Vec<char>) -> (r: (Vec<char>, Vec<char>))
    ensures
        r.0@ == plain_stem(v@),
        r.1@ == plain_ext(v@),
{
    let (st, de) = crate::evidence::split_extension(v);
    let is_dd = eq_lit(v, "..");
    let is_d = eq_lit(v, ".");
    let no_ext = is_dd || de.len() == 0 || st.len() == 0;
    let mut ext: Vec<char> = Vec::new();
    if !no_ext {
        let mut i: usize = 1;
        while i < de.len()
            invariant
                1 <= i <= de@.len(),
                ext@ == de@.subrange(1, i as int),
            decreases de.len() - i,
        {
            ext.push(de[i]);
            i = i + 1;
            assert(ext@ =~= de@.subrange(1, i as int));
        }
        assert(ext@ =~= de@.drop_first());
    }
    let stem = if v.len() == 0 || is_d || is_dd {
        chars_of("file")
    } else if de.len() == 0 || st.len() == 0 {
        let mut copy: Vec<char> = Vec::new();
        let mut i: usize = 0;
        while i < v.len()
            invariant
                i <= v@.len(),
                copy@ == v@.take(i as int),
            decreases v.len() - i,
        {
            copy.push(v[i]);
            i = i + 1;
            assert(copy@ =~= v@.take(i as int));
        }
        assert(v@.take(i as int) =~= v@);
        copy
    } else {
        st
    };
    (stem, ext)
}

/// Picks the stored name of an attachment (a sanitized name, without `/`)
/// among the names already present.
pub fn ensure_unique_filename(filename: &str, taken: &Vec<String>) -> (r: String)
    ensures
        r@ == unique_attachment_spec(filename@, taken@.map_values(|s: String| s@)),
{
    let ghost tv = taken@.map_values(|s: String| s@);
    let v = chars_of(filename);
    if !taken_has(taken, &v) {
        return lit(filename);
    }
    let (stem_v, ev) = stem_and_ext(&v);
    let mut i: u64 = 2;
    while i <= 1000
        invariant
            2 <= i <= 1001,
            tv == taken@.map_values(|s: String| s@),
            v@ == filename@,
            tv.contains(filename@),
            forall|j: nat| 2 <= j < i ==> tv.contains(#[trigger] candidate(filename@, j)),
            stem_v@ == plain_stem(filename@),
            ev@ == plain_ext(filename@),
        decreases 1001 - i,
    {
        let mut cand = string_of(&stem_v);
        push_char(&mut cand, '_');
        let n = decimal_string(i);
        cand.append(n.as_str());
        if ev.len() > 0 {
            push_char(&mut cand, '.');
            let es = string_of(&ev);
            cand.append(es.as_str());
        }
        let cv = chars_of(cand.as_str());
        proof {
            reveal_strlit("_");
            reveal_strlit(".");
            assert(cv@ =~= candidate(filename@, i as nat));
        }
        if !taken_has(taken, &cv) {
            proof {
                let ii = i as nat;
                assert(2 <= ii <= 1000 && !tv.contains(candidate(filename@, ii)));
                let c = choose|k: nat|
                    2 <= k <= 1000 && !tv.contains(#[trigger] candidate(filename@, k)) && forall|j: nat|
                        2 <= j < k ==> tv.contains(#[trigger] candidate(filename@, j));
                assert(c == ii) by {
                    if c < ii {
                        assert(tv.contains(candidate(filename@, c)));
                    } else if c > ii {
                        assert(tv.contains(candidate(filename@, ii)));
                    }
                }
            }
            return cand;
        }
        i = i + 1;
    }
    lit(filename)
}

// ───────────────────────── uploads ─────────────────────────

/// The entity types that take attachments.
pub open spec fn attachment_entities() -> Seq<Seq<char>> {
    seq!["finding"@, "engagement"@, "document"@]
}

/// The rules for an upload: a known entity type, and a base64 text whose
/// estimated decoded size (three quarters of its length) is at most 50 MiB.
pub open spec fn attachment_rule(entity_type: Seq<char>, data_len: nat) -> Result<(), Seq<char>> {
    if !attachment_entities().contains(entity_type) {
        Err("Invalid entity_type. Must be finding, engagement, or document."@)
    } else if data_len * 3 / 4 > 50 * 1024 * 1024 {
        Err("File exceeds 50MB limit."@)
    } else {
        Ok(())
    }
}

/// Checks an upload before its data is decoded.
pub fn validate_attachment(input: &AttachmentInput) -> (r: Result<(), String>)
    ensures
        super::clients::checked(
            r,
            attachment_rule(input.entity_type@, crate::text::byte_len(input.file_data_base64@) as nat),
        ),
{
    let v = chars_of(input.entity_type.as_str());
    let ok = eq_lit(&v, "finding") || eq_lit(&v, "engagement") || eq_lit(&v, "document");
    proof {
        let s = attachment_entities();
        if ok {
            if v@ == "finding"@ { assert(s[0] == v@); }
            if v@ == "engagement"@ { assert(s[1] == v@); }
            if v@ == "document"@ { assert(s[2] == v@); }
        }
    }
    if !ok {
        return Err(lit("Invalid entity_type. Must be finding, engagement, or document."));
    }
    let n = str_len(input.file_data_base64.as_str()) as u128;
    if n * 3 / 4 > 50 * 1024 * 1024 {
        return Err(lit("File exceeds 50MB limit."));
    }
    Ok(())
}

/// What standard base64 (with padding) decodes a text to, if it is valid.
pub uninterp spec fn base64_decoded(text: Seq<char>) -> Option<Seq<u8>>;

/// Calls `base64::engine::general_purpose::STANDARD.decode`: the bytes, as
/// named by `base64_decoded`, or the crate's error message.
#[verifier::external_body]
fn base64_decode(text: &str) -> (r: Result<Vec<u8>, String>)
    ensures
        r is Ok <==> base64_decoded(text@) is Some,
        r matches Ok(b) ==> base64_decoded(text@) == Some(b@),
{
    match <base64::engine::GeneralPurpose as base64::Engine>::decode(&base64::engine::general_purpose::STANDARD, text) {
        Ok(b) => Ok(b),
        Err(e) => Err(format!("Failed to decode base64: {}", e)),
    }
}

/// An upload ready to be written: its bytes, their SHA-256 in hexadecimal
/// and the sanitized file name.
pub struct PreparedAttachment {
    pub data: Vec<u8>,
    pub sha256: String,
    pub safe_name: String,
}

/// Checks and decodes an upload: the rules first, then the base64 data,
/// which must not be empty; then hashes it and sanitizes its file name.
pub fn prepare_upload(input: &AttachmentInput) -> (r: Result<PreparedAttachment, String>)
    ensures
        ({
            let rule = attachment_rule(input.entity_type@, crate::text::byte_len(input.file_data_base64@) as nat);
            let decoded = base64_decoded(input.file_data_base64@);
            &&& rule is Err ==> (r matches Err(e) && rule == Err::<(), Seq<char>>(e@))
            &&& (rule is Ok && decoded == Some(Seq::<u8>::empty())) ==> (r matches Err(e) && e@ == "Empty file data."@)
            &&& r matches Ok(p) ==> (rule is Ok && decoded == Some(p.data@) && p.data@.len() > 0
                && p.sha256@ == hex_lower(sha256_digest(p.data@))
                && p.safe_name@ == attachment_name_spec(input.filename@))
            &&& (rule is Ok && (decoded matches Some(b) && b.len() > 0)) ==> r is Ok
        }),
{
    match validate_attachment(input) {
        Ok(()) => {},
        Err(e) => return Err(e),
    }
    let data = match base64_decode(input.file_data_base64.as_str()) {
        Ok(d) => d,
        Err(e) => return Err(e),
    };
    if data.len() == 0 {
        return Err(lit("Empty file data."));
    }
    let sha256 = sha256_hex(data.as_slice());
    let safe_name = sanitize_filename(input.filename.as_str());
    Ok(PreparedAttachment { data, sha256, safe_name })
}


/// Sanitizing is idempotent: a sanitized attachment name is left as it is, and it
/// holds at most 255 characters, each one kept by sanitizing.
pub proof fn law_attachment_name_idempotent(name: Seq<char>)
    ensures
        attachment_name_spec(attachment_name_spec(name)) == attachment_name_spec(name),
        attachment_name_spec(name).len() <= 255,
        forall|i: int| 0 <= i < attachment_name_spec(name).len() ==> attachment_char(#[trigger] attachment_name_spec(name)[i]) == attachment_name_spec(name)[i],
{
    let m = name.map_values(|c: char| attachment_char(c));
    let once = attachment_name_spec(name);
    assert forall|i: int| 0 <= i < once.len() implies attachment_char(#[trigger] once[i]) == once[i] by {
        assert(once[i] == m[i]);
    }
    let twice_m = once.map_values(|c: char| attachment_char(c));
    assert(twice_m =~= once);
}

}
