//! Evidence files kept under `evidence/` in engagement directories: file
//! naming, SHA-256 hashes, the index and the scan for secrets.

use crate::text::{
    byte_len, chars_eq, chars_of, concat, contains, decimal, decimal_string, eq_lit,
    first_chars, has_substring, is_ascii_alnum, char_is_ascii_alnum, lit, lowercase, push_char,
    str_len, string_of, to_lowercase,
};
use vstd::prelude::*;

verus! {

/// An entry of the evidence index.
pub struct EvidenceEntry {
    pub filename: String,
    pub original_path: String,
    pub sha256: String,
    pub size: u64,
    pub date_added: String,
}

/// The evidence index file (`evidence-index.toml`).
pub struct EvidenceIndex {
    pub entries: Vec<EvidenceEntry>,
}

/// Name of the index file in an engagement directory.
pub const INDEX_FILE: &'static str = "evidence-index.toml";

/// Longest file name kept.
pub const MAX_FILENAME_LEN: usize = 255;

// ───────────────────────── file names ─────────────────────────

/// A character kept in an evidence file name, or `_` in its place.
pub open spec fn safe_char(c: char) -> char {
    if is_ascii_alnum(c) || c == '.' || c == '_' || c == '-' {
        c
    } else {
        '_'
    }
}

/// A sanitized file name: only `[a-zA-Z0-9._-]`, at most 255 characters.
pub open spec fn sanitize_spec(name: Seq<char>) -> Seq<char> {
    first_chars(name.map_values(|c: char| safe_char(c)), MAX_FILENAME_LEN as nat)
}

/// Sanitizes a file name: characters outside `[a-zA-Z0-9._-]` become `_`
/// and the result is cut to 255 characters.
pub fn sanitize_filename(name: &str) -> (r: String)
    ensures
        r@ == sanitize_spec(name@),
{
    let v = chars_of(name);
    let mut out: Vec<char> = Vec::new();
    let mut i: usize = 0;
    while i < v.len() && i < MAX_FILENAME_LEN
        invariant
            i <= v@.len(),
            i <= MAX_FILENAME_LEN,
            out@ == v@.take(i as int).map_values(|c: char| safe_char(c)),
        decreases v.len() - i,
    {
        let c = v[i];
        let m = if char_is_ascii_alnum(c) || c == '.' || c == '_' || c == '-' {
            c
        } else {
            '_'
        };
        out.push(m);
        assert(v@.take(i + 1).map_values(|c: char| safe_char(c)) =~= v@.take(i as int).map_values(
            |c: char| safe_char(c),
        ).push(safe_char(c)));
        i = i + 1;
    }
    proof {
        let mapped = name@.map_values(|c: char| safe_char(c));
        if v@.len() <= MAX_FILENAME_LEN {
            assert(v@.take(i as int) =~= v@);
        } else {
            assert(mapped.take(MAX_FILENAME_LEN as int) =~= v@.take(i as int).map_values(
                |c: char| safe_char(c),
            ));
        }
    }
    string_of(&out)
}

/// The stem and extension (with its dot) of a name, split at its last `.`
/// (`str::rsplit_once`); without a dot the extension is empty.
pub open spec fn split_ext(name: Seq<char>) -> (Seq<char>, Seq<char>) {
    if exists|k: int| 0 <= k < name.len() && name[k] == '.' {
        let k = choose|k: int|
            0 <= k < name.len() && name[k] == '.' && forall|j: int| k < j < name.len() ==> name[j] != '.';
        (name.take(k), name.skip(k))
    } else {
        (name, Seq::empty())
    }
}

/// The last index of `c` in `v`, if any.
fn last_index_of(v: &Vec<char>, c: char) -> (r: Option<usize>)
    ensures
        match r {
            Some(k) => k < v@.len() && v@[k as int] == c && forall|j: int| k < j < v@.len() ==> v@[j] != c,
            None => forall|j: int| 0 <= j < v@.len() ==> v@[j] != c,
        },
{
    let mut k: usize = v.len();
    while k > 0
        invariant
            k <= v@.len(),
            forall|j: int| k <= j < v@.len() ==> v@[j] != c,
        decreases k,
    {
        if v[k - 1] == c {
            return Some(k - 1);
        }
        k = k - 1;
    }
    None
}

fn sub_chars(v: &Vec<char>, from: usize, to: usize) -> (r: Vec<char>)
    requires
        from <= to <= v@.len(),
    ensures
        r@ == v@.subrange(from as int, to as int),
{
    let mut r: Vec<char> = Vec::new();
    let mut i: usize = from;
    while i < to
        invariant
            from <= i <= to <= v@.len(),
            r@ == v@.subrange(from as int, i as int),
        decreases to - i,
    {
        r.push(v[i]);
        i = i + 1;
        assert(r@ =~= v@.subrange(from as int, i as int));
    }
    r
}

/// Splits a name at its last `.` into stem and extension (dot included).
pub fn split_extension(name: &Vec<char>) -> (r: (Vec<char>, Vec<char>))
    ensures
        (r.0@, r.1@) == split_ext(name@),
{
    match last_index_of(name, '.') {
        Some(k) => {
            let stem = sub_chars(name, 0, k);
            let ext = sub_chars(name, k, name.len());
            proof {
                let kk = choose|k: int|
                    0 <= k < name@.len() && name@[k] == '.' && forall|j: int| k < j < name@.len() ==> name@[j] != '.';
                assert(kk == k as int) by {
                    if kk < k { } else if kk > k { }
                }
                assert(stem@ =~= name@.take(k as int));
                assert(ext@ =~= name@.skip(k as int));
            }
            (stem, ext)
        },
        None => {
            let stem = sub_chars(name, 0, name.len());
            assert(stem@ =~= name@);
            (stem, Vec::new())
        },
    }
}

/// The name with the numeric suffix `i`: `<stem>_<i><ext>`.
pub open spec fn suffixed(name: Seq<char>, i: nat) -> Seq<char> {
    split_ext(name).0 + "_"@ + decimal(i) + split_ext(name).1
}

/// The name chosen for a new evidence file whose sanitized name is `name`
/// in a directory already holding `taken`: the name itself when free, else
/// the first free `<stem>_<i><ext>` for `i` from 1 to 9999, else
/// `<stem>_dup<ext>`.
pub open spec fn unique_spec(name: Seq<char>, taken: Seq<Seq<char>>) -> Seq<char> {
    if !taken.contains(name) {
        name
    } else if exists|i: nat| 1 <= i < 10000 && !taken.contains(#[trigger] suffixed(name, i)) {
        suffixed(
            name,
            choose|i: nat|
                1 <= i < 10000 && !taken.contains(#[trigger] suffixed(name, i)) && forall|j: nat|
                    1 <= j < i ==> taken.contains(#[trigger] suffixed(name, j)),
        )
    } else {
        split_ext(name).0 + "_dup"@ + split_ext(name).1
    }
}

fn taken_contains(taken: &Vec<String>, name: &Vec<char>) -> (r: bool)
    ensures
        r == taken@.map_values(|s: String| s@).contains(name@),
{
    let ghost tv = taken@.map_values(|s: String| s@);
    let mut i: usize = 0;
    while i < taken.len()
        invariant
            i <= taken@.len(),
            tv == taken@.map_values(|s: String| s@),
            forall|j: int| 0 <= j < i ==> tv[j] != name@,
        decreases taken.len() - i,
    {
        let v = chars_of(taken[i].as_str());
        if chars_eq(&v, name) {
            assert(tv[i as int] == name@);
            return true;
        }
        i = i + 1;
    }
    false
}

/// Picks the evidence file name for `filename` (after sanitizing it) among
/// the names already present in the evidence directory.
pub fn unique_filename(filename: &str, taken: &Vec<String>) -> (r: String)
    ensures
        r@ == unique_spec(sanitize_spec(filename@), taken@.map_values(|s: String| s@)),
{
    let ghost tv = taken@.map_values(|s: String| s@);
    let sanitized = sanitize_filename(filename);
    let sv = chars_of(sanitized.as_str());
    if !taken_contains(taken, &sv) {
        return sanitized;
    }
    let (stem, ext) = split_extension(&sv);
    let mut i: u64 = 1;
    while i < 10000
        invariant
            1 <= i <= 10000,
            tv == taken@.map_values(|s: String| s@),
            (stem@, ext@) == split_ext(sv@),
            sv@ == sanitize_spec(filename@),
            tv.contains(sv@),
            forall|j: nat| 1 <= j < i ==> tv.contains(#[trigger] suffixed(sv@, j)),
        decreases 10000 - i,
    {
        let mut cand = string_of(&stem);
        push_char(&mut cand, '_');
        let n = decimal_string(i);
        cand.append(n.as_str());
        let ev = string_of(&ext);
        cand.append(ev.as_str());
        let cv = chars_of(cand.as_str());
        proof {
            reveal_strlit("_");
        }
        assert(cv@ =~= suffixed(sv@, i as nat));
        if !taken_contains(taken, &cv) {
            proof {
                let ii = i as nat;
                let name = sanitize_spec(filename@);
                assert(name == sv@);
                assert(1 <= ii < 10000 && !tv.contains(suffixed(name, ii)));
                let c = choose|k: nat|
                    1 <= k < 10000 && !tv.contains(#[trigger] suffixed(name, k)) && forall|j: nat|
                        1 <= j < k ==> tv.contains(#[trigger] suffixed(name, j));
                assert(c == ii) by {
                    if c < ii {
                        assert(tv.contains(suffixed(name, c)));
                    } else if c > ii {
                        assert(tv.contains(suffixed(name, ii)));
                    }
                }
            }
            return cand;
        }
        i = i + 1;
    }
    let mut d = string_of(&stem);
    d.append("_dup");
    let ev = string_of(&ext);
    d.append(ev.as_str());
    d
}

// ───────────────────────── hashes ─────────────────────────

/// What SHA-256 gives for a byte sequence.
pub uninterp spec fn sha256_digest(data: Seq<u8>) -> Seq<u8>;

/// Calls `sha2::Sha256::digest`: the 32-byte digest, named `sha256_digest`.
#[verifier::external_body]
fn sha256_bytes(data: &[u8]) -> (r: Vec<u8>)
    ensures
        r@ == sha256_digest(data@),
        r@.len() == 32,
{
    <sha2::Sha256 as sha2::Digest>::digest(data).to_vec()
}

/// A lower-case hexadecimal digit.
pub open spec fn hex_char(d: nat) -> char {
    if d < 10 {
        ((d + 48) as u32) as char
    } else {
        ((d + 87) as u32) as char
    }
}

/// Each byte written as two lower-case hexadecimal digits.
pub open spec fn hex_lower(b: Seq<u8>) -> Seq<char>
    decreases b.len(),
{
    if b.len() == 0 {
        Seq::empty()
    } else {
        hex_lower(b.drop_last()) + seq![hex_char((b.last() / 16) as nat), hex_char((b.last() % 16) as nat)]
    }
}

fn hex_digit_char(d: u8) -> (c: char)
    requires
        d < 16,
    ensures
        c == hex_char(d as nat),
{
    if d == 0 { '0' } else if d == 1 { '1' } else if d == 2 { '2' } else if d == 3 { '3' } else if d
        == 4 { '4' } else if d == 5 { '5' } else if d == 6 { '6' } else if d == 7 { '7' } else if d
        == 8 { '8' } else if d == 9 { '9' } else if d == 10 { 'a' } else if d == 11 { 'b' } else if d
        == 12 { 'c' } else if d == 13 { 'd' } else if d == 14 { 'e' } else { 'f' }
}

/// The bytes as lower-case hexadecimal.
pub fn hex_string(b: &Vec<u8>) -> (r: String)
    ensures
        r@ == hex_lower(b@),
{
    let mut s = String::new();
    let mut i: usize = 0;
    while i < b.len()
        invariant
            i <= b@.len(),
            s@ == hex_lower(b@.take(i as int)),
        decreases b.len() - i,
    {
        let x = b[i];
        push_char(&mut s, hex_digit_char(x / 16));
        push_char(&mut s, hex_digit_char(x % 16));
        assert(b@.take(i + 1).drop_last() =~= b@.take(i as int));
        i = i + 1;
    }
    assert(b@.take(b@.len() as int) =~= b@);
    s
}

/// The SHA-256 digest of the data as 64 lower-case hexadecimal digits.
pub fn sha256_hex(data: &[u8]) -> (r: String)
    ensures
        r@ == hex_lower(sha256_digest(data@)),
{
    let d = sha256_bytes(data);
    hex_string(&d)
}

/// What hash verification reports for one entry: the file is missing, its
/// hash differs from the recorded one, or nothing.
pub open spec fn hash_check_spec(filename: Seq<char>, recorded: Seq<char>, current: Option<Seq<char>>) -> Option<Seq<char>> {
    match current {
        None => Some("Missing: "@ + filename),
        Some(h) => if h != recorded {
            Some("Hash mismatch: "@ + filename)
        } else {
            None
        },
    }
}

/// Compares an entry's recorded hash with the hash of the file now on disk
/// (`None` when the file is gone).
pub fn hash_check(entry: &EvidenceEntry, current: Option<&String>) -> (r: Option<String>)
    ensures
        match r {
            Some(m) => hash_check_spec(
                entry.filename@,
                entry.sha256@,
                match current { Some(h) => Some(h@), None => None },
            ) == Some(m@),
            None => hash_check_spec(
                entry.filename@,
                entry.sha256@,
                match current { Some(h) => Some(h@), None => None },
            ) is None,
        },
{
    match current {
        None => Some(concat("Missing: ", entry.filename.as_str())),
        Some(h) => {
            let a = chars_of(h.as_str());
            let b = chars_of(entry.sha256.as_str());
            if !chars_eq(&a, &b) {
                Some(concat("Hash mismatch: ", entry.filename.as_str()))
            } else {
                None
            }
        },
    }
}

/// Drops every index entry for the given file name.
pub fn remove_entries_named(index: &mut EvidenceIndex, filename: &str)
    ensures
        final(index).entries@ == old(index).entries@.filter(|e: EvidenceEntry| e.filename@ != filename@),
{
    let want = chars_of(filename);
    let mut kept: Vec<EvidenceEntry> = Vec::new();
    let n0 = index.entries.len();
    let ghost orig = index.entries@;
    assert(orig.len() == n0);
    let mut old_entries: Vec<EvidenceEntry> = Vec::new();
    std::mem::swap(&mut old_entries, &mut index.entries);
    let mut i: usize = 0;
    let ghost pred = |e: EvidenceEntry| e.filename@ != filename@;
    while old_entries.len() > 0
        invariant
            i + old_entries@.len() == orig.len(),
            orig.len() <= usize::MAX,
            old_entries@ == orig.skip(i as int),
            kept@ == orig.take(i as int).filter(pred),
            want@ == filename@,
            pred == |e: EvidenceEntry| e.filename@ != filename@,
        decreases old_entries@.len(),
    {
        let e = old_entries.remove(0);
        proof {
            assert(orig.take(i + 1).drop_last() =~= orig.take(i as int));
            assert(orig.take(i + 1).last() == e);
            reveal(Seq::filter);
            assert(orig.skip(i + 1) =~= orig.skip(i as int).drop_first());
        }
        let v = chars_of(e.filename.as_str());
        if !chars_eq(&v, &want) {
            kept.push(e);
        }
        i = i + 1;
    }
    assert(orig.take(i as int) =~= orig);
    index.entries = kept;
}

// ───────────────────────── secrets ─────────────────────────

/// The final `/`-separated component of a path, as `Path::file_name`
/// reads it for a relative file path.
pub open spec fn last_component(p: Seq<char>) -> Seq<char> {
    if exists|k: int| 0 <= k < p.len() && p[k] == '/' {
        let k = choose|k: int|
            0 <= k < p.len() && p[k] == '/' && forall|j: int| k < j < p.len() ==> p[j] != '/';
        p.skip(k + 1)
    } else {
        p
    }
}

/// `Path::extension` of a file name: the part after its last `.`, when that
/// dot is not the first character and the name is not `..`.
pub open spec fn extension_of(name: Seq<char>) -> Option<Seq<char>> {
    let s = split_ext(name);
    if name == ".."@ || s.1.len() == 0 || s.0.len() == 0 {
        None
    } else {
        Some(s.1.drop_first())
    }
}

/// The extension of the file that an index entry names (empty when none).
pub fn entry_extension(filename: &str) -> (r: String)
    ensures
        r@ == match extension_of(last_component(filename@)) {
            Some(e) => e,
            None => Seq::empty(),
        },
{
    let v = chars_of(filename);
    let last = match last_index_of(&v, '/') {
        Some(k) => {
            assert(k < v.len());
            let t = sub_chars(&v, k + 1, v.len());
            proof {
                let kk = choose|k: int|
                    0 <= k < v@.len() && v@[k] == '/' && forall|j: int| k < j < v@.len() ==> v@[j] != '/';
                assert(kk == k as int) by {
                    if kk < k { } else if kk > k { }
                }
                assert(t@ =~= v@.skip(k + 1));
            }
            t
        },
        None => {
            let t = sub_chars(&v, 0, v.len());
            assert(t@ =~= v@);
            t
        },
    };
    if eq_lit(&last, "..") {
        return String::new();
    }
    let (stem, ext) = split_extension(&last);
    if ext.len() == 0 || stem.len() == 0 {
        return String::new();
    }
    let e = sub_chars(&ext, 1, ext.len());
    assert(e@ =~= ext@.drop_first());
    string_of(&e)
}

/// The extensions of files scanned for secrets (and the empty one).
pub open spec fn text_extensions() -> Seq<Seq<char>> {
    seq![
        "txt"@, "log"@, "md"@, "json"@, "xml"@, "csv"@, "yaml"@, "yml"@, "conf"@, "cfg"@, "ini"@,
        "env"@, ""@,
    ]
}

/// Whether files with this extension are scanned for secrets.
pub fn is_text_extension(ext: &str) -> (r: bool)
    ensures
        r == text_extensions().contains(ext@),
{
    let v = chars_of(ext);
    let opts = ["txt", "log", "md", "json", "xml", "csv", "yaml", "yml", "conf", "cfg", "ini", "env", ""];
    let r = crate::text::one_of(&v, &opts);
    proof {
        assert(opts@.map_values(|s: &str| s@) =~= text_extensions());
        if r {
            let i = choose|i: int| 0 <= i < opts@.len() && v@ == (#[trigger] opts@[i])@;
            assert(text_extensions()[i] == ext@);
        } else {
            assert forall|i: int| 0 <= i < text_extensions().len() implies text_extensions()[i] != ext@ by {
                assert(opts@[i]@ == text_extensions()[i]);
            }
        }
    }
    r
}

/// The patterns that suggest a secret, in the order they are tried.
pub open spec fn secret_patterns() -> Seq<Seq<char>> {
    seq![
        "password="@, "passwd="@, "api_key="@, "apikey="@, "secret="@, "token="@, "AKIA"@,
        "-----BEGIN"@, "private_key"@, "access_key="@,
    ]
}

/// The first pattern found in the text, compared without case.
pub open spec fn first_secret(content: Seq<char>, pats: Seq<Seq<char>>) -> Option<Seq<char>>
    decreases pats.len(),
{
    if pats.len() == 0 {
        None
    } else if contains(lowercase(content), lowercase(pats[0])) {
        Some(pats[0])
    } else {
        first_secret(content, pats.drop_first())
    }
}

/// The warning for one evidence file: text files under a million bytes are
/// searched (ignoring case) for the secret patterns, and the first one found
/// is reported.
pub open spec fn secret_warning_spec(filename: Seq<char>, content: Seq<char>) -> Option<Seq<char>> {
    if byte_len(content) >= 1_000_000 {
        None
    } else {
        match first_secret(content, secret_patterns()) {
            Some(p) => Some(filename + ": potential secret pattern '"@ + p + "' found"@),
            None => None,
        }
    }
}

/// Scans the text of one evidence file for secret patterns.
pub fn secret_warning(filename: &str, content: &str) -> (r: Option<String>)
    ensures
        match r {
            Some(w) => secret_warning_spec(filename@, content@) == Some(w@),
            None => secret_warning_spec(filename@, content@) is None,
        },
{
    if str_len(content) >= 1_000_000 {
        return None;
    }
    let pats = [
        "password=", "passwd=", "api_key=", "apikey=", "secret=", "token=", "AKIA", "-----BEGIN",
        "private_key", "access_key=",
    ];
    proof {
        assert(pats@.map_values(|s: &str| s@) =~= secret_patterns());
    }
    let lower = to_lowercase(content);
    let lv = chars_of(lower.as_str());
    let mut i: usize = 0;
    assert(secret_patterns().skip(0) =~= secret_patterns());
    while i < pats.len()
        invariant
            i <= pats@.len(),
            byte_len(content@) < 1_000_000,
            pats@.len() == 10,
            pats@.map_values(|s: &str| s@) == secret_patterns(),
            lv@ == lowercase(content@),
            first_secret(content@, secret_patterns()) == first_secret(
                content@,
                secret_patterns().skip(i as int),
            ),
        decreases pats.len() - i,
    {
        let pl = to_lowercase(pats[i]);
        let pv = chars_of(pl.as_str());
        assert(pats@.map_values(|s: &str| s@)[i as int] == pats@[i as int]@);
        assert(secret_patterns().skip(i as int)[0] == pats@[i as int]@);
        if has_substring(&lv, &pv) {
            let mut w = lit(filename);
            w.append(": potential secret pattern '");
            w.append(pats[i]);
            w.append("' found");
            return Some(w);
        }
        assert(secret_patterns().skip(i as int).drop_first() =~= secret_patterns().skip(i + 1));
        i = i + 1;
    }
    None
}


/// Sanitizing is idempotent: a sanitized evidence file name is left as it is, and it
/// holds at most 255 characters, each one kept by sanitizing.
pub proof fn law_sanitize_idempotent(name: Seq<char>)
    ensures
        sanitize_spec(sanitize_spec(name)) == sanitize_spec(name),
        sanitize_spec(name).len() <= 255,
        forall|i: int| 0 <= i < sanitize_spec(name).len() ==> safe_char(#[trigger] sanitize_spec(name)[i]) == sanitize_spec(name)[i],
{
    let m = name.map_values(|c: char| safe_char(c));
    let once = sanitize_spec(name);
    assert forall|i: int| 0 <= i < once.len() implies safe_char(#[trigger] once[i]) == once[i] by {
        assert(once[i] == m[i]);
    }
    let twice_m = once.map_values(|c: char| safe_char(c));
    assert(twice_m =~= once);
}

}
