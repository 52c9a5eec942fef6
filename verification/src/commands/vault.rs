//! The vault: quoting of its key in SQL, recovery-word positions, and the
//! records exchanged while it is set up.

use super::clients::{check, checked};
use crate::evidence::{hex_char, hex_lower};
use crate::text::{
    byte_len, chars_of, eq_lit, lit, lowercase, push_char, split_chars, split_on, str_eq, str_len, string_of, strings_view,
    to_lowercase, trim, trim_str,
};
use vstd::prelude::*;

verus! {

/// A recovery phrase held while it is being confirmed.
pub struct RecoveryState {
    pub phrase: String,
    pub positions: Vec<u8>,
    pub is_rotation: bool,
}

/// The answer to a confirmation of recovery words: on failure, a new phrase
/// and new positions to confirm.
pub struct ValidationResult {
    pub success: bool,
    pub new_phrase: Option<String>,
    pub new_positions: Option<Vec<u8>>,
}

/// A setting as listed.
pub struct SettingEntry {
    pub key: String,
    pub value: String,
}

// ───────────────────────── SQL quoting ─────────────────────────

/// A string for use inside a single-quoted SQL literal: each `'` doubled.
pub open spec fn sql_escaped(s: Seq<char>) -> Seq<char>
    decreases s.len(),
{
    if s.len() == 0 {
        Seq::empty()
    } else if s.last() == '\'' {
        sql_escaped(s.drop_last()) + seq!['\'', '\'']
    } else {
        sql_escaped(s.drop_last()).push(s.last())
    }
}

/// A single-quoted SQL literal's content read back: a doubled quote at the
/// end stands for one quote.
pub open spec fn sql_unescaped(x: Seq<char>) -> Seq<char>
    decreases x.len(),
{
    if x.len() >= 2 && x.last() == '\'' && x.drop_last().last() == '\'' {
        sql_unescaped(x.drop_last().drop_last()).push('\'')
    } else if x.len() > 0 {
        sql_unescaped(x.drop_last()).push(x.last())
    } else {
        Seq::empty()
    }
}

/// Quoting for SQL loses nothing: reading the quoted text back gives the
/// original text.
pub proof fn law_sql_escape_reversible(s: Seq<char>)
    ensures
        sql_unescaped(sql_escaped(s)) == s,
    decreases s.len(),
{
    if s.len() > 0 {
        law_sql_escape_reversible(s.drop_last());
        let p = sql_escaped(s.drop_last());
        let x = sql_escaped(s);
        if s.last() == '\'' {
            assert(x =~= p.push('\'').push('\''));
            assert(x.drop_last().drop_last() =~= p);
        } else {
            assert(x =~= p.push(s.last()));
            assert(x.drop_last() =~= p);
        }
        assert(s =~= s.drop_last().push(s.last()));
    }
}

/// Escapes a string for a single-quoted SQL literal (`'` becomes `''`).
pub fn escape_sql_string(s: &str) -> (r: String)
    ensures
        r@ == sql_escaped(s@),
{
    let v = chars_of(s);
    let mut out = String::new();
    let mut i: usize = 0;
    while i < v.len()
        invariant
            i <= v@.len(),
            v@ == s@,
            out@ == sql_escaped(v@.take(i as int)),
        decreases v.len() - i,
    {
        assert(v@.take(i + 1).drop_last() =~= v@.take(i as int));
        if v[i] == '\'' {
            push_char(&mut out, '\'');
            push_char(&mut out, '\'');
            assert(out@ =~= sql_escaped(v@.take(i as int)) + seq!['\'', '\'']);
        } else {
            push_char(&mut out, v[i]);
        }
        i = i + 1;
    }
    assert(v@.take(i as int) =~= v@);
    out
}

// ───────────────────────── recovery positions ─────────────────────────

/// The numbers 0 to 11 in order.
pub open spec fn identity12() -> Seq<u8> {
    Seq::new(12, |i: int| i as u8)
}

/// The order after `n` steps of the Fisher-Yates shuffle driven by the
/// random bytes: step `n` swaps the entry at `12 - n` with the one at
/// `rolls[n - 1] % (13 - n)`.
pub open spec fn shuffled(rolls: Seq<u8>, n: nat) -> Seq<u8>
    decreases n,
{
    if n == 0 {
        identity12()
    } else {
        let p = shuffled(rolls, (n - 1) as nat);
        let i = 12 - n;
        let j = (rolls[n - 1] % ((i + 1) as u8)) as int;
        p.update(i, p[j]).update(j, p[i])
    }
}

/// Three values in increasing order.
pub open spec fn sort3(a: u8, b: u8, c: u8) -> Seq<u8> {
    if a <= b && b <= c {
        seq![a, b, c]
    } else if a <= c && c <= b {
        seq![a, c, b]
    } else if b <= a && a <= c {
        seq![b, a, c]
    } else if b <= c && c <= a {
        seq![b, c, a]
    } else if c <= a && a <= b {
        seq![c, a, b]
    } else {
        seq![c, b, a]
    }
}

/// The positions drawn by eleven random bytes: the first three entries of
/// the shuffled numbers, in increasing order.
pub open spec fn positions_spec(rolls: Seq<u8>) -> Seq<u8> {
    let p = shuffled(rolls, 11);
    sort3(p[0], p[1], p[2])
}

/// The twelve entries are the numbers 0 to 11, each once.
pub open spec fn is_perm12(p: Seq<u8>) -> bool {
    p.len() == 12 && (forall|k: int| 0 <= k < 12 ==> #[trigger] p[k] < 12) && (forall|a: int, b: int|
        0 <= a < 12 && 0 <= b < 12 && a != b ==> #[trigger] p[a] != #[trigger] p[b])
}

proof fn lemma_shuffled_perm(rolls: Seq<u8>, n: nat)
    requires
        n <= 11,
        rolls.len() >= n,
    ensures
        is_perm12(shuffled(rolls, n)),
    decreases n,
{
    if n == 0 {
    } else {
        lemma_shuffled_perm(rolls, (n - 1) as nat);
        let p = shuffled(rolls, (n - 1) as nat);
        let i = 12 - n;
        let j = (rolls[n - 1] % ((i + 1) as u8)) as int;
        assert(0 <= j <= i) by {
            assert((rolls[n - 1] % ((i + 1) as u8)) < (i + 1));
        }
        let q = p.update(i, p[j]).update(j, p[i]);
        assert forall|a: int, b: int| 0 <= a < 12 && 0 <= b < 12 && a != b implies #[trigger] q[a] != #[trigger] q[b] by {
            let pa = if a == j { i } else if a == i { j } else { a };
            let pb = if b == j { i } else if b == i { j } else { b };
            assert(q[a] == p[pa]);
            assert(q[b] == p[pb]);
        }
    }
}

/// The three recovery-word positions that eleven random bytes select:
/// shuffle 0..11 (Fisher-Yates, from the end), keep the first three and
/// sort them.
pub fn positions_from(rolls: &Vec<u8>) -> (r: Vec<u8>)
    requires
        rolls@.len() == 11,
    ensures
        r@ == positions_spec(rolls@),
        r@.len() == 3,
        r@[0] < r@[1] < r@[2] < 12,
{
    let mut p: Vec<u8> = Vec::new();
    let mut k: u8 = 0;
    while k < 12
        invariant
            k <= 12,
            p@ == Seq::new(k as nat, |i: int| i as u8),
        decreases 12 - k,
    {
        p.push(k);
        k = k + 1;
        assert(p@ =~= Seq::new(k as nat, |i: int| i as u8));
    }
    assert(p@ =~= identity12());
    let mut n: usize = 1;
    while n <= 11
        invariant
            1 <= n <= 12,
            rolls@.len() == 11,
            p@ == shuffled(rolls@, (n - 1) as nat),
        decreases 12 - n,
    {
        let i: usize = 12 - n;
        let m: u8 = (i + 1) as u8;
        let j: usize = (rolls[n - 1] % m) as usize;
        proof {
            lemma_shuffled_perm(rolls@, (n - 1) as nat);
        }
        let a = p[i];
        let b = p[j];
        p.set(i, b);
        p.set(j, a);
        n = n + 1;
    }
    proof {
        lemma_shuffled_perm(rolls@, 11);
    }
    let (a, b, c) = (p[0], p[1], p[2]);
    let r = if a <= b && b <= c {
        vec![a, b, c]
    } else if a <= c && c <= b {
        vec![a, c, b]
    } else if b <= a && a <= c {
        vec![b, a, c]
    } else if b <= c && c <= a {
        vec![b, c, a]
    } else if c <= a && a <= b {
        vec![c, a, b]
    } else {
        vec![c, b, a]
    };
    proof {
        let q = shuffled(rolls@, 11);
        assert(q[0] != q[1] && q[1] != q[2] && q[0] != q[2]);
        assert(q[0] < 12 && q[1] < 12 && q[2] < 12);
        assert(r@ =~= sort3(a, b, c));
    }
    r
}

/// Calls `rand::random::<u8>()`; nothing is stated of the byte.
#[verifier::external_body]
fn random_byte() -> (r: u8) {
    rand::random::<u8>()
}

/// Draws three distinct recovery-word positions in 0..11, sorted.
pub fn generate_positions() -> (r: Vec<u8>)
    ensures
        r@.len() == 3,
        r@[0] < r@[1] < r@[2] < 12,
        exists|rolls: Seq<u8>| rolls.len() == 11 && r@ == #[trigger] positions_spec(rolls),
{
    let mut rolls: Vec<u8> = Vec::new();
    let mut k: usize = 0;
    while k < 11
        invariant
            k <= 11,
            rolls@.len() == k,
        decreases 11 - k,
    {
        rolls.push(random_byte());
        k = k + 1;
    }
    positions_from(&rolls)
}


// ───────────────────────── confirming recovery words ─────────────────────────

/// Whether `word`, trimmed and lower-cased, is non-empty and is the phrase
/// word at `pos`.
pub open spec fn word_matches(phrase_words: Seq<Seq<char>>, pos: u8, word: Seq<char>) -> bool {
    let t = lowercase(trim(word));
    &&& t.len() > 0
    &&& (pos as int) < phrase_words.len()
    &&& phrase_words[pos as int] == t
}

/// What a confirmation of recovery words decides, before anything is
/// stored: an error when the request does not belong to the pending phrase
/// or does not hold three positions and three words, else whether every
/// word matches the phrase word at its position.
pub open spec fn recovery_check_spec(
    pending_phrase: Seq<char>,
    pending_positions: Seq<u8>,
    phrase: Seq<char>,
    positions: Seq<u8>,
    words: Seq<Seq<char>>,
    phrase_words: Seq<Seq<char>>,
) -> Result<bool, Seq<char>> {
    if phrase != pending_phrase {
        Err("Provided phrase does not match pending recovery state."@)
    } else if positions != pending_positions {
        Err("Validation positions do not match pending recovery state."@)
    } else if positions.len() != 3 || words.len() != 3 {
        Err("Exactly 3 words must be provided."@)
    } else {
        Ok(forall|i: int| 0 <= i < 3 ==> #[trigger] word_matches(phrase_words, positions[i], words[i]))
    }
}

fn same_positions(a: &Vec<u8>, b: &Vec<u8>) -> (r: bool)
    ensures
        r == (a@ == b@),
{
    if a.len() != b.len() {
        return false;
    }
    let mut i: usize = 0;
    while i < a.len()
        invariant
            i <= a.len(),
            a.len() == b.len(),
            forall|j: int| 0 <= j < i ==> a@[j] == b@[j],
        decreases a.len() - i,
    {
        if a[i] != b[i] {
            return false;
        }
        i = i + 1;
    }
    assert(a@ =~= b@);
    true
}

/// Checks a confirmation of recovery words against the pending state.
/// `phrase_words` are the words of the pending phrase, in order.
pub fn check_recovery_words(
    pending: &RecoveryState,
    phrase: &str,
    positions: &Vec<u8>,
    words: &Vec<String>,
    phrase_words: &Vec<String>,
) -> (r: Result<bool, String>)
    ensures
        match r {
            Ok(b) => recovery_check_spec(pending.phrase@, pending.positions@, phrase@, positions@,
                strings_view(words@), strings_view(phrase_words@)) == Ok::<bool, Seq<char>>(b),
            Err(e) => recovery_check_spec(pending.phrase@, pending.positions@, phrase@, positions@,
                strings_view(words@), strings_view(phrase_words@)) == Err::<bool, Seq<char>>(e@),
        },
{
    if !str_eq(phrase, pending.phrase.as_str()) {
        return Err(lit("Provided phrase does not match pending recovery state."));
    }
    if !same_positions(positions, &pending.positions) {
        return Err(lit("Validation positions do not match pending recovery state."));
    }
    if positions.len() != 3 || words.len() != 3 {
        return Err(lit("Exactly 3 words must be provided."));
    }
    let ghost pw = strings_view(phrase_words@);
    let ghost ws = strings_view(words@);
    let mut i: usize = 0;
    while i < 3
        invariant
            i <= 3,
            phrase@ == pending.phrase@,
            positions@ == pending.positions@,
            positions.len() == 3,
            words.len() == 3,
            pw == strings_view(phrase_words@),
            ws == strings_view(words@),
            forall|j: int| 0 <= j < i ==> #[trigger] word_matches(pw, positions@[j], ws[j]),
        decreases 3 - i,
    {
        let t = to_lowercase(trim_str(words[i].as_str()).as_str());
        let pos = positions[i];
        assert(ws[i as int] == words@[i as int]@);
        if chars_of(t.as_str()).len() == 0 || (pos as usize) >= phrase_words.len() {
            assert(!word_matches(pw, positions@[i as int], ws[i as int]));
            return Ok(false);
        }
        if !str_eq(phrase_words[pos as usize].as_str(), t.as_str()) {
            assert(pw[pos as int] == phrase_words@[pos as int]@);
            assert(!word_matches(pw, positions@[i as int], ws[i as int]));
            return Ok(false);
        }
        assert(pw[pos as int] == phrase_words@[pos as int]@);
        i = i + 1;
    }
    Ok(true)
}

// ───────────────────────── password change and the version file ─────────────────────────

/// The rule for a new master password: at least 8 bytes, and not the
/// current one.
pub open spec fn new_password_rule(old: Seq<char>, new: Seq<char>) -> Result<(), Seq<char>> {
    if byte_len(new) < 8 {
        Err("New password must be at least 8 characters"@)
    } else {
        check(old != new, "New password must differ from the current password."@)
    }
}

/// Checks a new master password against the rule.
pub fn check_new_password(old: &str, new: &str) -> (r: Result<(), String>)
    ensures
        checked(r, new_password_rule(old@, new@)),
        r is Ok <==> (byte_len(new@) >= 8 && old@ != new@),
{
    if str_len(new) < 8 {
        return Err(lit("New password must be at least 8 characters"));
    }
    if str_eq(old, new) {
        return Err(lit("New password must differ from the current password."));
    }
    Ok(())
}

/// The value of a hexadecimal digit of either case, or -1 for any other
/// character.
pub open spec fn hex_value(c: char) -> int {
    if '0' <= c && c <= '9' {
        c as int - '0' as int
    } else if 'a' <= c && c <= 'f' {
        c as int - 'a' as int + 10
    } else if 'A' <= c && c <= 'F' {
        c as int - 'A' as int + 10
    } else {
        -1
    }
}

/// What `hex::decode` gives for a text: `None` unless the text has an even
/// length and only hexadecimal digits (of either case); else each pair of
/// digits read as one byte, the first digit high.
pub open spec fn hex_decoded(s: Seq<char>) -> Option<Seq<u8>> {
    if s.len() % 2 == 0 && forall|i: int| 0 <= i < s.len() ==> hex_value(#[trigger] s[i]) >= 0 {
        Some(Seq::new((s.len() / 2) as nat, |i: int| (16 * hex_value(s[2 * i]) + hex_value(s[2 * i + 1])) as u8))
    } else {
        None
    }
}

/// Calls `hex::decode`. It refuses a text of odd byte length or with a
/// character other than `0-9`, `a-f`, `A-F`, and otherwise reads each pair
/// of digits as a byte; a text with a character outside ASCII fails either
/// way, so the byte length can be read as the character count here.
#[verifier::external_body]
fn hex_decode(text: &str) -> (r: Option<Vec<u8>>)
    ensures
        match r {
            Some(v) => hex_decoded(text@) == Some(v@),
            None => hex_decoded(text@) is None,
        },
{
    hex::decode(text).ok()
}

/// Calls `hex::encode`: each byte as two lower-case hexadecimal digits.
#[verifier::external_body]
fn hex_encode(bytes: &[u8]) -> (r: String)
    ensures
        r@ == hex_lower(bytes@),
{
    hex::encode(bytes)
}

/// What a vault version file gives: its trimmed text must be `2:` and a
/// hexadecimal salt of 16 bytes.
pub open spec fn vault_salt_spec(content: Seq<char>) -> Result<Seq<u8>, Seq<char>> {
    let parts = split_on(trim(content), ':');
    if parts.len() != 2 || parts[0] != "2"@ {
        Err("Vault format not supported. Please create a new vault."@)
    } else {
        match hex_decoded(parts[1]) {
            None => Err("Vault metadata corrupted"@),
            Some(b) => if b.len() != 16 {
                Err("Vault metadata corrupted: invalid salt"@)
            } else {
                Ok(b)
            },
        }
    }
}

/// Reads the key salt out of the text of a vault version file.
pub fn vault_salt(version_content: &str) -> (r: Result<Vec<u8>, String>)
    ensures
        match r {
            Ok(s) => vault_salt_spec(version_content@) == Ok::<Seq<u8>, Seq<char>>(s@),
            Err(m) => vault_salt_spec(version_content@) == Err::<Seq<u8>, Seq<char>>(m@),
        },
        r matches Ok(s) ==> s@.len() == 16,
{
    let t = trim_str(version_content);
    let v = chars_of(t.as_str());
    let parts = split_chars(&v, ':');
    if parts.len() != 2 || !eq_lit(&parts[0], "2") {
        return Err(lit("Vault format not supported. Please create a new vault."));
    }
    let h = string_of(&parts[1]);
    match hex_decode(h.as_str()) {
        None => Err(lit("Vault metadata corrupted")),
        Some(b) => {
            if b.len() != 16 {
                Err(lit("Vault metadata corrupted: invalid salt"))
            } else {
                Ok(b)
            }
        },
    }
}

/// The text of a vault version file for a key salt: `2:` and the salt in
/// lower-case hexadecimal.
pub fn version_file_text(salt: &Vec<u8>) -> (r: String)
    ensures
        r@ == "2:"@ + hex_lower(salt@),
{
    let mut s = lit("2:");
    let h = hex_encode(salt.as_slice());
    s.append(h.as_str());
    s
}


proof fn lemma_hex_lower_shape(b: Seq<u8>)
    ensures
        hex_lower(b).len() == 2 * b.len(),
        forall|i: int| 0 <= i < b.len() ==> hex_lower(b)[2 * i] == hex_char((b[i] / 16) as nat)
            && hex_lower(b)[2 * i + 1] == hex_char((b[i] % 16) as nat),
    decreases b.len(),
{
    if b.len() > 0 {
        let d = b.drop_last();
        lemma_hex_lower_shape(d);
        assert forall|i: int| 0 <= i < b.len() implies hex_lower(b)[2 * i] == hex_char((b[i] / 16) as nat)
            && hex_lower(b)[2 * i + 1] == hex_char((b[i] % 16) as nat) by {
            if i < d.len() {
                assert(b[i] == d[i]);
            }
        }
    }
}

proof fn lemma_hex_char_value(d: nat)
    requires
        d < 16,
    ensures
        hex_value(hex_char(d)) == d,
        !crate::text::is_ws(hex_char(d)),
        hex_char(d) != ':',
{
    if d < 10 {
        assert(hex_char(d) as int == d + 48);
    } else {
        assert(hex_char(d) as int == d + 87);
    }
}

proof fn lemma_split_without(h: Seq<char>, c: char)
    requires
        forall|i: int| 0 <= i < h.len() ==> h[i] != c,
    ensures
        split_on(h, c) == seq![h],
    decreases h.len(),
{
    if h.len() == 0 {
        assert(h =~= Seq::<char>::empty());
        assert(split_on(h, c) =~= seq![h]);
    } else {
        let t = h.drop_first();
        assert forall|i: int| 0 <= i < t.len() implies t[i] != c by {
            assert(t[i] == h[i + 1]);
        }
        lemma_split_without(t, c);
        assert(h[0] != c);
        assert(seq![h[0]] + t =~= h);
        assert(split_on(h, c) == split_on(t, c).update(0, seq![h[0]] + split_on(t, c)[0]));
        assert(split_on(h, c) =~= seq![h]);
    }
}

/// What a version file is written with reads back: the salt that
/// `version_file_text` writes for a 16-byte salt is the salt that
/// `vault_salt` reads from that text.
pub proof fn law_version_file_reads_back(salt: Seq<u8>)
    requires
        salt.len() == 16,
    ensures
        vault_salt_spec("2:"@ + hex_lower(salt)) == Ok::<Seq<u8>, Seq<char>>(salt),
{
    reveal_strlit("2:");
    reveal_strlit("2");
    let h = hex_lower(salt);
    lemma_hex_lower_shape(salt);
    assert forall|i: int| 0 <= i < h.len() implies hex_value(#[trigger] h[i]) >= 0 && !crate::text::is_ws(h[i])
        && h[i] != ':' by {
        let k = i / 2;
        if i % 2 == 0 {
            assert(i == 2 * k);
            lemma_hex_char_value((salt[k] / 16) as nat);
        } else {
            assert(i == 2 * k + 1);
            lemma_hex_char_value((salt[k] % 16) as nat);
        }
    }
    let x = "2:"@ + h;
    // trimming changes nothing: the text starts with `2` and ends with a digit
    assert(x[0] == '2');
    assert(x.last() == h[h.len() - 1]);
    assert(crate::text::trim_start(x) == x);
    assert(crate::text::trim_end(x) == x);
    assert(trim(x) == x);
    // splitting on ':' gives "2" and the digits
    lemma_split_without(h, ':');
    assert(x.drop_first().drop_first() =~= h);
    assert(x.drop_first()[0] == ':');
    let p = split_on(x, ':');
    assert(split_on(x.drop_first(), ':') =~= seq![Seq::<char>::empty(), h]);
    assert("2"@ =~= seq!['2']);
    assert(x[0] != ':');
    assert(p == split_on(x.drop_first(), ':').update(0, seq![x[0]] + split_on(x.drop_first(), ':')[0]));
    assert(seq![x[0]] + Seq::<char>::empty() =~= "2"@);
    assert(p =~= seq!["2"@, h]);
    // the digits decode to the salt
    let dec = Seq::new((h.len() / 2) as nat, |i: int| (16 * hex_value(h[2 * i]) + hex_value(h[2 * i + 1])) as u8);
    assert forall|i: int| 0 <= i < salt.len() implies dec[i] == salt[i] by {
        lemma_hex_char_value((salt[i] / 16) as nat);
        lemma_hex_char_value((salt[i] % 16) as nat);
        assert(16 * (salt[i] / 16) + salt[i] % 16 == salt[i]);
    }
    assert(dec =~= salt);
    assert(hex_decoded(h) == Some(salt));
}


// ───────────────────────── after a confirmation ─────────────────────────

fn copy_bytes(v: &Vec<u8>) -> (r: Vec<u8>)
    ensures
        r@ == v@,
{
    let mut r: Vec<u8> = Vec::new();
    let mut i: usize = 0;
    while i < v.len()
        invariant
            i <= v@.len(),
            r@ == v@.take(i as int),
        decreases v.len() - i,
    {
        r.push(v[i]);
        i = i + 1;
        assert(r@ =~= v@.take(i as int));
    }
    assert(v@.take(v@.len() as int) =~= v@);
    r
}

/// After a failed confirmation: a new phrase and new positions are pending
/// (still a rotation when the old one was), and the answer hands them out.
pub fn retry_recovery(pending: &RecoveryState, new_phrase: String, new_positions: Vec<u8>) -> (r: (RecoveryState, ValidationResult))
    ensures
        r.0.phrase@ == new_phrase@,
        r.0.positions@ == new_positions@,
        r.0.is_rotation == pending.is_rotation,
        !r.1.success,
        r.1.new_phrase matches Some(p) && p@ == new_phrase@,
        r.1.new_positions matches Some(q) && q@ == new_positions@,
{
    let answer = ValidationResult {
        success: false,
        new_phrase: Some(crate::text::copy_string(&new_phrase)),
        new_positions: Some(copy_bytes(&new_positions)),
    };
    (RecoveryState { phrase: new_phrase, positions: new_positions, is_rotation: pending.is_rotation }, answer)
}

/// The answer to a successful confirmation.
pub fn recovery_confirmed() -> (r: ValidationResult)
    ensures
        r.success,
        r.new_phrase is None,
        r.new_positions is None,
{
    ValidationResult { success: true, new_phrase: None, new_positions: None }
}

/// The recovery envelope as stored: the nonce, then the ciphertext.
pub fn recovery_envelope(nonce: &Vec<u8>, ciphertext: &Vec<u8>) -> (r: Vec<u8>)
    ensures
        r@ == nonce@ + ciphertext@,
{
    let mut r = copy_bytes(nonce);
    let mut c = copy_bytes(ciphertext);
    r.append(&mut c);
    r
}

/// The audit record of a stored recovery envelope: its action, the old
/// value and the context, for a rotation or for the vault's creation.
pub fn recovery_audit(is_rotation: bool) -> (r: (&'static str, Option<&'static str>, &'static str))
    ensures
        is_rotation ==> r.0@ == "UPDATE"@ && (r.1 matches Some(o) && o@ == "old phrase invalidated"@)
            && r.2@ == "recovery_phrase_rotation"@,
        !is_rotation ==> r.0@ == "INSERT"@ && r.1 is None && r.2@ == "vault_creation"@,
{
    if is_rotation {
        ("UPDATE", Some("old phrase invalidated"), "recovery_phrase_rotation")
    } else {
        ("INSERT", None, "vault_creation")
    }
}

} // verus!
