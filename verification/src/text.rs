//! Character-level text helpers shared by the whole library.
//!
//! Strings are modelled by their `Seq<char>` views. The helpers here give the
//! rest of the library trimming, splitting, searching and building of
//! strings with exact contracts.

use vstd::prelude::*;
use vstd::string::*;

verus! {

// ───────────────────────── character classes ─────────────────────────

/// `char::is_whitespace`: the Unicode `White_Space` property.
pub open spec fn is_ws(c: char) -> bool {
    ||| ('\u{9}' <= c && c <= '\u{d}')
    ||| c == ' '
    ||| c == '\u{85}'
    ||| c == '\u{a0}'
    ||| c == '\u{1680}'
    ||| ('\u{2000}' <= c && c <= '\u{200a}')
    ||| c == '\u{2028}'
    ||| c == '\u{2029}'
    ||| c == '\u{202f}'
    ||| c == '\u{205f}'
    ||| c == '\u{3000}'
}

pub open spec fn is_ascii_digit(c: char) -> bool {
    '0' <= c && c <= '9'
}

pub open spec fn is_ascii_lower(c: char) -> bool {
    'a' <= c && c <= 'z'
}

pub open spec fn is_ascii_upper(c: char) -> bool {
    'A' <= c && c <= 'Z'
}

pub open spec fn is_ascii_alnum(c: char) -> bool {
    is_ascii_digit(c) || is_ascii_lower(c) || is_ascii_upper(c)
}

/// `char::is_control`: the Unicode general category `Cc`.
pub open spec fn is_control(c: char) -> bool {
    (c as u32) <= 0x1f || (0x7f <= (c as u32) && (c as u32) <= 0x9f)
}

pub fn char_is_ws(c: char) -> (r: bool)
    ensures
        r == is_ws(c),
{
    ('\u{9}' <= c && c <= '\u{d}') || c == ' ' || c == '\u{85}' || c == '\u{a0}' || c
        == '\u{1680}' || ('\u{2000}' <= c && c <= '\u{200a}') || c == '\u{2028}' || c
        == '\u{2029}' || c == '\u{202f}' || c == '\u{205f}' || c == '\u{3000}'
}

pub fn char_is_ascii_digit(c: char) -> (r: bool)
    ensures
        r == is_ascii_digit(c),
{
    '0' <= c && c <= '9'
}

pub fn char_is_ascii_alnum(c: char) -> (r: bool)
    ensures
        r == is_ascii_alnum(c),
{
    ('0' <= c && c <= '9') || ('a' <= c && c <= 'z') || ('A' <= c && c <= 'Z')
}

pub fn char_is_control(c: char) -> (r: bool)
    ensures
        r == is_control(c),
{
    let n = c as u32;
    n <= 0x1f || (0x7f <= n && n <= 0x9f)
}

// ───────────────────────── outside calls ─────────────────────────

/// What `str::to_lowercase` returns for a string (full Unicode case mapping).
pub uninterp spec fn lowercase(s: Seq<char>) -> Seq<char>;

/// What `str::to_uppercase` returns for a string (full Unicode case mapping).
pub uninterp spec fn uppercase(s: Seq<char>) -> Seq<char>;

/// Calls `str::to_uppercase`; the result is named `uppercase` of the input.
#[verifier::external_body]
pub(crate) fn to_uppercase(s: &str) -> (r: String)
    ensures
        r@ == uppercase(s@),
{
    s.to_uppercase()
}

/// What `char::is_alphanumeric` returns (Unicode `Alphabetic` or `Numeric`).
pub uninterp spec fn unicode_alphanumeric(c: char) -> bool;

/// Calls `str::to_lowercase`; the result is named `lowercase` of the input.
#[verifier::external_body]
pub(crate) fn to_lowercase(s: &str) -> (r: String)
    ensures
        r@ == lowercase(s@),
{
    s.to_lowercase()
}

/// Calls `char::is_alphanumeric`; the result is named `unicode_alphanumeric`.
#[verifier::external_body]
pub(crate) fn char_is_alphanumeric(c: char) -> (r: bool)
    ensures
        r == unicode_alphanumeric(c),
{
    c.is_alphanumeric()
}

/// Calls `String::push`: the character is appended.
#[verifier::external_body]
pub(crate) fn push_char(s: &mut String, c: char)
    ensures
        final(s)@ == old(s)@.push(c),
{
    s.push(c)
}

/// Calls `std::str::from_utf8`: `Some` exactly for valid UTF-8, holding the
/// decoded characters.
#[verifier::external_body]
pub(crate) fn utf8_decode(b: &[u8]) -> (r: Option<String>)
    ensures
        r.is_some() <==> vstd::utf8::valid_utf8(b@),
        r.is_some() ==> r.unwrap()@ == vstd::utf8::decode_utf8(b@),
{
    match std::str::from_utf8(b) {
        Ok(s) => Some(s.to_string()),
        Err(_) => None,
    }
}

/// Calls `String::from_utf8_lossy`; the result is named `utf8_lossy`.
#[verifier::external_body]
pub(crate) fn utf8_lossy_decode(b: &[u8]) -> (r: String)
    ensures
        r@ == utf8_lossy(b@),
{
    String::from_utf8_lossy(b).to_string()
}

/// What `String::from_utf8_lossy` returns for a byte sequence.
pub uninterp spec fn utf8_lossy(b: Seq<u8>) -> Seq<char>;

// ───────────────────────── building strings ─────────────────────────

/// The characters of `s`, in order.
pub fn chars_of(s: &str) -> (v: Vec<char>)
    ensures
        v@ == s@,
{
    let mut v: Vec<char> = Vec::new();
    for c in it: s.chars()
        invariant
            v@ == it.seq().take(it.index() as int),
    {
        v.push(c);
    }
    proof {
        assert(v@ =~= s@);
    }
    v
}

/// A `String` holding exactly the characters of `v`.
pub fn string_of(v: &Vec<char>) -> (r: String)
    ensures
        r@ == v@,
{
    let mut r = String::new();
    let mut i: usize = 0;
    while i < v.len()
        invariant
            i <= v.len(),
            r@ == v@.take(i as int),
        decreases v.len() - i,
    {
        push_char(&mut r, v[i]);
        i = i + 1;
        assert(r@ =~= v@.take(i as int));
    }
    assert(v@.take(v.len() as int) =~= v@);
    r
}

/// A `String` holding the characters of a literal.
pub fn lit(s: &str) -> (r: String)
    ensures
        r@ == s@,
{
    String::from_str(s)
}

/// Appends the characters of `v` to `s`.
pub fn push_chars(s: &mut String, v: &Vec<char>)
    ensures
        final(s)@ == old(s)@ + v@,
{
    let mut i: usize = 0;
    while i < v.len()
        invariant
            i <= v.len(),
            s@ == old(s)@ + v@.take(i as int),
        decreases v.len() - i,
    {
        push_char(s, v[i]);
        i = i + 1;
        assert(s@ =~= old(s)@ + v@.take(i as int));
    }
    assert(v@.take(v.len() as int) =~= v@);
}

/// Appends the characters of `t` to `s`.
pub fn push_string(s: &mut String, t: &String)
    ensures
        final(s)@ == old(s)@ + t@,
{
    s.append(t.as_str());
}

/// A copy of `s`.
pub fn copy_string(s: &String) -> (r: String)
    ensures
        r@ == s@,
{
    s.clone()
}

/// `a` followed by `b`.
pub fn concat(a: &str, b: &str) -> (r: String)
    ensures
        r@ == a@ + b@,
{
    let mut r = String::from_str(a);
    r.append(b);
    r
}

/// The first `n` characters of `s` (all of them when it is shorter), as
/// `s.chars().take(n)` gives them.
pub open spec fn first_chars(s: Seq<char>, n: nat) -> Seq<char> {
    if s.len() <= n {
        s
    } else {
        s.take(n as int)
    }
}

/// The first `n` characters of `s`.
pub fn take_chars(s: &String, n: usize) -> (r: String)
    ensures
        r@ == first_chars(s@, n as nat),
{
    let v = chars_of(s.as_str());
    if v.len() <= n {
        return copy_string(s);
    }
    let mut out: Vec<char> = Vec::new();
    let mut i: usize = 0;
    while i < n
        invariant
            n < v.len(),
            i <= n,
            out@ == v@.take(i as int),
        decreases n - i,
    {
        out.push(v[i]);
        i = i + 1;
        assert(out@ =~= v@.take(i as int));
    }
    string_of(&out)
}

// ───────────────────────── comparing ─────────────────────────

/// Whether two character sequences are equal.
pub fn chars_eq(a: &Vec<char>, b: &Vec<char>) -> (r: bool)
    ensures
        r == (a@ == b@),
{
    if a.len() != b.len() {
        return false;
    }
    let mut i: usize = 0;
    while i < a.len()
        invariant
            a.len() == b.len(),
            i <= a.len(),
            a@.take(i as int) == b@.take(i as int),
        decreases a.len() - i,
    {
        if a[i] != b[i] {
            assert(a@[i as int] != b@[i as int]);
            return false;
        }
        assert(a@.take(i + 1) =~= a@.take(i as int).push(a@[i as int]));
        assert(b@.take(i + 1) =~= b@.take(i as int).push(b@[i as int]));
        i = i + 1;
    }
    assert(a@ =~= a@.take(a.len() as int));
    assert(b@ =~= b@.take(b.len() as int));
    true
}

/// Whether the characters of `a` are those of the literal `b`.
pub fn eq_lit(a: &Vec<char>, b: &str) -> (r: bool)
    ensures
        r == (a@ == b@),
{
    let bv = chars_of(b);
    chars_eq(a, &bv)
}

/// Whether two strings hold the same characters.
pub fn str_eq(a: &str, b: &str) -> (r: bool)
    ensures
        r == (a@ == b@),
{
    let av = chars_of(a);
    let bv = chars_of(b);
    chars_eq(&av, &bv)
}

/// Whether `s` is one of the literals in `options`.
pub fn one_of(s: &Vec<char>, options: &[&str]) -> (r: bool)
    ensures
        r == exists|i: int| 0 <= i < options@.len() && s@ == (#[trigger] options@[i])@,
{
    let mut i: usize = 0;
    while i < options.len()
        invariant
            i <= options@.len(),
            forall|j: int| 0 <= j < i ==> s@ != (#[trigger] options@[j])@,
        decreases options.len() - i,
    {
        if eq_lit(s, options[i]) {
            return true;
        }
        i = i + 1;
    }
    false
}

pub open spec fn starts_with(s: Seq<char>, p: Seq<char>) -> bool {
    p.len() <= s.len() && s.take(p.len() as int) == p
}

pub open spec fn ends_with(s: Seq<char>, p: Seq<char>) -> bool {
    p.len() <= s.len() && s.skip(s.len() - p.len()) == p
}

/// `needle` occurs in `s` starting at index `i`.
pub open spec fn occurs_at(s: Seq<char>, needle: Seq<char>, i: int) -> bool {
    0 <= i && i + needle.len() <= s.len() && s.subrange(i, i + needle.len()) == needle
}

pub open spec fn contains(s: Seq<char>, needle: Seq<char>) -> bool {
    exists|i: int| occurs_at(s, needle, i)
}

/// Whether `s` begins with `p`.
pub fn has_prefix(s: &Vec<char>, p: &Vec<char>) -> (r: bool)
    ensures
        r == starts_with(s@, p@),
{
    if p.len() > s.len() {
        return false;
    }
    let mut i: usize = 0;
    while i < p.len()
        invariant
            p.len() <= s.len(),
            i <= p.len(),
            s@.take(i as int) == p@.take(i as int),
        decreases p.len() - i,
    {
        if s[i] != p[i] {
            assert(s@.take(p.len() as int)[i as int] != p@[i as int]);
            return false;
        }
        assert(s@.take(i + 1) =~= s@.take(i as int).push(s@[i as int]));
        assert(p@.take(i + 1) =~= p@.take(i as int).push(p@[i as int]));
        i = i + 1;
    }
    assert(p@ =~= p@.take(p.len() as int));
    true
}

/// Whether `s` ends with `p`.
pub fn has_suffix(s: &Vec<char>, p: &Vec<char>) -> (r: bool)
    ensures
        r == ends_with(s@, p@),
{
    if p.len() > s.len() {
        return false;
    }
    let off = s.len() - p.len();
    let mut i: usize = 0;
    while i < p.len()
        invariant
            p.len() <= s.len(),
            off == s.len() - p.len(),
            i <= p.len(),
            forall|j: int| 0 <= j < i ==> s@[off + j] == p@[j],
        decreases p.len() - i,
    {
        if s[off + i] != p[i] {
            assert(s@.skip(off as int)[i as int] != p@[i as int]);
            return false;
        }
        i = i + 1;
    }
    assert(s@.skip(off as int) =~= p@);
    true
}

/// Whether `needle` occurs at index `i` of `s`.
fn match_at(s: &Vec<char>, needle: &Vec<char>, i: usize) -> (r: bool)
    requires
        i <= s.len(),
    ensures
        r == occurs_at(s@, needle@, i as int),
{
    if needle.len() > s.len() - i {
        return false;
    }
    let mut k: usize = 0;
    while k < needle.len()
        invariant
            i + needle.len() <= s.len(),
            k <= needle.len(),
            forall|j: int| 0 <= j < k ==> s@[i + j] == needle@[j],
        decreases needle.len() - k,
    {
        if s[i + k] != needle[k] {
            assert(s@.subrange(i as int, i + needle.len())[k as int] != needle@[k as int]);
            return false;
        }
        k = k + 1;
    }
    assert(s@.subrange(i as int, i + needle.len()) =~= needle@);
    true
}

/// The first index at which `needle` occurs in `s`, if any.
pub fn find(s: &Vec<char>, needle: &Vec<char>) -> (r: Option<usize>)
    ensures
        r.is_some() ==> occurs_at(s@, needle@, r.unwrap() as int) && forall|j: int|
            0 <= j < r.unwrap() ==> !occurs_at(s@, needle@, j),
        r.is_none() ==> !contains(s@, needle@),
{
    let mut i: usize = 0;
    while i < s.len()
        invariant
            i <= s.len(),
            forall|j: int| 0 <= j < i ==> !occurs_at(s@, needle@, j),
        decreases s.len() - i,
    {
        if match_at(s, needle, i) {
            return Some(i);
        }
        i = i + 1;
    }
    if match_at(s, needle, i) {
        return Some(i);
    }
    assert forall|j: int| !occurs_at(s@, needle@, j) by {
        if 0 <= j && j <= s.len() {
        }
    }
    None
}

/// Whether `needle` occurs in `s`.
pub fn has_substring(s: &Vec<char>, needle: &Vec<char>) -> (r: bool)
    ensures
        r == contains(s@, needle@),
{
    find(s, needle).is_some()
}

/// Whether the character `c` occurs in `s`.
pub fn has_char(s: &Vec<char>, c: char) -> (r: bool)
    ensures
        r == s@.contains(c),
{
    let mut i: usize = 0;
    while i < s.len()
        invariant
            i <= s.len(),
            forall|j: int| 0 <= j < i ==> s@[j] != c,
        decreases s.len() - i,
    {
        if s[i] == c {
            assert(s@[i as int] == c);
            return true;
        }
        i = i + 1;
    }
    false
}

// ───────────────────────── trimming ─────────────────────────

/// `str::trim_start`: drops leading whitespace.
pub open spec fn trim_start(s: Seq<char>) -> Seq<char>
    decreases s.len(),
{
    if s.len() > 0 && is_ws(s[0]) {
        trim_start(s.drop_first())
    } else {
        s
    }
}

/// `str::trim_end`: drops trailing whitespace.
pub open spec fn trim_end(s: Seq<char>) -> Seq<char>
    decreases s.len(),
{
    if s.len() > 0 && is_ws(s.last()) {
        trim_end(s.drop_last())
    } else {
        s
    }
}

/// `str::trim`: drops leading and trailing whitespace.
pub open spec fn trim(s: Seq<char>) -> Seq<char> {
    trim_end(trim_start(s))
}

proof fn lemma_trim_start_skip(s: Seq<char>, i: int)
    requires
        0 <= i <= s.len(),
        forall|j: int| 0 <= j < i ==> is_ws(#[trigger] s[j]),
        i == s.len() || !is_ws(s[i]),
    ensures
        trim_start(s) == s.skip(i),
    decreases i,
{
    if i == 0 {
        assert(s.skip(0) =~= s);
    } else {
        let t = s.drop_first();
        assert forall|j: int| 0 <= j < i - 1 implies is_ws(#[trigger] t[j]) by {
            assert(t[j] == s[j + 1]);
        }
        lemma_trim_start_skip(t, i - 1);
        assert(t.skip(i - 1) =~= s.skip(i));
    }
}

proof fn lemma_trim_end_take(s: Seq<char>, k: int)
    requires
        0 <= k <= s.len(),
        forall|j: int| k <= j < s.len() ==> is_ws(#[trigger] s[j]),
        k == 0 || !is_ws(s[k - 1]),
    ensures
        trim_end(s) == s.take(k),
    decreases s.len() - k,
{
    if k == s.len() {
        assert(s.take(k) =~= s);
    } else {
        let t = s.drop_last();
        assert forall|j: int| k <= j < t.len() implies is_ws(#[trigger] t[j]) by {
            assert(t[j] == s[j]);
        }
        lemma_trim_end_take(t, k);
        assert(t.take(k) =~= s.take(k));
    }
}

/// The characters of `s` without leading and trailing whitespace.
pub fn trim_chars(s: &Vec<char>) -> (r: Vec<char>)
    ensures
        r@ == trim(s@),
{
    let mut i: usize = 0;
    while i < s.len() && char_is_ws(s[i])
        invariant
            i <= s.len(),
            forall|j: int| 0 <= j < i ==> is_ws(#[trigger] s@[j]),
        decreases s.len() - i,
    {
        i = i + 1;
    }
    proof {
        lemma_trim_start_skip(s@, i as int);
    }
    let ghost t = s@.skip(i as int);
    let mut k: usize = s.len();
    while k > i && char_is_ws(s[k - 1])
        invariant
            i <= k <= s.len(),
            t == s@.skip(i as int),
            forall|j: int| k <= j < s.len() ==> is_ws(#[trigger] s@[j]),
        decreases k,
    {
        k = k - 1;
    }
    proof {
        assert forall|j: int| k - i <= j < t.len() implies is_ws(#[trigger] t[j]) by {
            assert(t[j] == s@[i + j]);
        }
        if k > i {
            assert(t[k - i - 1] == s@[k - 1]);
        }
        lemma_trim_end_take(t, k - i);
    }
    let mut r: Vec<char> = Vec::new();
    let mut p: usize = i;
    while p < k
        invariant
            i <= p <= k <= s.len(),
            r@ == s@.subrange(i as int, p as int),
        decreases k - p,
    {
        r.push(s[p]);
        p = p + 1;
        assert(r@ =~= s@.subrange(i as int, p as int));
    }
    assert(t.take(k - i) =~= s@.subrange(i as int, k as int));
    r
}

/// `s` with leading and trailing whitespace removed.
pub fn trim_str(s: &str) -> (r: String)
    ensures
        r@ == trim(s@),
{
    let v = chars_of(s);
    let t = trim_chars(&v);
    string_of(&t)
}

/// The texts of a list of strings.
pub open spec fn strings_view(v: Seq<String>) -> Seq<Seq<char>> {
    v.map_values(|s: String| s@)
}

// ───────────────────────── splitting ─────────────────────────

/// `str::split(c)`: the pieces of `s` between occurrences of `c`
/// (always at least one piece).
pub open spec fn split_on(s: Seq<char>, c: char) -> Seq<Seq<char>>
    decreases s.len(),
{
    if s.len() == 0 {
        seq![Seq::<char>::empty()]
    } else {
        let rest = split_on(s.drop_first(), c);
        if s[0] == c {
            seq![Seq::<char>::empty()] + rest
        } else {
            rest.update(0, seq![s[0]] + rest[0])
        }
    }
}

pub proof fn lemma_split_on_nonempty(s: Seq<char>, c: char)
    ensures
        split_on(s, c).len() >= 1,
    decreases s.len(),
{
    if s.len() > 0 {
        lemma_split_on_nonempty(s.drop_first(), c);
    }
}

proof fn lemma_split_on_snoc(s: Seq<char>, c: char, x: char)
    ensures
        split_on(s.push(x), c) == (if x == c {
            split_on(s, c).push(Seq::<char>::empty())
        } else {
            let p = split_on(s, c);
            p.update(p.len() - 1, p.last().push(x))
        }),
    decreases s.len(),
{
    lemma_split_on_nonempty(s, c);
    if s.len() == 0 {
        assert(s.push(x).drop_first() =~= Seq::<char>::empty());
        assert(split_on(Seq::<char>::empty(), c) == seq![Seq::<char>::empty()]);
        assert(s =~= Seq::<char>::empty());
        assert(s.push(x).len() == 1 && s.push(x)[0] == x);
        if x == c {
            assert(split_on(s.push(x), c) =~= split_on(s, c).push(Seq::<char>::empty()));
        } else {
            assert(split_on(s.push(x), c) =~= seq![seq![x]]);
            assert(seq![x] =~= Seq::<char>::empty().push(x));
        }
    } else {
        let t = s.drop_first();
        assert(s.push(x).drop_first() =~= t.push(x));
        lemma_split_on_snoc(t, c, x);
        lemma_split_on_nonempty(t, c);
        lemma_split_on_nonempty(t.push(x), c);
        let pt = split_on(t, c);
        if s[0] == c {
            if x == c {
                assert(split_on(s.push(x), c) =~= split_on(s, c).push(Seq::<char>::empty()));
            } else {
                assert(split_on(s.push(x), c) =~= {
                    let p = split_on(s, c);
                    p.update(p.len() - 1, p.last().push(x))
                });
            }
        } else {
            if x == c {
                assert(split_on(s.push(x), c) =~= split_on(s, c).push(Seq::<char>::empty()));
            } else {
                let p = split_on(s, c);
                if pt.len() == 1 {
                    assert((seq![s[0]] + pt[0]).push(x) =~= seq![s[0]] + pt[0].push(x));
                }
                assert(split_on(s.push(x), c) =~= p.update(p.len() - 1, p.last().push(x)));
            }
        }
    }
}

/// The pieces of `s` between occurrences of `c`, as `str::split` gives them.
pub fn split_chars(s: &Vec<char>, c: char) -> (r: Vec<Vec<char>>)
    ensures
        r@.len() == split_on(s@, c).len(),
        forall|i: int| 0 <= i < r@.len() ==> (#[trigger] r@[i])@ == split_on(s@, c)[i],
{
    let mut parts: Vec<Vec<char>> = Vec::new();
    let mut cur: Vec<char> = Vec::new();
    let mut i: usize = 0;
    proof {
        assert(s@.take(0) =~= Seq::<char>::empty());
    }
    while i < s.len()
        invariant
            i <= s.len(),
            parts@.len() + 1 == split_on(s@.take(i as int), c).len(),
            forall|j: int| 0 <= j < parts@.len() ==> (#[trigger] parts@[j])@ == split_on(s@.take(i as int), c)[j],
            cur@ == split_on(s@.take(i as int), c).last(),
        decreases s.len() - i,
    {
        proof {
            lemma_split_on_snoc(s@.take(i as int), c, s@[i as int]);
            assert(s@.take(i + 1) =~= s@.take(i as int).push(s@[i as int]));
        }
        if s[i] == c {
            parts.push(cur);
            cur = Vec::new();
        } else {
            cur.push(s[i]);
        }
        i = i + 1;
    }
    parts.push(cur);
    assert(s@.take(s.len() as int) =~= s@);
    parts
}

// ───────────────────────── lines ─────────────────────────

/// Drops one trailing carriage return.
pub open spec fn strip_cr(s: Seq<char>) -> Seq<char> {
    if s.len() > 0 && s.last() == '\r' {
        s.drop_last()
    } else {
        s
    }
}

/// `str::lines`: the pieces between `\n` characters, each losing a `\r`
/// that stood just before its `\n`; a final empty piece is not a line.
pub open spec fn text_lines(s: Seq<char>) -> Seq<Seq<char>> {
    let p = split_on(s, '\n');
    let body = p.take(p.len() - 1).map_values(|x: Seq<char>| strip_cr(x));
    if p.last().len() == 0 {
        body
    } else {
        body.push(p.last())
    }
}

/// The lines of `s`, as `str::lines` gives them.
pub fn lines_of(s: &Vec<char>) -> (r: Vec<Vec<char>>)
    ensures
        r@.len() == text_lines(s@).len(),
        forall|i: int| 0 <= i < r@.len() ==> (#[trigger] r@[i])@ == text_lines(s@)[i],
{
    let parts = split_chars(s, '\n');
    proof {
        lemma_split_on_nonempty(s@, '\n');
    }
    let ghost p = split_on(s@, '\n');
    let mut out: Vec<Vec<char>> = Vec::new();
    let mut i: usize = 0;
    while i + 1 < parts.len()
        invariant
            parts@.len() == p.len(),
            p.len() >= 1,
            forall|k: int| 0 <= k < parts@.len() ==> (#[trigger] parts@[k])@ == p[k],
            i + 1 <= parts.len(),
            out@.len() == i,
            forall|k: int| 0 <= k < i ==> (#[trigger] out@[k])@ == strip_cr(p[k]),
        decreases parts.len() - i,
    {
        let piece = &parts[i];
        let mut line: Vec<char> = Vec::new();
        let n = piece.len();
        let keep = if n > 0 && piece[n - 1] == '\r' { n - 1 } else { n };
        let mut k: usize = 0;
        while k < keep
            invariant
                keep <= piece.len(),
                k <= keep,
                line@ == piece@.take(k as int),
            decreases keep - k,
        {
            line.push(piece[k]);
            k = k + 1;
            assert(line@ =~= piece@.take(k as int));
        }
        assert(line@ =~= strip_cr(piece@));
        out.push(line);
        i = i + 1;
    }
    let last_i = parts.len() - 1;
    let ghost body = p.take(p.len() - 1).map_values(|x: Seq<char>| strip_cr(x));
    if parts[last_i].len() != 0 {
        let mut last: Vec<char> = Vec::new();
        let piece = &parts[last_i];
        let mut k: usize = 0;
        while k < piece.len()
            invariant
                k <= piece.len(),
                last@ == piece@.take(k as int),
            decreases piece.len() - k,
        {
            last.push(piece[k]);
            k = k + 1;
            assert(last@ =~= piece@.take(k as int));
        }
        assert(last@ =~= piece@);
        out.push(last);
    }
    proof {
        assert forall|k: int| 0 <= k < out@.len() implies (#[trigger] out@[k])@ == text_lines(s@)[k] by {
            if k < p.len() - 1 {
                assert(body[k] == strip_cr(p[k]));
            }
        }
    }
    out
}

// ───────────────────────── numbers ─────────────────────────

/// The decimal digit for a value below ten.
pub open spec fn digit_char(d: nat) -> char {
    ((d + '0' as nat) as u32) as char
}

/// The decimal representation of `n`, as `Display` writes it.
pub open spec fn decimal(n: nat) -> Seq<char>
    decreases n,
{
    if n < 10 {
        seq![digit_char(n)]
    } else {
        decimal(n / 10).push(digit_char(n % 10))
    }
}

/// The decimal representation of `n`.
pub fn decimal_string(n: u64) -> (r: String)
    ensures
        r@ == decimal(n as nat),
    decreases n,
{
    let d = n % 10;
    let c = char_of_digit(d);
    if n < 10 {
        let mut r = String::new();
        push_char(&mut r, c);
        assert(r@ =~= seq![digit_char(n as nat)]);
        r
    } else {
        let mut r = decimal_string(n / 10);
        push_char(&mut r, c);
        r
    }
}

/// The decimal representation of a wide number.
pub fn decimal_string_wide(n: u128) -> (r: String)
    ensures
        r@ == decimal(n as nat),
    decreases n,
{
    let d = (n % 10) as u64;
    let c = char_of_digit(d);
    if n < 10 {
        let mut r = String::new();
        push_char(&mut r, c);
        assert(r@ =~= seq![digit_char(n as nat)]);
        r
    } else {
        let mut r = decimal_string_wide(n / 10);
        push_char(&mut r, c);
        r
    }
}

fn char_of_digit(d: u64) -> (c: char)
    requires
        d < 10,
    ensures
        c == digit_char(d as nat),
{
    if d == 0 { '0' } else if d == 1 { '1' } else if d == 2 { '2' } else if d == 3 { '3' } else if d
        == 4 { '4' } else if d == 5 { '5' } else if d == 6 { '6' } else if d == 7 { '7' } else if d
        == 8 { '8' } else { '9' }
}


/// The value of a string of decimal digits.
pub open spec fn digits_value(s: Seq<char>) -> nat
    decreases s.len(),
{
    if s.len() == 0 {
        0
    } else {
        digits_value(s.drop_last()) * 10 + (s.last() as nat - '0' as nat) as nat
    }
}

pub open spec fn all_digits(s: Seq<char>) -> bool {
    forall|i: int| 0 <= i < s.len() ==> is_ascii_digit(#[trigger] s[i])
}

/// The digits that `str::parse` reads for an unsigned integer: an optional
/// leading `+` followed by at least one digit.
pub open spec fn unsigned_digits(s: Seq<char>) -> Option<Seq<char>> {
    let d = if s.len() > 0 && s[0] == '+' { s.drop_first() } else { s };
    if d.len() > 0 && all_digits(d) { Some(d) } else { None }
}

/// `<uN as FromStr>::from_str` with the given maximum.
pub open spec fn parse_unsigned(s: Seq<char>, max: nat) -> Option<nat> {
    match unsigned_digits(s) {
        Some(d) => if digits_value(d) <= max { Some(digits_value(d)) } else { None },
        None => None,
    }
}

/// Parses `s` as `str::parse::<usize>` does for a value of at most `max`.
pub fn parse_unsigned_max(s: &Vec<char>, max: u64) -> (r: Option<u64>)
    requires
        9 <= max,
    ensures
        r.is_some() == parse_unsigned(s@, max as nat).is_some(),
        r.is_some() ==> r.unwrap() as nat == parse_unsigned(s@, max as nat).unwrap(),
{
    let start: usize = if s.len() > 0 && s[0] == '+' { 1 } else { 0 };
    let ghost d = if s@.len() > 0 && s@[0] == '+' { s@.drop_first() } else { s@ };
    proof {
        assert(d =~= s@.skip(start as int));
        assert(unsigned_digits(s@) == (if d.len() > 0 && all_digits(d) {
            Some(d)
        } else {
            None
        }));
    }
    if start == s.len() {
        return None;
    }
    let mut v: u64 = 0;
    let mut i: usize = start;
    let mut overflow = false;
    while i < s.len()
        invariant
            start <= i <= s.len(),
            d == s@.skip(start as int),
            start < s.len(),
            unsigned_digits(s@) == (if d.len() > 0 && all_digits(d) {
                Some(d)
            } else {
                None
            }),
            forall|j: int| 0 <= j < i - start ==> is_ascii_digit(#[trigger] d[j]),
            9 <= max,
            !overflow ==> v as nat == digits_value(d.take(i - start)) && v <= max,
            overflow ==> digits_value(d.take(i - start)) > max,
        decreases s.len() - i,
    {
        let c = s[i];
        if !char_is_ascii_digit(c) {
            assert(!is_ascii_digit(d[i - start]));
            assert(!all_digits(d));
            return None;
        }
        let ghost prev = d.take(i - start);
        assert(d.take(i - start + 1).drop_last() =~= prev);
        let dig: u64 = (c as u32 - '0' as u32) as u64;
        let ghost pv = digits_value(prev);
        assert(digits_value(d.take(i - start + 1)) == pv * 10 + dig);
        if !overflow {
            if v > (max - dig) / 10 {
                overflow = true;
                assert(v * 10 + dig > max) by (nonlinear_arith)
                    requires
                        v > (max - dig) / 10,
                        dig <= 9,
                        9 <= max,
                ;
            } else {
                assert(v * 10 + dig <= max) by (nonlinear_arith)
                    requires
                        v <= (max - dig) / 10,
                        dig <= 9,
                        9 <= max,
                ;
                v = v * 10 + dig;
            }
        } else {
            assert(pv * 10 + dig >= pv) by (nonlinear_arith)
                requires
                    dig >= 0,
            ;
        }
        i = i + 1;
    }
    assert(d.take(i - start) =~= d);
    if overflow {
        None
    } else {
        Some(v)
    }
}

// ───────────────────────── stripping a character ─────────────────────────

/// `str::trim_start_matches(c)`: drops every leading `c`.
pub open spec fn strip_start(s: Seq<char>, c: char) -> Seq<char>
    decreases s.len(),
{
    if s.len() > 0 && s[0] == c {
        strip_start(s.drop_first(), c)
    } else {
        s
    }
}

/// `str::trim_end_matches(c)`: drops every trailing `c`.
pub open spec fn strip_end(s: Seq<char>, c: char) -> Seq<char>
    decreases s.len(),
{
    if s.len() > 0 && s.last() == c {
        strip_end(s.drop_last(), c)
    } else {
        s
    }
}

/// `str::trim_matches(c)`: drops every leading and trailing `c`.
pub open spec fn strip(s: Seq<char>, c: char) -> Seq<char> {
    strip_end(strip_start(s, c), c)
}

proof fn lemma_strip_start_skip(s: Seq<char>, c: char, i: int)
    requires
        0 <= i <= s.len(),
        forall|j: int| 0 <= j < i ==> #[trigger] s[j] == c,
        i == s.len() || s[i] != c,
    ensures
        strip_start(s, c) == s.skip(i),
    decreases i,
{
    if i == 0 {
        assert(s.skip(0) =~= s);
    } else {
        let t = s.drop_first();
        assert forall|j: int| 0 <= j < i - 1 implies #[trigger] t[j] == c by {
            assert(t[j] == s[j + 1]);
        }
        lemma_strip_start_skip(t, c, i - 1);
        assert(t.skip(i - 1) =~= s.skip(i));
    }
}

proof fn lemma_strip_end_take(s: Seq<char>, c: char, k: int)
    requires
        0 <= k <= s.len(),
        forall|j: int| k <= j < s.len() ==> #[trigger] s[j] == c,
        k == 0 || s[k - 1] != c,
    ensures
        strip_end(s, c) == s.take(k),
    decreases s.len() - k,
{
    if k == s.len() {
        assert(s.take(k) =~= s);
    } else {
        let t = s.drop_last();
        assert forall|j: int| k <= j < t.len() implies #[trigger] t[j] == c by {
            assert(t[j] == s[j]);
        }
        lemma_strip_end_take(t, c, k);
        assert(t.take(k) =~= s.take(k));
    }
}

/// The characters of `s` without leading and trailing `c`.
pub fn strip_chars(s: &Vec<char>, c: char) -> (r: Vec<char>)
    ensures
        r@ == strip(s@, c),
{
    let mut i: usize = 0;
    while i < s.len() && s[i] == c
        invariant
            i <= s.len(),
            forall|j: int| 0 <= j < i ==> #[trigger] s@[j] == c,
        decreases s.len() - i,
    {
        i = i + 1;
    }
    proof {
        lemma_strip_start_skip(s@, c, i as int);
    }
    let ghost t = s@.skip(i as int);
    let mut k: usize = s.len();
    while k > i && s[k - 1] == c
        invariant
            i <= k <= s.len(),
            t == s@.skip(i as int),
            forall|j: int| k <= j < s.len() ==> #[trigger] s@[j] == c,
        decreases k,
    {
        k = k - 1;
    }
    proof {
        assert forall|j: int| k - i <= j < t.len() implies #[trigger] t[j] == c by {
            assert(t[j] == s@[i + j]);
        }
        if k > i {
            assert(t[k - i - 1] == s@[k - 1]);
        }
        lemma_strip_end_take(t, c, k - i);
    }
    let mut r: Vec<char> = Vec::new();
    let mut p: usize = i;
    while p < k
        invariant
            i <= p <= k <= s.len(),
            r@ == s@.subrange(i as int, p as int),
        decreases k - p,
    {
        r.push(s[p]);
        p = p + 1;
        assert(r@ =~= s@.subrange(i as int, p as int));
    }
    assert(t.take(k - i) =~= s@.subrange(i as int, k as int));
    r
}

// ───────────────────────── byte length ─────────────────────────

/// The number of bytes of the UTF-8 encoding of `s`, which `str::len` gives.
pub open spec fn byte_len(s: Seq<char>) -> usize {
    vstd::utf8::encode_utf8(s).len() as usize
}

/// `str::len`: the length of `s` in bytes.
pub fn str_len(s: &str) -> (r: usize)
    ensures
        r == byte_len(s@),
{
    s.len()
}

// ───────────────────────── padded numbers ─────────────────────────

proof fn lemma_digit_char(d: nat)
    requires
        d < 10,
    ensures
        is_ascii_digit(digit_char(d)),
        digit_char(d) as nat - '0' as nat == d,
{
}

/// The decimal form of a number is a run of digits that reads back as the
/// number.
pub proof fn lemma_decimal_reads_back(n: nat)
    ensures
        decimal(n).len() >= 1,
        all_digits(decimal(n)),
        digits_value(decimal(n)) == n,
    decreases n,
{
    if n < 10 {
        lemma_digit_char(n);
        assert(decimal(n).drop_last() =~= Seq::<char>::empty());
        assert(digits_value(decimal(n)) == digits_value(Seq::<char>::empty()) * 10 + (decimal(n).last() as nat - '0' as nat) as nat);
    } else {
        lemma_decimal_reads_back(n / 10);
        lemma_digit_char(n % 10);
        let d = decimal(n);
        assert(d.drop_last() =~= decimal(n / 10));
        assert(d.last() == digit_char(n % 10));
        assert((n / 10) * 10 + n % 10 == n) by (nonlinear_arith);
        assert(digits_value(d) == digits_value(decimal(n / 10)) * 10 + (d.last() as nat - '0' as nat) as nat);
        assert forall|i: int| 0 <= i < d.len() implies is_ascii_digit(#[trigger] d[i]) by {
            if i < d.len() - 1 {
                assert(d[i] == decimal(n / 10)[i]);
            }
        }
    }
}

proof fn lemma_leading_zeros(z: Seq<char>, b: Seq<char>)
    requires
        digits_value(z) == 0,
    ensures
        digits_value(z + b) == digits_value(b),
    decreases b.len(),
{
    if b.len() == 0 {
        assert(z + b =~= z);
    } else {
        lemma_leading_zeros(z, b.drop_last());
        assert((z + b).drop_last() =~= z + b.drop_last());
    }
}

proof fn lemma_zeros_value(k: nat)
    ensures
        digits_value(Seq::new(k, |i: int| '0')) == 0,
        all_digits(Seq::new(k, |i: int| '0')),
    decreases k,
{
    if k > 0 {
        lemma_zeros_value((k - 1) as nat);
        assert(Seq::new(k, |i: int| '0').drop_last() =~= Seq::new((k - 1) as nat, |i: int| '0'));
    }
}

/// A zero-padded number is a run of digits that reads back as the number.
pub proof fn lemma_zero_padded_reads_back(n: nat, width: nat)
    ensures
        zero_padded(n, width).len() >= 1,
        all_digits(zero_padded(n, width)),
        digits_value(zero_padded(n, width)) == n,
{
    lemma_decimal_reads_back(n);
    let d = decimal(n);
    if d.len() < width {
        let z = Seq::new((width - d.len()) as nat, |i: int| '0');
        lemma_zeros_value((width - d.len()) as nat);
        lemma_leading_zeros(z, d);
        let p = z + d;
        assert forall|i: int| 0 <= i < p.len() implies is_ascii_digit(#[trigger] p[i]) by {
            if i < z.len() {
                assert(p[i] == z[i]);
            } else {
                assert(p[i] == d[i - z.len()]);
            }
        }
    }
}

/// `format!("{:0>width$}", n)`: the decimal digits of `n`, with zeros in
/// front up to `width` characters.
pub open spec fn zero_padded(n: nat, width: nat) -> Seq<char> {
    let d = decimal(n);
    if d.len() >= width {
        d
    } else {
        Seq::new((width - d.len()) as nat, |i: int| '0') + d
    }
}

/// The decimal digits of `n`, padded with zeros to `width` characters.
pub fn zero_padded_string(n: u64, width: usize) -> (r: String)
    ensures
        r@ == zero_padded(n as nat, width as nat),
{
    let d = decimal_string(n);
    let dv = chars_of(d.as_str());
    if dv.len() >= width {
        return d;
    }
    let mut r = String::new();
    let mut i: usize = 0;
    let fill: usize = width - dv.len();
    while i < fill
        invariant
            i <= fill,
            r@ == Seq::new(i as nat, |j: int| '0'),
        decreases fill - i,
    {
        push_char(&mut r, '0');
        i = i + 1;
        assert(r@ =~= Seq::new(i as nat, |j: int| '0'));
    }
    push_string(&mut r, &d);
    r
}

// ───────────────────────── ASCII case ─────────────────────────

/// ASCII case-insensitive equality (`str::eq_ignore_ascii_case`).
pub open spec fn ascii_fold(c: char) -> char {
    if 'A' <= c && c <= 'Z' {
        ((c as u32) + 32) as char
    } else {
        c
    }
}

pub open spec fn eq_ignore_ascii_case(a: Seq<char>, b: Seq<char>) -> bool {
    a.len() == b.len() && forall|i: int| 0 <= i < a.len() ==> ascii_fold(#[trigger] a[i]) == ascii_fold(b[i])
}

pub fn fold_exec(c: char) -> (r: char)
    ensures
        r == ascii_fold(c),
{
    if 'A' <= c && c <= 'Z' {
        let b: u8 = ((c as u32) + 32) as u8;
        assert(b as char == ((c as u32) + 32) as char);
        b as char
    } else {
        c
    }
}

/// ASCII case-insensitive comparison with a literal.
pub fn eq_ignore_case_lit(a: &Vec<char>, b: &str) -> (r: bool)
    ensures
        r == eq_ignore_ascii_case(a@, b@),
{
    let bv = chars_of(b);
    if a.len() != bv.len() {
        return false;
    }
    let mut i: usize = 0;
    while i < a.len()
        invariant
            bv@ == b@,
            a@.len() == bv@.len(),
            i <= a@.len(),
            forall|j: int| 0 <= j < i ==> ascii_fold(#[trigger] a@[j]) == ascii_fold(bv@[j]),
        decreases a.len() - i,
    {
        if fold_exec(a[i]) != fold_exec(bv[i]) {
            assert(ascii_fold(a@[i as int]) != ascii_fold(b@[i as int]));
            return false;
        }
        i = i + 1;
    }
    true
}

/// ASCII case-insensitive comparison of two strings.
pub fn eq_ignore_ascii_case_str(a: &str, b: &str) -> (r: bool)
    ensures
        r == eq_ignore_ascii_case(a@, b@),
{
    let av = chars_of(a);
    eq_ignore_case_lit(&av, b)
}

} // verus!
