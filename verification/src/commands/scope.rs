//! Engagement scope: items, their types, and bulk import and export.

use super::clients::{check, checked};
use crate::text::{
    byte_len, chars_of, contains, has_char, has_prefix, lit, lines_of, one_of, parse_unsigned,
    parse_unsigned_max, push_string, split_chars, split_on, starts_with, str_len, string_of,
    text_lines, trim, trim_chars, trim_str,
};
use vstd::prelude::*;

verus! {

/// A scope item as stored.
pub struct ScopeItem {
    pub id: u32,
    pub engagement_id: u32,
    pub item_type: String,
    pub value: String,
    pub is_in_scope: bool,
    pub environment: Option<String>,
    pub notes: Option<String>,
    pub sort_order: i32,
    pub created_at: i64,
    pub updated_at: i64,
}

/// A scope item as entered.
pub struct ScopeItemInput {
    pub engagement_id: u32,
    pub item_type: String,
    pub value: String,
    pub is_in_scope: Option<bool>,
    pub environment: Option<String>,
    pub notes: Option<String>,
}

/// The scope item types.
pub open spec fn scope_types() -> Seq<Seq<char>> {
    seq![
        "url"@, "ip"@, "ip_range"@, "cidr"@, "domain"@, "subdomain"@, "application"@,
        "api_endpoint"@, "host"@, "other"@,
    ]
}

pub open spec fn type_error(t: Seq<char>) -> Seq<char> {
    "Invalid type: "@ + t
        + ". Must be one of: [\"url\", \"ip\", \"ip_range\", \"cidr\", \"domain\", \"subdomain\", \"application\", \"api_endpoint\", \"host\", \"other\"]"@
}

pub open spec fn type_rule(t: Seq<char>) -> Result<(), Seq<char>> {
    check(scope_types().contains(t), type_error(t))
}

/// Checks a scope item type.
pub fn validate_type(t: &str) -> (r: Result<(), String>)
    ensures
        checked(r, type_rule(t@)),
{
    let v = chars_of(t);
    let opts = ["url", "ip", "ip_range", "cidr", "domain", "subdomain", "application", "api_endpoint", "host", "other"];
    let ok = one_of(&v, &opts);
    proof {
        assert(opts@.map_values(|s: &str| s@) =~= scope_types());
        if ok {
            let i = choose|i: int| 0 <= i < opts@.len() && v@ == (#[trigger] opts@[i])@;
            assert(scope_types()[i] == t@);
        } else {
            assert forall|i: int| 0 <= i < scope_types().len() implies scope_types()[i] != t@ by {
                assert(opts@[i]@ == scope_types()[i]);
            }
        }
    }
    if ok {
        Ok(())
    } else {
        let mut m = lit("Invalid type: ");
        m.append(t);
        m.append(". Must be one of: [\"url\", \"ip\", \"ip_range\", \"cidr\", \"domain\", \"subdomain\", \"application\", \"api_endpoint\", \"host\", \"other\"]");
        Err(m)
    }
}

/// The rules for a scope item: a value (not blank, at most 2,000 bytes)
/// and a known type.
pub open spec fn item_rule(value: Seq<char>, item_type: Seq<char>) -> Result<(), Seq<char>> {
    if trim(value).len() == 0 {
        Err("Value is required."@)
    } else if byte_len(value) > 2000 {
        Err("Value must be 2,000 characters or fewer."@)
    } else {
        type_rule(item_type)
    }
}

/// Checks a scope item as entered.
pub fn validate_item(input: &ScopeItemInput) -> (r: Result<(), String>)
    ensures
        checked(r, item_rule(input.value@, input.item_type@)),
{
    let t = trim_str(input.value.as_str());
    if t.as_str().is_empty() {
        return Err(lit("Value is required."));
    }
    if str_len(input.value.as_str()) > 2000 {
        return Err(lit("Value must be 2,000 characters or fewer."));
    }
    validate_type(input.item_type.as_str())
}

/// Four `.`-separated pieces, each a `u8` as `str::parse` reads it.
pub open spec fn ipv4_shape(s: Seq<char>) -> bool {
    let parts = split_on(s, '.');
    parts.len() == 4 && forall|i: int| 0 <= i < 4 ==> parse_unsigned(#[trigger] parts[i], 255).is_some()
}

/// Whether a value looks like an IPv4 address.
pub fn regex_simple_ip(s: &str) -> (r: bool)
    ensures
        r == ipv4_shape(s@),
{
    let v = chars_of(s);
    let parts = split_chars(&v, '.');
    if parts.len() != 4 {
        return false;
    }
    let mut i: usize = 0;
    while i < 4
        invariant
            i <= 4,
            parts@.len() == 4,
            v@ == s@,
            forall|k: int| 0 <= k < 4 ==> (#[trigger] parts@[k])@ == split_on(s@, '.')[k],
            forall|k: int| 0 <= k < i ==> parse_unsigned(#[trigger] split_on(s@, '.')[k], 255).is_some(),
        decreases 4 - i,
    {
        if parse_unsigned_max(&parts[i], 255).is_none() {
            return false;
        }
        i = i + 1;
    }
    true
}

/// The type guessed for a bulk-imported value.
pub open spec fn detect_type_spec(v: Seq<char>) -> Seq<char> {
    if starts_with(v, "http://"@) || starts_with(v, "https://"@) {
        "url"@
    } else if ipv4_shape(v) {
        "ip"@
    } else if v.contains('/') {
        "cidr"@
    } else if v.contains('-') && split_on(v, '-').len() == 2 {
        "ip_range"@
    } else {
        "domain"@
    }
}

/// Guesses the type of a bulk-imported value: a URL by its scheme, an
/// address by its four numbers, a CIDR by a `/`, a range by a single `-`,
/// else a domain.
pub fn detect_type(value: &str) -> (r: &'static str)
    ensures
        r@ == detect_type_spec(value@),
{
    let v = chars_of(value);
    let http = chars_of("http://");
    let https = chars_of("https://");
    if has_prefix(&v, &http) || has_prefix(&v, &https) {
        "url"
    } else if regex_simple_ip(value) {
        "ip"
    } else if has_char(&v, '/') {
        "cidr"
    } else if has_char(&v, '-') && split_chars(&v, '-').len() == 2 {
        "ip_range"
    } else {
        "domain"
    }
}

/// The items of a bulk import: every line, trimmed, that is not blank, with
/// its guessed type, in order.
pub open spec fn bulk_items_spec(lines: Seq<Seq<char>>) -> Seq<(Seq<char>, Seq<char>)>
    decreases lines.len(),
{
    if lines.len() == 0 {
        Seq::empty()
    } else {
        let rest = bulk_items_spec(lines.drop_last());
        let t = trim(lines.last());
        if t.len() == 0 {
            rest
        } else {
            rest.push((detect_type_spec(t), t))
        }
    }
}

/// Splits pasted text into scope items (type, value) for a bulk import.
pub fn bulk_import_items(text: &str) -> (r: Vec<(String, String)>)
    ensures
        r@.map_values(|p: (String, String)| (p.0@, p.1@)) == bulk_items_spec(text_lines(text@)),
{
    let v = chars_of(text);
    let ls = lines_of(&v);
    let ghost tl = text_lines(text@);
    let mut out: Vec<(String, String)> = Vec::new();
    let mut i: usize = 0;
    assert(tl.take(0) =~= Seq::<Seq<char>>::empty());
    while i < ls.len()
        invariant
            i <= ls@.len(),
            ls@.len() == tl.len(),
            tl == text_lines(text@),
            forall|k: int| 0 <= k < ls@.len() ==> (#[trigger] ls@[k])@ == tl[k],
            out@.map_values(|p: (String, String)| (p.0@, p.1@)) == bulk_items_spec(tl.take(i as int)),
        decreases ls.len() - i,
    {
        assert(tl.take(i + 1).drop_last() =~= tl.take(i as int));
        assert(tl.take(i + 1).last() == ls@[i as int]@);
        let t = trim_chars(&ls[i]);
        if t.len() > 0 {
            let ts = string_of(&t);
            let ty = detect_type(ts.as_str());
            let ghost before = out@;
            out.push((lit(ty), ts));
            assert(out@.map_values(|p: (String, String)| (p.0@, p.1@)) =~= before.map_values(
                |p: (String, String)| (p.0@, p.1@),
            ).push((detect_type_spec(t@), t@)));
        }
        i = i + 1;
    }
    assert(tl.take(i as int) =~= tl);
    out
}

/// The lines of a scope export for items that are in or out of scope.
pub open spec fn scope_lines(items: Seq<ScopeItem>, in_scope: bool) -> Seq<char>
    decreases items.len(),
{
    if items.len() == 0 {
        Seq::empty()
    } else {
        let rest = scope_lines(items.drop_last(), in_scope);
        let it = items.last();
        if it.is_in_scope == in_scope {
            rest + "\n- ["@ + it.item_type@ + "] "@ + it.value@
        } else {
            rest
        }
    }
}

/// The text export of a scope: `IN SCOPE` with its items, a blank line,
/// then `OUT OF SCOPE` with its items, each as `- [type] value`.
pub open spec fn scope_export_spec(items: Seq<ScopeItem>) -> Seq<char> {
    "IN SCOPE"@ + scope_lines(items, true) + "\n\nOUT OF SCOPE"@ + scope_lines(items, false)
}

fn write_scope_lines(s: &mut String, items: &Vec<ScopeItem>, in_scope: bool)
    ensures
        final(s)@ == old(s)@ + scope_lines(items@, in_scope),
{
    let mut i: usize = 0;
    assert(items@.take(0) =~= Seq::<ScopeItem>::empty());
    while i < items.len()
        invariant
            i <= items@.len(),
            s@ == old(s)@ + scope_lines(items@.take(i as int), in_scope),
        decreases items.len() - i,
    {
        assert(items@.take(i + 1).drop_last() =~= items@.take(i as int));
        if items[i].is_in_scope == in_scope {
            s.append("\n- [");
            push_string(s, &items[i].item_type);
            s.append("] ");
            push_string(s, &items[i].value);
        }
        i = i + 1;
    }
    assert(items@.take(i as int) =~= items@);
}

/// Writes the text export of an engagement's scope.
pub fn scope_export_text(items: &Vec<ScopeItem>) -> (r: String)
    ensures
        r@ == scope_export_spec(items@),
{
    let mut s = lit("IN SCOPE");
    write_scope_lines(&mut s, items, true);
    s.append("\n\nOUT OF SCOPE");
    write_scope_lines(&mut s, items, false);
    s
}


/// The line a scope item is exported as.
pub open spec fn scope_item_line(it: ScopeItem) -> Seq<char> {
    "\n- ["@ + it.item_type@ + "] "@ + it.value@
}

proof fn lemma_contains_prefix(a: Seq<char>, b: Seq<char>, n: Seq<char>)
    requires
        crate::text::contains(a, n),
    ensures
        crate::text::contains(a + b, n),
{
    let i = choose|i: int| crate::text::occurs_at(a, n, i);
    assert((a + b).subrange(i, i + n.len()) =~= a.subrange(i, i + n.len()));
    assert(crate::text::occurs_at(a + b, n, i));
}

proof fn lemma_scope_lines_hold(items: Seq<ScopeItem>, in_scope: bool, k: int)
    requires
        0 <= k < items.len(),
        items[k].is_in_scope == in_scope,
    ensures
        crate::text::contains(scope_lines(items, in_scope), scope_item_line(items[k])),
    decreases items.len(),
{
    let rest = scope_lines(items.drop_last(), in_scope);
    if k == items.len() - 1 {
        let l = scope_item_line(items[k]);
        assert(scope_lines(items, in_scope) =~= rest + l);
        assert((rest + l).subrange(rest.len() as int, (rest.len() + l.len()) as int) =~= l);
        assert(crate::text::occurs_at(rest + l, l, rest.len() as int));
    } else {
        lemma_scope_lines_hold(items.drop_last(), in_scope, k);
        assert(items.drop_last()[k] == items[k]);
        if items.last().is_in_scope == in_scope {
            assert(scope_lines(items, in_scope) =~= rest + scope_item_line(items.last()));
            lemma_contains_prefix(rest, scope_item_line(items.last()), scope_item_line(items[k]));
        }
    }
}

/// The scope export puts every in-scope item under `IN SCOPE` and every
/// out-of-scope item under `OUT OF SCOPE`: the text is `IN SCOPE`, a first
/// part, a blank line and `OUT OF SCOPE`, then a second part, where each
/// item with `is_in_scope` has its `- [type] value` line in the first part
/// and each other item has it in the second part.
pub proof fn law_scope_export_sides(items: Seq<ScopeItem>)
    ensures
        exists|a: Seq<char>, b: Seq<char>|
            {
                &&& #[trigger] scope_export_spec(items) == "IN SCOPE"@ + a + "\n\nOUT OF SCOPE"@ + b
                &&& forall|k: int| 0 <= k < items.len() && items[k].is_in_scope ==> crate::text::contains(
                    a,
                    #[trigger] scope_item_line(items[k]),
                )
                &&& forall|k: int| 0 <= k < items.len() && !items[k].is_in_scope ==> crate::text::contains(
                    b,
                    #[trigger] scope_item_line(items[k]),
                )
            },
{
    let a = scope_lines(items, true);
    let b = scope_lines(items, false);
    assert forall|k: int| 0 <= k < items.len() && items[k].is_in_scope implies crate::text::contains(
        a,
        #[trigger] scope_item_line(items[k]),
    ) by {
        lemma_scope_lines_hold(items, true, k);
    }
    assert forall|k: int| 0 <= k < items.len() && !items[k].is_in_scope implies crate::text::contains(
        b,
        #[trigger] scope_item_line(items[k]),
    ) by {
        lemma_scope_lines_hold(items, false, k);
    }
    assert(scope_export_spec(items) == "IN SCOPE"@ + a + "\n\nOUT OF SCOPE"@ + b);
}

} // verus!
