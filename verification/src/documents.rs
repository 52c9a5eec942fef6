//! Custom documents: rules of engagement, NDAs, proposals and custom ones.
//!
//! A document is a Markdown file with frontmatter (id, type, status,
//! created, updated) kept in a `documents/` directory.

use crate::text::{char_is_alphanumeric, chars_of, eq_ignore_ascii_case, eq_ignore_ascii_case_str, eq_lit, has_prefix, lit, lowercase, parse_unsigned, parse_unsigned_max, split_chars, split_on, starts_with, strip, strip_chars, string_of, to_lowercase, zero_padded, zero_padded_string};
use crate::workspace::slug_char;
use vstd::prelude::*;

verus! {

/// Kinds of document.
#[derive(PartialEq, Eq, Structural, Clone, Copy, Debug)]
pub enum DocumentType {
    Roe,
    Nda,
    Proposal,
    Custom,
}

/// The name of a document type.
pub open spec fn document_type_name(t: DocumentType) -> Seq<char> {
    match t {
        DocumentType::Roe => "roe"@,
        DocumentType::Nda => "nda"@,
        DocumentType::Proposal => "proposal"@,
        DocumentType::Custom => "custom"@,
    }
}

impl DocumentType {
    /// The name of the type, as written in frontmatter.
    pub fn as_str(&self) -> (r: &'static str)
        ensures
            r@ == document_type_name(*self),
    {
        match self {
            DocumentType::Roe => "roe",
            DocumentType::Nda => "nda",
            DocumentType::Proposal => "proposal",
            DocumentType::Custom => "custom",
        }
    }

    /// The type with the given name, if any.
    pub fn parse(s: &str) -> (r: Option<DocumentType>)
        ensures
            match r {
                Some(t) => document_type_name(t) == s@,
                None => forall|t: DocumentType| document_type_name(t) != s@,
            },
    {
        let v = chars_of(s);
        proof {
            reveal_strlit("roe");
            reveal_strlit("nda");
            reveal_strlit("proposal");
            reveal_strlit("custom");
            assert("roe"@.len() == 3 && "nda"@.len() == 3 && "proposal"@.len() == 8 && "custom"@.len() == 6);
        }
        if eq_lit(&v, "roe") {
            Some(DocumentType::Roe)
        } else if eq_lit(&v, "nda") {
            Some(DocumentType::Nda)
        } else if eq_lit(&v, "proposal") {
            Some(DocumentType::Proposal)
        } else if eq_lit(&v, "custom") {
            Some(DocumentType::Custom)
        } else {
            assert forall|t: DocumentType| document_type_name(t) != s@ by {
                match t {
                    DocumentType::Roe => {},
                    DocumentType::Nda => {},
                    DocumentType::Proposal => {},
                    DocumentType::Custom => {},
                }
            }
            None
        }
    }
}

/// Status of a document.
#[derive(PartialEq, Eq, Structural, Clone, Copy, Debug)]
pub enum DocumentStatus {
    Draft,
    Finalized,
}

pub open spec fn document_status_name(s: DocumentStatus) -> Seq<char> {
    match s {
        DocumentStatus::Draft => "draft"@,
        DocumentStatus::Finalized => "finalized"@,
    }
}

impl DocumentStatus {
    /// The name of the status, as written in frontmatter.
    pub fn as_str(&self) -> (r: &'static str)
        ensures
            r@ == document_status_name(*self),
    {
        match self {
            DocumentStatus::Draft => "draft",
            DocumentStatus::Finalized => "finalized",
        }
    }
}

/// Document frontmatter; `doc_type` is the `type` key.
pub struct DocumentFrontmatter {
    pub id: String,
    pub doc_type: String,
    pub status: String,
    pub created: String,
    pub updated: String,
}

/// A parsed document and the path of its file.
pub struct Document {
    pub frontmatter: DocumentFrontmatter,
    pub body: String,
    pub path: String,
}

// ───────────────────────── slugs and names ─────────────────────────

/// Runs of `_` collapsed into one.
pub open spec fn squeeze_underscores(s: Seq<char>) -> Seq<char>
    decreases s.len(),
{
    if s.len() == 0 {
        s
    } else {
        let p = squeeze_underscores(s.drop_last());
        if s.last() == '_' && p.len() > 0 && p.last() == '_' {
            p
        } else {
            p.push(s.last())
        }
    }
}

/// The slug of a document title: lower-cased, every character that is not
/// alphanumeric turned into `_`, runs of `_` collapsed and `_` trimmed from
/// both ends.
pub open spec fn slugify_spec(title: Seq<char>) -> Seq<char> {
    strip(squeeze_underscores(lowercase(title).map_values(|c: char| slug_char(c))), '_')
}

/// Derives a file-name slug from a document title.
pub fn slugify(title: &str) -> (r: String)
    ensures
        r@ == slugify_spec(title@),
{
    let lower = to_lowercase(title);
    let lv = chars_of(lower.as_str());
    let ghost mapped = lv@.map_values(|c: char| slug_char(c));
    let mut out: Vec<char> = Vec::new();
    let mut i: usize = 0;
    while i < lv.len()
        invariant
            i <= lv@.len(),
            mapped == lv@.map_values(|c: char| slug_char(c)),
            out@ == squeeze_underscores(mapped.take(i as int)),
        decreases lv.len() - i,
    {
        let c = lv[i];
        let m = if char_is_alphanumeric(c) {
            c
        } else {
            '_'
        };
        assert(mapped.take(i + 1).drop_last() =~= mapped.take(i as int));
        assert(mapped.take(i + 1).last() == m);
        if !(m == '_' && out.len() > 0 && out[out.len() - 1] == '_') {
            out.push(m);
        }
        i = i + 1;
    }
    assert(mapped.take(lv@.len() as int) =~= mapped);
    let t = strip_chars(&out, '_');
    string_of(&t)
}

/// The identifier of the document with sequence number `seq`.
pub open spec fn document_id_spec(seq: nat) -> Seq<char> {
    "DOC-"@ + zero_padded(seq, 3)
}

/// `DOC-` and the sequence number padded to three digits.
pub fn document_id(seq: u64) -> (r: String)
    ensures
        r@ == document_id_spec(seq as nat),
{
    let mut r = lit("DOC-");
    let n = zero_padded_string(seq, 3);
    r.append(n.as_str());
    r
}

/// The file name of a document: `doc_`, the padded sequence number, `_`,
/// the slug and `.md`.
pub fn document_filename(seq: u64, slug: &str) -> (r: String)
    ensures
        r@ == "doc_"@ + zero_padded(seq as nat, 3) + "_"@ + slug@ + ".md"@,
{
    let mut r = lit("doc_");
    let n = zero_padded_string(seq, 3);
    r.append(n.as_str());
    r.append("_");
    r.append(slug);
    r.append(".md");
    r
}

/// The sequence number a file name carries: for `doc_<n>_...`, `n` read as
/// a `usize`.
pub open spec fn doc_seq(name: Seq<char>) -> Option<nat> {
    if starts_with(name, "doc_"@) {
        parse_unsigned(split_on(name.skip(4), '_')[0], usize::MAX as nat)
    } else {
        None
    }
}

/// The largest sequence number among the names (0 when none carries one).
pub open spec fn max_doc_seq(names: Seq<Seq<char>>) -> nat
    decreases names.len(),
{
    if names.len() == 0 {
        0
    } else {
        let p = max_doc_seq(names.drop_last());
        match doc_seq(names.last()) {
            Some(n) => if n > p { n } else { p },
            None => p,
        }
    }
}

proof fn lemma_first_piece(a: Seq<char>, b: Seq<char>, c: char)
    requires
        !a.contains(c),
    ensures
        split_on(a.push(c) + b, c)[0] == a,
    decreases a.len(),
{
    let s = a.push(c) + b;
    if a.len() == 0 {
        assert(s[0] == c);
        assert(a =~= Seq::<char>::empty());
    } else {
        assert(s[0] == a[0]);
        assert(a[0] != c);
        let t = a.drop_first();
        assert(!t.contains(c)) by {
            if t.contains(c) {
                let i = choose|i: int| 0 <= i < t.len() && t[i] == c;
                assert(a[i + 1] == c);
            }
        }
        lemma_first_piece(t, b, c);
        assert(s.drop_first() =~= t.push(c) + b);
        crate::text::lemma_split_on_nonempty(s.drop_first(), c);
        assert(a =~= seq![a[0]] + t);
    }
}

/// The file name given to a new document carries a sequence number that no
/// file in the directory carries, so it is the name of none of them.
pub proof fn law_new_document_name_fresh(names: Seq<Seq<char>>, slug: Seq<char>)
    requires
        max_doc_seq(names) < usize::MAX,
    ensures
        forall|i: int| 0 <= i < names.len() ==> #[trigger] names[i] != "doc_"@ + zero_padded(max_doc_seq(names) + 1, 3) + "_"@ + slug + ".md"@,
{
    let n = max_doc_seq(names) + 1;
    let z = zero_padded(n, 3);
    let name = "doc_"@ + z + "_"@ + slug + ".md"@;
    reveal_strlit("doc_");
    reveal_strlit("_");
    crate::text::lemma_zero_padded_reads_back(n, 3);
    assert(name.take(4) =~= "doc_"@);
    assert(name.skip(4) =~= z.push('_') + (slug + ".md"@));
    assert(!z.contains('_')) by {
        if z.contains('_') {
            let i = choose|i: int| 0 <= i < z.len() && z[i] == '_';
            assert(crate::text::is_ascii_digit(z[i]));
        }
    }
    lemma_first_piece(z, slug + ".md"@, '_');
    assert(z[0] != '+');
    assert(crate::text::unsigned_digits(z) == Some(z));
    assert(doc_seq(name) == Some(n));
    assert forall|i: int| 0 <= i < names.len() implies #[trigger] names[i] != name by {
        lemma_max_doc_seq_at(names, i);
    }
}

proof fn lemma_max_doc_seq_at(names: Seq<Seq<char>>, i: int)
    requires
        0 <= i < names.len(),
    ensures
        doc_seq(names[i]) matches Some(m) ==> m <= max_doc_seq(names),
    decreases names.len(),
{
    if i < names.len() - 1 {
        lemma_max_doc_seq_at(names.drop_last(), i);
        assert(names.drop_last()[i] == names[i]);
    }
}

fn seq_of_name(name: &String) -> (r: Option<usize>)
    ensures
        match r {
            Some(n) => doc_seq(name@) == Some(n as nat),
            None => doc_seq(name@).is_none(),
        },
{
    let v = chars_of(name.as_str());
    let p = chars_of("doc_");
    proof {
        reveal_strlit("doc_");
    }
    if !has_prefix(&v, &p) {
        return None;
    }
    let mut rest: Vec<char> = Vec::new();
    let mut i: usize = 4;
    while i < v.len()
        invariant
            4 <= i <= v@.len(),
            rest@ == v@.subrange(4, i as int),
        decreases v.len() - i,
    {
        rest.push(v[i]);
        i = i + 1;
        assert(rest@ =~= v@.subrange(4, i as int));
    }
    assert(rest@ =~= name@.skip(4));
    let parts = split_chars(&rest, '_');
    proof {
        crate::text::lemma_split_on_nonempty(rest@, '_');
    }
    match parse_unsigned_max(&parts[0], usize::MAX as u64) {
        Some(n) => Some(n as usize),
        None => None,
    }
}

/// The next document sequence number for a directory holding files with
/// the given names: one more than the largest `doc_<n>_` number found.
pub fn next_document_seq(names: &Vec<String>) -> (r: usize)
    requires
        max_doc_seq(names@.map_values(|s: String| s@)) < usize::MAX,
    ensures
        r == max_doc_seq(names@.map_values(|s: String| s@)) + 1,
{
    let ghost all = names@.map_values(|s: String| s@);
    let mut max_seq: usize = 0;
    let mut i: usize = 0;
    proof {
        assert(all.take(0) =~= Seq::<Seq<char>>::empty());
    }
    while i < names.len()
        invariant
            i <= names@.len(),
            all == names@.map_values(|s: String| s@),
            max_seq == max_doc_seq(all.take(i as int)),
        decreases names.len() - i,
    {
        assert(all.take(i + 1).drop_last() =~= all.take(i as int));
        assert(all.take(i + 1).last() == names@[i as int]@);
        match seq_of_name(&names[i]) {
            Some(n) => {
                if n > max_seq {
                    max_seq = n;
                }
            },
            None => {},
        }
        i = i + 1;
    }
    assert(all.take(names@.len() as int) =~= all);
    proof {
        lemma_max_doc_seq_bound(all);
    }
    max_seq + 1
}

proof fn lemma_max_doc_seq_bound(names: Seq<Seq<char>>)
    ensures
        max_doc_seq(names) <= usize::MAX,
    decreases names.len(),
{
    if names.len() > 0 {
        lemma_max_doc_seq_bound(names.drop_last());
    }
}

/// The text of a new document file: the frontmatter block, the title as a
/// heading and the body.
pub fn document_content(frontmatter_yaml: &str, title: &str, body: &str) -> (r: String)
    ensures
        r@ == "---\n"@ + frontmatter_yaml@ + "---\n\n# "@ + title@ + "\n\n"@ + body@,
{
    let mut r = lit("---\n");
    r.append(frontmatter_yaml);
    r.append("---\n\n# ");
    r.append(title);
    r.append("\n\n");
    r.append(body);
    r
}

/// Whether a document in status `current` has to be rewritten to reach
/// `target` (finalizing a finalized document, or unlocking a draft, is a
/// no-op).
pub fn needs_status_change(current: &str, target: DocumentStatus) -> (r: bool)
    ensures
        r == (current@ != document_status_name(target)),
{
    let v = chars_of(current);
    !eq_lit(&v, target.as_str())
}

/// The index of the document whose ID matches `doc_id` ignoring ASCII case;
/// of several, the last one.
pub fn find_document_index(docs: &Vec<Document>, doc_id: &str) -> (r: Option<usize>)
    ensures
        match r {
            Some(i) => i < docs@.len() && eq_ignore_ascii_case(docs@[i as int].frontmatter.id@, doc_id@)
                && forall|j: int| i < j < docs@.len() ==> !eq_ignore_ascii_case(
                    (#[trigger] docs@[j]).frontmatter.id@,
                    doc_id@,
                ),
            None => forall|j: int| 0 <= j < docs@.len() ==> !eq_ignore_ascii_case(
                (#[trigger] docs@[j]).frontmatter.id@,
                doc_id@,
            ),
        },
{
    let mut found: Option<usize> = None;
    let mut i: usize = 0;
    while i < docs.len()
        invariant
            i <= docs@.len(),
            match found {
                Some(k) => k < i && eq_ignore_ascii_case(docs@[k as int].frontmatter.id@, doc_id@)
                    && forall|j: int| k < j < i ==> !eq_ignore_ascii_case(
                        (#[trigger] docs@[j]).frontmatter.id@,
                        doc_id@,
                    ),
                None => forall|j: int| 0 <= j < i ==> !eq_ignore_ascii_case(
                    (#[trigger] docs@[j]).frontmatter.id@,
                    doc_id@,
                ),
            },
        decreases docs.len() - i,
    {
        if eq_ignore_ascii_case_str(docs[i].frontmatter.id.as_str(), doc_id) {
            found = Some(i);
        }
        i = i + 1;
    }
    found
}

} // verus!
