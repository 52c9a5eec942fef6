//! Markdown to Typst conversion and Typst source assembly.

use crate::markdown::{md_events, md_next, md_parser, md_pending, MdAlign, MdEvent, MdEventModel, MdTag, MdTagEnd, MdTagModel};
use crate::text::{char_is_control, chars_of, decimal, decimal_string, is_control, lit, push_char, push_string, trim, trim_chars, eq_ignore_ascii_case, eq_ignore_case_lit};
use vstd::prelude::*;

verus! {

/// Maximum nesting depth of block quotes and lists.
pub const MAX_NESTING_DEPTH: usize = 50;

// ───────────────────────── escaping ─────────────────────────

/// The characters that markup needs escaped.
pub open spec fn is_markup_special(c: char) -> bool {
    c == '\\' || c == '#' || c == '*' || c == '_' || c == '`' || c == '~' || c == '$' || c == '<'
        || c == '>' || c == '@' || c == '[' || c == ']' || c == '{' || c == '}' || c == '/'
}

/// How one character is written in Typst markup.
pub open spec fn markup_char(c: char) -> Seq<char> {
    if is_markup_special(c) {
        seq!['\\', c]
    } else {
        seq![c]
    }
}

/// Text escaped for Typst markup: each special character gets a backslash.
pub open spec fn escape_markup_spec(s: Seq<char>) -> Seq<char>
    decreases s.len(),
{
    if s.len() == 0 {
        Seq::empty()
    } else {
        escape_markup_spec(s.drop_last()) + markup_char(s.last())
    }
}

/// Markup read back: a special character at the end comes with the
/// backslash before it; any other character stands for itself.
pub open spec fn unescape_markup_spec(x: Seq<char>) -> Seq<char>
    decreases x.len(),
{
    if x.len() == 0 {
        Seq::empty()
    } else if is_markup_special(x.last()) && x.len() >= 2 {
        unescape_markup_spec(x.drop_last().drop_last()).push(x.last())
    } else {
        unescape_markup_spec(x.drop_last()).push(x.last())
    }
}

/// Escaping for markup loses nothing: reading the escaped text back gives
/// the original text.
pub proof fn law_escape_markup_reversible(s: Seq<char>)
    ensures
        unescape_markup_spec(escape_markup_spec(s)) == s,
    decreases s.len(),
{
    if s.len() > 0 {
        let p = escape_markup_spec(s.drop_last());
        law_escape_markup_reversible(s.drop_last());
        let x = escape_markup_spec(s);
        let c = s.last();
        if is_markup_special(c) {
            assert(x =~= p.push('\\').push(c));
            assert(x.drop_last().drop_last() =~= p);
        } else {
            assert(x =~= p.push(c));
            assert(x.drop_last() =~= p);
        }
        assert(s =~= s.drop_last().push(c));
    }
}

/// A lower-case hexadecimal digit.
pub open spec fn hex_digit(d: u32) -> char {
    if d < 10 {
        (d + 48) as char
    } else {
        (d + 87) as char
    }
}

/// How one character is written inside a Typst string literal.
pub open spec fn string_char(c: char) -> Seq<char> {
    if c == '\\' {
        seq!['\\', '\\']
    } else if c == '"' {
        seq!['\\', '"']
    } else if c == '\n' {
        seq!['\\', 'n']
    } else if c == '\r' {
        seq!['\\', 'r']
    } else if c == '\t' {
        seq!['\\', 't']
    } else if is_control(c) {
        seq![
            '\\',
            'u',
            '{',
            '0',
            '0',
            hex_digit((c as u32) / 16),
            hex_digit((c as u32) % 16),
            '}',
        ]
    } else {
        seq![c]
    }
}

/// A string escaped for a Typst string literal.
pub open spec fn escape_string_spec(s: Seq<char>) -> Seq<char>
    decreases s.len(),
{
    if s.len() == 0 {
        Seq::empty()
    } else {
        escape_string_spec(s.drop_last()) + string_char(s.last())
    }
}

fn push_seq2(out: &mut String, a: char, b: char)
    ensures
        final(out)@ == old(out)@ + seq![a, b],
{
    push_char(out, a);
    push_char(out, b);
    assert(out@ =~= old(out)@ + seq![a, b]);
}

fn hex_digit_exec(d: u32) -> (c: char)
    requires
        d < 16,
    ensures
        c == hex_digit(d),
{
    if d == 0 { '0' } else if d == 1 { '1' } else if d == 2 { '2' } else if d == 3 { '3' } else if d
        == 4 { '4' } else if d == 5 { '5' } else if d == 6 { '6' } else if d == 7 { '7' } else if d
        == 8 { '8' } else if d == 9 { '9' } else if d == 10 { 'a' } else if d == 11 { 'b' } else if d
        == 12 { 'c' } else if d == 13 { 'd' } else if d == 14 { 'e' } else { 'f' }
}

/// The value of a hexadecimal digit of either case, or -1 for any other
/// character.
pub open spec fn hex_digit_value(c: char) -> int {
    if '0' <= c && c <= '9' {
        c as int - 48
    } else if 'a' <= c && c <= 'f' {
        c as int - 87
    } else if 'A' <= c && c <= 'F' {
        c as int - 55
    } else {
        -1
    }
}

/// Whether `x` starts with a `\u{XXXX}` escape of four hexadecimal digits.
pub open spec fn starts_with_unicode_escape(x: Seq<char>) -> bool {
    &&& x.len() >= 8
    &&& x[0] == '\\' && x[1] == 'u' && x[2] == '{' && x[7] == '}'
    &&& hex_digit_value(x[3]) >= 0 && hex_digit_value(x[4]) >= 0
    &&& hex_digit_value(x[5]) >= 0 && hex_digit_value(x[6]) >= 0
}

/// The code point written by a `\u{XXXX}` escape at the start of `x`.
pub open spec fn unicode_escape_value(x: Seq<char>) -> int {
    4096 * hex_digit_value(x[3]) + 256 * hex_digit_value(x[4]) + 16 * hex_digit_value(x[5])
        + hex_digit_value(x[6])
}

/// The text that the body of a Typst string literal stands for, reading
/// from the front: `\\`, `\"`, `\n`, `\r`, `\t` and `\u{XXXX}` (four hex
/// digits) are escapes; any other character stands for itself.
pub open spec fn read_typst_string(x: Seq<char>) -> Seq<char>
    decreases x.len(),
{
    if x.len() == 0 {
        Seq::empty()
    } else if x[0] == '\\' && x.len() >= 2 && (x[1] == '\\' || x[1] == '"') {
        seq![x[1]] + read_typst_string(x.skip(2))
    } else if x[0] == '\\' && x.len() >= 2 && x[1] == 'n' {
        seq!['\n'] + read_typst_string(x.skip(2))
    } else if x[0] == '\\' && x.len() >= 2 && x[1] == 'r' {
        seq!['\r'] + read_typst_string(x.skip(2))
    } else if x[0] == '\\' && x.len() >= 2 && x[1] == 't' {
        seq!['\t'] + read_typst_string(x.skip(2))
    } else if starts_with_unicode_escape(x) {
        seq![(unicode_escape_value(x) as u32) as char] + read_typst_string(x.skip(8))
    } else {
        seq![x[0]] + read_typst_string(x.skip(1))
    }
}

proof fn lemma_escape_string_front(s: Seq<char>)
    requires
        s.len() > 0,
    ensures
        escape_string_spec(s) == string_char(s[0]) + escape_string_spec(s.skip(1)),
    decreases s.len(),
{
    if s.len() == 1 {
        assert(s.drop_last() =~= Seq::<char>::empty());
        assert(s.skip(1) =~= Seq::<char>::empty());
        assert(escape_string_spec(s.skip(1)) =~= Seq::<char>::empty());
        assert(escape_string_spec(s.drop_last()) =~= Seq::<char>::empty());
        assert(escape_string_spec(s) =~= string_char(s[0]) + escape_string_spec(s.skip(1)));
    } else {
        let d = s.drop_last();
        lemma_escape_string_front(d);
        assert(d.skip(1) =~= s.skip(1).drop_last());
        assert(s.skip(1).last() == s.last());
        assert(escape_string_spec(s) =~= string_char(s[0]) + escape_string_spec(s.skip(1)));
    }
}

proof fn lemma_hex_digit_reads_back(d: u32)
    requires
        d < 16,
    ensures
        hex_digit_value(hex_digit(d)) == d,
{
    if d < 10 {
        assert(hex_digit(d) as int == d + 48);
    } else {
        assert(hex_digit(d) as int == d + 87);
    }
}

/// Escaping for a Typst string literal loses nothing and leaves no control
/// character: reading the escaped text as the body of a string literal
/// gives the original text back.
pub proof fn law_escape_typst_string_reversible(s: Seq<char>)
    ensures
        read_typst_string(escape_string_spec(s)) == s,
        forall|i: int| 0 <= i < escape_string_spec(s).len() ==> !is_control(#[trigger] escape_string_spec(s)[i]),
    decreases s.len(),
{
    if s.len() == 0 {
        assert(escape_string_spec(s) =~= Seq::<char>::empty());
    } else {
        lemma_escape_string_front(s);
        let rest = s.skip(1);
        law_escape_typst_string_reversible(rest);
        let c = s[0];
        let e = escape_string_spec(rest);
        let x = string_char(c) + e;
        assert(escape_string_spec(s) == x);
        if c == '\\' || c == '"' || c == '\n' || c == '\r' || c == '\t' {
            assert(x.skip(2) =~= e);
        } else if is_control(c) {
            let n = c as u32;
            lemma_hex_digit_reads_back(n / 16);
            lemma_hex_digit_reads_back(n % 16);
            assert(x.skip(8) =~= e);
            assert(starts_with_unicode_escape(x));
            assert(unicode_escape_value(x) == n);
            assert((unicode_escape_value(x) as u32) == n);
            vstd::utf8::char_u32_cast(c, n);
        } else {
            assert(x.skip(1) =~= e);
        }
        assert(read_typst_string(x) =~= s);
        assert forall|i: int| 0 <= i < x.len() implies !is_control(#[trigger] x[i]) by {
            if i >= string_char(c).len() {
                assert(x[i] == e[i - string_char(c).len()]);
            } else if is_control(c) {
                let n = c as u32;
                if i == 5 {
                    assert(x[i] == hex_digit(n / 16));
                } else if i == 6 {
                    assert(x[i] == hex_digit(n % 16));
                }
            }
        }
    }
}

/// Escapes text for Typst markup (backslash before `\ # * _ ` ~ $ < > @ [ ] { } /`).
pub fn escape_markup(text: &str) -> (r: String)
    ensures
        r@ == escape_markup_spec(text@),
{
    let v = chars_of(text);
    let mut s = String::new();
    let mut i: usize = 0;
    while i < v.len()
        invariant
            i <= v.len(),
            s@ == escape_markup_spec(v@.take(i as int)),
        decreases v.len() - i,
    {
        let c = v[i];
        if c == '\\' || c == '#' || c == '*' || c == '_' || c == '`' || c == '~' || c == '$' || c
            == '<' || c == '>' || c == '@' || c == '[' || c == ']' || c == '{' || c == '}' || c
            == '/' {
            push_seq2(&mut s, '\\', c);
        } else {
            push_char(&mut s, c);
        }
        assert(v@.take(i + 1).drop_last() =~= v@.take(i as int));
        i = i + 1;
    }
    assert(v@.take(v.len() as int) =~= v@);
    s
}

/// Escapes a string for use as a Typst string literal: backslash, quote,
/// newline, carriage return and tab get backslash escapes, other control
/// characters become `\u{....}` with four lower-case hex digits.
pub fn escape_typst_string(s: &str) -> (r: String)
    ensures
        r@ == escape_string_spec(s@),
{
    let v = chars_of(s);
    let mut out = String::new();
    let mut i: usize = 0;
    while i < v.len()
        invariant
            i <= v.len(),
            out@ == escape_string_spec(v@.take(i as int)),
        decreases v.len() - i,
    {
        let c = v[i];
        if c == '\\' {
            push_seq2(&mut out, '\\', '\\');
        } else if c == '"' {
            push_seq2(&mut out, '\\', '"');
        } else if c == '\n' {
            push_seq2(&mut out, '\\', 'n');
        } else if c == '\r' {
            push_seq2(&mut out, '\\', 'r');
        } else if c == '\t' {
            push_seq2(&mut out, '\\', 't');
        } else if char_is_control(c) {
            let n = c as u32;
            let ghost before = out@;
            push_seq2(&mut out, '\\', 'u');
            push_seq2(&mut out, '{', '0');
            push_char(&mut out, '0');
            push_char(&mut out, hex_digit_exec(n / 16));
            push_char(&mut out, hex_digit_exec(n % 16));
            push_char(&mut out, '}');
            assert(out@ =~= before + string_char(c));
        } else {
            push_char(&mut out, c);
        }
        assert(v@.take(i + 1).drop_last() =~= v@.take(i as int));
        i = i + 1;
    }
    assert(v@.take(v.len() as int) =~= v@);
    out
}

// ───────────────────────── the converter ─────────────────────────

/// What the Markdown to Typst converter remembers between events.
pub struct ConvModel {
    pub output: Seq<char>,
    /// The open lists, innermost last; `true` for ordered ones.
    pub lists: Seq<bool>,
    pub nesting: nat,
    pub rows: Seq<Seq<Seq<char>>>,
    pub aligns: Seq<MdAlign>,
    pub cell: Seq<char>,
    pub in_cell: bool,
}

pub open spec fn conv_init() -> ConvModel {
    ConvModel {
        output: Seq::empty(),
        lists: Seq::empty(),
        nesting: 0,
        rows: Seq::empty(),
        aligns: Seq::empty(),
        cell: Seq::empty(),
        in_cell: false,
    }
}

pub open spec fn nesting_error() -> Seq<char> {
    "Markdown nesting too deep (>50 levels). Simplify the content."@
}

/// `n` copies of `c`.
pub open spec fn repeat(c: char, n: nat) -> Seq<char>
    decreases n,
{
    if n == 0 {
        Seq::empty()
    } else {
        repeat(c, (n - 1) as nat).push(c)
    }
}

/// Writes `s` into the current table cell when inside one, else into the
/// output.
pub open spec fn emit(st: ConvModel, s: Seq<char>) -> ConvModel {
    if st.in_cell {
        ConvModel { cell: st.cell + s, ..st }
    } else {
        ConvModel { output: st.output + s, ..st }
    }
}

pub open spec fn write(st: ConvModel, s: Seq<char>) -> ConvModel {
    ConvModel { output: st.output + s, ..st }
}

/// What an opening tag does.
pub open spec fn conv_start(st: ConvModel, t: MdTagModel) -> Result<ConvModel, Seq<char>> {
    match t {
        MdTagModel::Heading(level) => Ok(write(st, seq!['\n'] + repeat('=', level as nat) + seq![' '])),
        MdTagModel::Paragraph => {
            if st.output.len() != 0 && st.output.last() != '\n' {
                Ok(write(st, "\n\n"@))
            } else {
                Ok(st)
            }
        },
        MdTagModel::Strong => Ok(write(st, "#strong["@)),
        MdTagModel::Emphasis => Ok(write(st, "#emph["@)),
        MdTagModel::Strikethrough => Ok(write(st, "#strike["@)),
        MdTagModel::Link(dest) => Ok(write(st, "#link(\""@ + escape_string_spec(dest) + "\")["@)),
        MdTagModel::Image(dest) => Ok(write(st, "#image(\""@ + escape_string_spec(dest) + "\")"@)),
        MdTagModel::BlockQuote => {
            if st.nesting + 1 > 50 {
                Err(nesting_error())
            } else {
                Ok(write(ConvModel { nesting: st.nesting + 1, ..st }, "#quote[\n"@))
            }
        },
        MdTagModel::CodeBlock(lang) => Ok(
            write(st, "#raw(block: true, lang: \""@ + escape_string_spec(lang) + "\", \""@),
        ),
        MdTagModel::List(ordered) => {
            if st.nesting + 1 > 50 {
                Err(nesting_error())
            } else {
                Ok(ConvModel { nesting: st.nesting + 1, lists: st.lists.push(ordered), ..st })
            }
        },
        MdTagModel::Item => {
            if st.lists.len() > 0 && st.lists.last() {
                Ok(write(st, "\n+ "@))
            } else {
                Ok(write(st, "\n- "@))
            }
        },
        MdTagModel::Table(aligns) => Ok(ConvModel { rows: Seq::empty(), aligns, ..st }),
        MdTagModel::TableRow => Ok(ConvModel { rows: st.rows.push(Seq::empty()), ..st }),
        MdTagModel::TableCell => Ok(ConvModel { in_cell: true, cell: Seq::empty(), ..st }),
        MdTagModel::Other => Ok(st),
    }
}

/// The Typst name of a column alignment.
pub open spec fn align_name(a: MdAlign) -> Seq<char> {
    match a {
        MdAlign::Left => "left"@,
        MdAlign::Center => "center"@,
        MdAlign::Right => "right"@,
        MdAlign::Default => "auto"@,
    }
}

/// The alignment names joined with ", ".
pub open spec fn join_aligns(a: Seq<MdAlign>) -> Seq<char>
    decreases a.len(),
{
    if a.len() == 0 {
        Seq::empty()
    } else if a.len() == 1 {
        align_name(a[0])
    } else {
        join_aligns(a.drop_last()) + ", "@ + align_name(a.last())
    }
}

/// Each cell written as `[cell], `.
pub open spec fn cells_text(row: Seq<Seq<char>>) -> Seq<char>
    decreases row.len(),
{
    if row.len() == 0 {
        Seq::empty()
    } else {
        cells_text(row.drop_last()) + "["@ + row.last() + "], "@
    }
}

/// The body rows, each as its cells followed by a newline.
pub open spec fn rows_text(rows: Seq<Seq<Seq<char>>>) -> Seq<char>
    decreases rows.len(),
{
    if rows.len() == 0 {
        Seq::empty()
    } else {
        rows_text(rows.drop_last()) + cells_text(rows.last()) + "\n"@
    }
}

/// The Typst `#table(...)` call for the collected rows: the column count of
/// the first row, the alignments when any is not the default, the first row
/// as header and the others as body.
pub open spec fn table_text(rows: Seq<Seq<Seq<char>>>, aligns: Seq<MdAlign>) -> Seq<char> {
    "#table(\n  columns: "@ + decimal(rows[0].len()) + ",\n"@ + (if exists|i: int|
        0 <= i < aligns.len() && aligns[i] != MdAlign::Default {
        "  align: ("@ + join_aligns(aligns) + "),\n"@
    } else {
        Seq::empty()
    }) + "  table.header("@ + cells_text(rows[0]) + "),\n"@ + rows_text(rows.drop_first()) + ")\n"@
}

/// What a closing tag does.
pub open spec fn conv_end(st: ConvModel, t: MdTagEnd) -> ConvModel {
    match t {
        MdTagEnd::Heading => write(st, "\n"@),
        MdTagEnd::Paragraph => write(st, "\n\n"@),
        MdTagEnd::Strong | MdTagEnd::Emphasis | MdTagEnd::Strikethrough | MdTagEnd::Link => write(
            st,
            "]"@,
        ),
        MdTagEnd::BlockQuote => write(
            ConvModel { nesting: if st.nesting > 0 { (st.nesting - 1) as nat } else { 0 }, ..st },
            "\n]\n"@,
        ),
        MdTagEnd::CodeBlock => write(st, "\")\n"@),
        MdTagEnd::List => write(
            ConvModel {
                nesting: if st.nesting > 0 { (st.nesting - 1) as nat } else { 0 },
                lists: if st.lists.len() > 0 { st.lists.drop_last() } else { st.lists },
                ..st
            },
            "\n"@,
        ),
        MdTagEnd::Item => write(st, "\n"@),
        MdTagEnd::Table => {
            if st.rows.len() == 0 {
                st
            } else {
                write(st, table_text(st.rows, st.aligns))
            }
        },
        MdTagEnd::TableCell => {
            if st.rows.len() > 0 {
                ConvModel {
                    rows: st.rows.update(st.rows.len() - 1, st.rows.last().push(st.cell)),
                    cell: Seq::empty(),
                    in_cell: false,
                    ..st
                }
            } else {
                ConvModel { in_cell: false, ..st }
            }
        },
        MdTagEnd::Other => st,
    }
}

proof fn lemma_repeat_all(c: char, n: nat)
    ensures
        repeat(c, n).len() == n,
        forall|i: int| 0 <= i < n ==> #[trigger] repeat(c, n)[i] == c,
    decreases n,
{
    if n > 0 {
        lemma_repeat_all(c, (n - 1) as nat);
    }
}

/// Block structure becomes Typst markup: a heading of level `l` starts a
/// new line with `l` equal signs and a space; an item of an ordered list
/// starts a new line with `+ `, any other item with `- `; a block quote
/// opens `#quote[` on its own line (one level deeper) unless the nesting
/// limit is reached.
pub proof fn law_block_markers(st: ConvModel, l: u8)
    ensures
        conv_start(st, MdTagModel::Heading(l)) matches Ok(n) && n.output.len() == st.output.len() + l + 2
            && n.output.subrange(0, st.output.len() as int) == st.output && n.output[st.output.len() as int]
            == '\n' && n.output.last() == ' ' && (forall|i: int|
            st.output.len() < i < n.output.len() - 1 ==> #[trigger] n.output[i] == '='),
        st.lists.len() > 0 && st.lists.last() ==> conv_start(st, MdTagModel::Item) == Ok::<ConvModel, Seq<char>>(
            (ConvModel { output: st.output + seq!['\n', '+', ' '], ..st }),
        ),
        !(st.lists.len() > 0 && st.lists.last()) ==> conv_start(st, MdTagModel::Item) == Ok::<ConvModel, Seq<char>>(
            (ConvModel { output: st.output + seq!['\n', '-', ' '], ..st }),
        ),
        st.nesting < 50 ==> conv_start(st, MdTagModel::BlockQuote) == Ok::<ConvModel, Seq<char>>(
            (ConvModel {
                output: st.output + seq!['#', 'q', 'u', 'o', 't', 'e', '[', '\n'],
                nesting: st.nesting + 1,
                ..st
            }),
        ),
        st.nesting >= 50 ==> conv_start(st, MdTagModel::BlockQuote) is Err,
{
    reveal_strlit("\n+ ");
    reveal_strlit("\n- ");
    reveal_strlit("#quote[\n");
    assert("\n+ "@ =~= seq!['\n', '+', ' ']);
    assert("\n- "@ =~= seq!['\n', '-', ' ']);
    assert("#quote[\n"@ =~= seq!['#', 'q', 'u', 'o', 't', 'e', '[', '\n']);
    lemma_repeat_all('=', l as nat);
    let s = seq!['\n'] + repeat('=', l as nat) + seq![' '];
    let out = st.output + s;
    assert(out.subrange(0, st.output.len() as int) =~= st.output);
    assert forall|i: int| st.output.len() < i < out.len() - 1 implies #[trigger] out[i] == '=' by {
        assert(out[i] == s[i - st.output.len()]);
        assert(s[i - st.output.len()] == repeat('=', l as nat)[i - st.output.len() - 1]);
    }
}

/// Inline styles become their Typst functions: a strikethrough span opens
/// `#strike[`, strong text `#strong[` and emphasis `#emph[` (three different
/// markers), each closed by `]`; nothing else of the converter's state
/// changes.
pub proof fn law_inline_style_markers(st: ConvModel)
    ensures
        conv_start(st, MdTagModel::Strikethrough) == Ok::<ConvModel, Seq<char>>(
            (ConvModel { output: st.output + seq!['#', 's', 't', 'r', 'i', 'k', 'e', '['], ..st }),
        ),
        conv_start(st, MdTagModel::Strong) == Ok::<ConvModel, Seq<char>>(
            (ConvModel { output: st.output + seq!['#', 's', 't', 'r', 'o', 'n', 'g', '['], ..st }),
        ),
        conv_start(st, MdTagModel::Emphasis) == Ok::<ConvModel, Seq<char>>(
            (ConvModel { output: st.output + seq!['#', 'e', 'm', 'p', 'h', '['], ..st }),
        ),
        conv_end(st, MdTagEnd::Strikethrough) == (ConvModel { output: st.output + seq![']'], ..st }),
{
    reveal_strlit("#strike[");
    reveal_strlit("#strong[");
    reveal_strlit("#emph[");
    reveal_strlit("]");
    assert("#strike["@ =~= seq!['#', 's', 't', 'r', 'i', 'k', 'e', '[']);
    assert("#strong["@ =~= seq!['#', 's', 't', 'r', 'o', 'n', 'g', '[']);
    assert("#emph["@ =~= seq!['#', 'e', 'm', 'p', 'h', '[']);
    assert("]"@ =~= seq![']']);
}

/// One step of the converter.
pub open spec fn conv_step(st: ConvModel, ev: MdEventModel) -> Result<ConvModel, Seq<char>> {
    match ev {
        MdEventModel::Start(t) => conv_start(st, t),
        MdEventModel::End(t) => Ok(conv_end(st, t)),
        MdEventModel::Text(t) => Ok(emit(st, escape_markup_spec(t))),
        MdEventModel::Code(c) => Ok(emit(st, "#raw(\""@ + escape_string_spec(c) + "\")"@)),
        MdEventModel::SoftBreak => Ok(emit(st, " "@)),
        MdEventModel::HardBreak => Ok(emit(st, " #linebreak() "@)),
        MdEventModel::InlineHtml(h) => {
            if eq_ignore_ascii_case(trim(h), "<u>"@) {
                Ok(write(st, "#underline["@))
            } else if eq_ignore_ascii_case(trim(h), "</u>"@) {
                Ok(write(st, "]"@))
            } else {
                Ok(st)
            }
        },
        MdEventModel::Other => Ok(st),
    }
}

/// Runs the converter over an event stream.
pub open spec fn conv_run(evs: Seq<MdEventModel>, st: ConvModel) -> Result<Seq<char>, Seq<char>>
    decreases evs.len(),
{
    if evs.len() == 0 {
        Ok(st.output)
    } else {
        match conv_step(st, evs[0]) {
            Ok(next) => conv_run(evs.drop_first(), next),
            Err(e) => Err(e),
        }
    }
}

/// The Typst markup of a Markdown text, or the nesting error.
pub open spec fn markdown_to_typst_spec(markdown: Seq<char>) -> Result<Seq<char>, Seq<char>> {
    conv_run(md_events(markdown), conv_init())
}

fn heading_prefix(level: u8) -> (s: String)
    ensures
        s@ == seq!['\n'] + repeat('=', level as nat) + seq![' '],
{
    let mut s = String::new();
    push_char(&mut s, '\n');
    let mut k: u8 = 0;
    assert(s@ =~= seq!['\n'] + repeat('=', 0));
    while k < level
        invariant
            k <= level,
            s@ == seq!['\n'] + repeat('=', k as nat),
        decreases level - k,
    {
        push_char(&mut s, '=');
        assert(s@ =~= seq!['\n'] + repeat('=', (k + 1) as nat));
        k = k + 1;
    }
    push_char(&mut s, ' ');
    s
}

struct Converter {
    output: String,
    lists: Vec<bool>,
    nesting: usize,
    rows: Vec<Vec<String>>,
    aligns: Vec<MdAlign>,
    cell: String,
    in_cell: bool,
}

spec fn row_view(r: Seq<String>) -> Seq<Seq<char>> {
    r.map_values(|c: String| c@)
}

spec fn rows_view(rows: Seq<Vec<String>>) -> Seq<Seq<Seq<char>>> {
    rows.map_values(|r: Vec<String>| row_view(r@))
}

impl View for Converter {
    type V = ConvModel;

    closed spec fn view(&self) -> ConvModel {
        ConvModel {
            output: self.output@,
            lists: self.lists@,
            nesting: self.nesting as nat,
            rows: rows_view(self.rows@),
            aligns: self.aligns@,
            cell: self.cell@,
            in_cell: self.in_cell,
        }
    }
}

impl Converter {
    spec fn inv(&self) -> bool {
        self.nesting <= 50
    }

    fn write(&mut self, s: &str)
        ensures
            final(self)@ == write(old(self)@, s@),
            final(self).nesting == old(self).nesting,
    {
        self.output.append(s);
    }

    fn write_string(&mut self, s: &String)
        ensures
            final(self)@ == write(old(self)@, s@),
            final(self).nesting == old(self).nesting,
    {
        push_string(&mut self.output, s);
    }

    fn emit_string(&mut self, s: &String)
        ensures
            final(self)@ == emit(old(self)@, s@),
            final(self).nesting == old(self).nesting,
    {
        if self.in_cell {
            push_string(&mut self.cell, s);
        } else {
            push_string(&mut self.output, s);
        }
    }

    fn start(&mut self, t: MdTag) -> (r: Result<(), String>)
        requires
            old(self).inv(),
        ensures
            final(self).inv(),
            match r {
                Ok(()) => conv_start(old(self)@, t@) == Ok::<ConvModel, Seq<char>>(final(self)@),
                Err(e) => conv_start(old(self)@, t@) == Err::<ConvModel, Seq<char>>(e@),
            },
    {
        match t {
            MdTag::Heading(level) => {
                let s = heading_prefix(level);
                self.write_string(&s);
                Ok(())
            },
            MdTag::Paragraph => {
                let ov = chars_of(self.output.as_str());
                if ov.len() != 0 && ov[ov.len() - 1] != '\n' {
                    self.write("\n\n");
                }
                Ok(())
            },
            MdTag::Strong => {
                self.write("#strong[");
                Ok(())
            },
            MdTag::Emphasis => {
                self.write("#emph[");
                Ok(())
            },
            MdTag::Strikethrough => {
                self.write("#strike[");
                Ok(())
            },
            MdTag::Link(dest) => {
                let mut s = lit("#link(\"");
                let e = escape_typst_string(dest.as_str());
                push_string(&mut s, &e);
                s.append("\")[");
                self.write_string(&s);
                Ok(())
            },
            MdTag::Image(dest) => {
                let mut s = lit("#image(\"");
                let e = escape_typst_string(dest.as_str());
                push_string(&mut s, &e);
                s.append("\")");
                self.write_string(&s);
                Ok(())
            },
            MdTag::BlockQuote => {
                if self.nesting + 1 > MAX_NESTING_DEPTH {
                    return Err(lit("Markdown nesting too deep (>50 levels). Simplify the content."));
                }
                self.nesting = self.nesting + 1;
                self.write("#quote[\n");
                Ok(())
            },
            MdTag::CodeBlock(lang) => {
                let mut s = lit("#raw(block: true, lang: \"");
                let e = escape_typst_string(lang.as_str());
                push_string(&mut s, &e);
                s.append("\", \"");
                self.write_string(&s);
                Ok(())
            },
            MdTag::List(ordered) => {
                if self.nesting + 1 > MAX_NESTING_DEPTH {
                    return Err(lit("Markdown nesting too deep (>50 levels). Simplify the content."));
                }
                self.nesting = self.nesting + 1;
                self.lists.push(ordered);
                Ok(())
            },
            MdTag::Item => {
                let ordered = self.lists.len() > 0 && self.lists[self.lists.len() - 1];
                if ordered {
                    self.write("\n+ ");
                } else {
                    self.write("\n- ");
                }
                Ok(())
            },
            MdTag::Table(aligns) => {
                self.rows = Vec::new();
                self.aligns = aligns;
                assert(rows_view(self.rows@) =~= Seq::<Seq<Seq<char>>>::empty());
                Ok(())
            },
            MdTag::TableRow => {
                let ghost before = self.rows@;
                let fresh: Vec<String> = Vec::new();
                assert(row_view(fresh@) =~= Seq::<Seq<char>>::empty());
                self.rows.push(fresh);
                assert(rows_view(self.rows@) =~= rows_view(before).push(Seq::empty()));
                Ok(())
            },
            MdTag::TableCell => {
                self.in_cell = true;
                self.cell = String::new();
                Ok(())
            },
            MdTag::Other => Ok(()),
        }
    }

    fn table_string(rows: &Vec<Vec<String>>, aligns: &Vec<MdAlign>) -> (r: String)
        requires
            rows@.len() > 0,
        ensures
            r@ == table_text(rows_view(rows@), aligns@),
    {
        let ghost rv = rows_view(rows@);
        let mut s = lit("#table(\n  columns: ");
        let n = decimal_string(rows[0].len() as u64);
        push_string(&mut s, &n);
        s.append(",\n");
        let mut non_default = false;
        let mut i: usize = 0;
        while i < aligns.len()
            invariant
                i <= aligns@.len(),
                non_default == exists|j: int| 0 <= j < i && aligns@[j] != MdAlign::Default,
            decreases aligns.len() - i,
        {
            match aligns[i] {
                MdAlign::Default => {},
                _ => {
                    non_default = true;
                },
            }
            i = i + 1;
        }
        if non_default {
            s.append("  align: (");
            let mut k: usize = 0;
            let ghost before = s@;
            while k < aligns.len()
                invariant
                    k <= aligns@.len(),
                    s@ == before + join_aligns(aligns@.take(k as int)),
                decreases aligns.len() - k,
            {
                if k > 0 {
                    s.append(", ");
                }
                match aligns[k] {
                    MdAlign::Left => s.append("left"),
                    MdAlign::Center => s.append("center"),
                    MdAlign::Right => s.append("right"),
                    MdAlign::Default => s.append("auto"),
                }
                proof {
                    let t = aligns@.take(k + 1);
                    assert(t.drop_last() =~= aligns@.take(k as int));
                    if k == 0 {
                        assert(aligns@.take(0) =~= Seq::<MdAlign>::empty());
                    }
                }
                k = k + 1;
            }
            assert(aligns@.take(k as int) =~= aligns@);
            s.append("),\n");
        }
        s.append("  table.header(");
        let h = Self::cells_string(&rows[0]);
        push_string(&mut s, &h);
        s.append("),\n");
        let mut r: usize = 1;
        let ghost before_rows = s@;
        while r < rows.len()
            invariant
                1 <= r <= rows@.len(),
                rv == rows_view(rows@),
                s@ == before_rows + rows_text(rv.drop_first().take(r - 1)),
            decreases rows.len() - r,
        {
            let c = Self::cells_string(&rows[r]);
            push_string(&mut s, &c);
            s.append("\n");
            proof {
                let t = rv.drop_first().take(r as int);
                assert(t.drop_last() =~= rv.drop_first().take(r - 1));
                assert(t.last() == rv[r as int]);
            }
            r = r + 1;
        }
        assert(rv.drop_first().take(r - 1) =~= rv.drop_first());
        s.append(")\n");
        s
    }

    fn cells_string(row: &Vec<String>) -> (r: String)
        ensures
            r@ == cells_text(row_view(row@)),
    {
        let mut s = String::new();
        let mut i: usize = 0;
        while i < row.len()
            invariant
                i <= row@.len(),
                s@ == cells_text(row_view(row@).take(i as int)),
            decreases row.len() - i,
        {
            s.append("[");
            push_string(&mut s, &row[i]);
            s.append("], ");
            proof {
                let t = row_view(row@).take(i + 1);
                assert(t.drop_last() =~= row_view(row@).take(i as int));
            }
            i = i + 1;
        }
        assert(row_view(row@).take(i as int) =~= row_view(row@));
        s
    }

    fn end(&mut self, t: MdTagEnd)
        requires
            old(self).inv(),
        ensures
            final(self).inv(),
            final(self)@ == conv_end(old(self)@, t),
    {
        match t {
            MdTagEnd::Heading => self.write("\n"),
            MdTagEnd::Paragraph => self.write("\n\n"),
            MdTagEnd::Strong => self.write("]"),
            MdTagEnd::Emphasis => self.write("]"),
            MdTagEnd::Strikethrough => self.write("]"),
            MdTagEnd::Link => self.write("]"),
            MdTagEnd::BlockQuote => {
                if self.nesting > 0 {
                    self.nesting = self.nesting - 1;
                }
                self.write("\n]\n");
            },
            MdTagEnd::CodeBlock => self.write("\")\n"),
            MdTagEnd::List => {
                if self.nesting > 0 {
                    self.nesting = self.nesting - 1;
                }
                self.lists.pop();
                self.write("\n");
            },
            MdTagEnd::Item => self.write("\n"),
            MdTagEnd::Table => {
                if self.rows.len() > 0 {
                    let s = Self::table_string(&self.rows, &self.aligns);
                    self.write_string(&s);
                }
            },
            MdTagEnd::TableCell => {
                if self.rows.len() > 0 {
                    let ghost before = self.rows@;
                    let mut last = self.rows.pop().unwrap();
                    let mut cell = String::new();
                    std::mem::swap(&mut cell, &mut self.cell);
                    let ghost lb = last@;
                    last.push(cell);
                    self.rows.push(last);
                    proof {
                        assert(row_view(last@) =~= row_view(lb).push(cell@));
                        assert(rows_view(self.rows@) =~= rows_view(before).update(
                            before.len() - 1,
                            rows_view(before).last().push(cell@),
                        ));
                    }
                }
                self.in_cell = false;
            },
            MdTagEnd::Other => {},
        }
    }

    fn step(&mut self, ev: MdEvent) -> (r: Result<(), String>)
        requires
            old(self).inv(),
        ensures
            final(self).inv(),
            match r {
                Ok(()) => conv_step(old(self)@, ev@) == Ok::<ConvModel, Seq<char>>(final(self)@),
                Err(e) => conv_step(old(self)@, ev@) == Err::<ConvModel, Seq<char>>(e@),
            },
    {
        match ev {
            MdEvent::Start(t) => self.start(t),
            MdEvent::End(t) => {
                self.end(t);
                Ok(())
            },
            MdEvent::Text(t) => {
                let e = escape_markup(t.as_str());
                self.emit_string(&e);
                Ok(())
            },
            MdEvent::Code(c) => {
                let mut s = lit("#raw(\"");
                let e = escape_typst_string(c.as_str());
                push_string(&mut s, &e);
                s.append("\")");
                self.emit_string(&s);
                Ok(())
            },
            MdEvent::SoftBreak => {
                let s = lit(" ");
                self.emit_string(&s);
                Ok(())
            },
            MdEvent::HardBreak => {
                let s = lit(" #linebreak() ");
                self.emit_string(&s);
                Ok(())
            },
            MdEvent::InlineHtml(h) => {
                let hv = chars_of(h.as_str());
                let t = trim_chars(&hv);
                if eq_ignore_case_lit(&t, "<u>") {
                    self.write("#underline[");
                } else if eq_ignore_case_lit(&t, "</u>") {
                    self.write("]");
                }
                Ok(())
            },
            MdEvent::Other => Ok(()),
        }
    }
}

/// Converts Markdown (with tables and strikethrough) to Typst markup:
/// headings, paragraphs, emphasis, links, images, quotes, code, lists,
/// tables and `<u>` underline. Block quotes and lists nested more than 50
/// deep are an error.
pub fn markdown_to_typst(markdown: &str) -> (r: Result<String, String>)
    ensures
        match r {
            Ok(s) => markdown_to_typst_spec(markdown@) == Ok::<Seq<char>, Seq<char>>(s@),
            Err(e) => markdown_to_typst_spec(markdown@) == Err::<Seq<char>, Seq<char>>(e@),
        },
{
    let mut p = md_parser(markdown);
    let mut c = Converter {
        output: String::new(),
        lists: Vec::new(),
        nesting: 0,
        rows: Vec::new(),
        aligns: Vec::new(),
        cell: String::new(),
        in_cell: false,
    };
    proof {
        assert(rows_view(c.rows@) =~= Seq::<Seq<Seq<char>>>::empty());
        assert(c@ == conv_init());
    }
    loop
        invariant
            c.inv(),
            conv_run(md_pending(p), c@) == markdown_to_typst_spec(markdown@),
        decreases md_pending(p).len(),
    {
        match md_next(&mut p) {
            None => {
                return Ok(c.output);
            },
            Some(ev) => {
                match c.step(ev) {
                    Ok(()) => {},
                    Err(e) => {
                        return Err(e);
                    },
                }
            },
        }
    }
}

// ───────────────────────── Typst source assembly ─────────────────────────

/// A finding handed to a Typst template; `body` is Typst markup.
pub struct FindingInput {
    pub id: String,
    pub status: String,
    pub severity: String,
    pub body: String,
}

/// A requirement handed to a Typst template.
pub struct RequirementInput {
    pub id: String,
    pub status: String,
    pub body: String,
}

/// A note handed to a Typst template.
pub struct NoteInput {
    pub id: String,
    pub body: String,
}

/// The data of a Typst template. `sections` and `metadata` are
/// (name, value) pairs in the order they are written (key order when they
/// come from a sorted map).
pub struct TypstInputs {
    pub findings: Vec<FindingInput>,
    pub requirements: Vec<RequirementInput>,
    pub scope: Option<String>,
    pub sections: Vec<(String, String)>,
    pub metadata: Vec<(String, String)>,
    pub notes: Vec<NoteInput>,
}

pub open spec fn finding_entry(f: FindingInput) -> Seq<char> {
    "  (id: \""@ + escape_string_spec(f.id@) + "\", status: \""@ + escape_string_spec(f.status@)
        + "\", severity: \""@ + escape_string_spec(f.severity@) + "\", body: eval(\""@
        + escape_string_spec(f.body@) + "\", mode: \"markup\")),\n"@
}

pub open spec fn requirement_entry(r: RequirementInput) -> Seq<char> {
    "  (id: \""@ + escape_string_spec(r.id@) + "\", status: \""@ + escape_string_spec(r.status@)
        + "\", body: eval(\""@ + escape_string_spec(r.body@) + "\", mode: \"markup\")),\n"@
}

pub open spec fn section_entry(s: (String, String)) -> Seq<char> {
    "  "@ + s.0@ + ": eval(\""@ + escape_string_spec(s.1@) + "\", mode: \"markup\"),\n"@
}

pub open spec fn metadata_entry(m: (String, String)) -> Seq<char> {
    "  "@ + m.0@ + ": \""@ + escape_string_spec(m.1@) + "\",\n"@
}

pub open spec fn note_entry(n: NoteInput) -> Seq<char> {
    "  (id: \""@ + escape_string_spec(n.id@) + "\", body: eval(\""@ + escape_string_spec(n.body@)
        + "\", mode: \"markup\")),\n"@
}

/// The entries written one after another.
pub open spec fn concat_map<T>(s: Seq<T>, f: spec_fn(T) -> Seq<char>) -> Seq<char>
    decreases s.len(),
{
    if s.len() == 0 {
        Seq::empty()
    } else {
        concat_map(s.drop_last(), f) + f(s.last())
    }
}

pub open spec fn findings_block(fs: Seq<FindingInput>) -> Seq<char> {
    "#let findings = (\n"@ + concat_map(fs, |f: FindingInput| finding_entry(f)) + ")\n\n"@
}

pub open spec fn requirements_block(rs: Seq<RequirementInput>) -> Seq<char> {
    "#let requirements = (\n"@ + concat_map(rs, |r: RequirementInput| requirement_entry(r)) + ")\n\n"@
}

pub open spec fn scope_block(scope: Option<String>) -> Seq<char> {
    match scope {
        Some(s) => "#let scope = eval(\""@ + escape_string_spec(s@) + "\", mode: \"markup\")\n\n"@,
        None => "#let scope = none\n\n"@,
    }
}

pub open spec fn sections_block(ss: Seq<(String, String)>) -> Seq<char> {
    if ss.len() == 0 {
        "#let sections = (:)\n\n"@
    } else {
        "#let sections = (\n"@ + concat_map(ss, |s: (String, String)| section_entry(s)) + ")\n\n"@
    }
}

pub open spec fn metadata_block(ms: Seq<(String, String)>) -> Seq<char> {
    if ms.len() == 0 {
        "#let metadata = (:)\n\n"@
    } else {
        "#let metadata = (\n"@ + concat_map(ms, |m: (String, String)| metadata_entry(m)) + ")\n\n"@
    }
}

pub open spec fn notes_block(ns: Seq<NoteInput>) -> Seq<char> {
    if ns.len() == 0 {
        "#let notes = ()\n\n"@
    } else {
        "#let notes = (\n"@ + concat_map(ns, |n: NoteInput| note_entry(n)) + ")\n\n"@
    }
}

pub open spec fn show_block(template_fn: Seq<char>) -> Seq<char> {
    "#show: "@ + template_fn
        + ".with(\n  findings: findings,\n  requirements: requirements,\n  scope: scope,\n  sections: sections,\n  metadata: metadata,\n  notes: notes,\n)\n"@
}

/// The Typst source that applies a template to the data: the template, then
/// the data as Typst values (findings, requirements, scope, sections,
/// metadata, notes, all text escaped as string literals), then a `#show`
/// rule applying the template function.
pub open spec fn build_source_spec(template: Seq<char>, template_fn: Seq<char>, inputs: TypstInputs) -> Seq<char> {
    template + "\n\n"@ + findings_block(inputs.findings@) + requirements_block(inputs.requirements@)
        + scope_block(inputs.scope) + sections_block(inputs.sections@) + metadata_block(inputs.metadata@)
        + notes_block(inputs.notes@) + show_block(template_fn)
}

fn push_escaped(s: &mut String, t: &String)
    ensures
        final(s)@ == old(s)@ + escape_string_spec(t@),
{
    let e = escape_typst_string(t.as_str());
    push_string(s, &e);
}

fn write_findings(s: &mut String, fs: &Vec<FindingInput>)
    ensures
        final(s)@ == old(s)@ + concat_map(fs@, |f: FindingInput| finding_entry(f)),
{
    let ghost f = |f: FindingInput| finding_entry(f);
    let mut i: usize = 0;
    assert(fs@.take(0) =~= Seq::<FindingInput>::empty());
    while i < fs.len()
        invariant
            i <= fs@.len(),
            f == (|f: FindingInput| finding_entry(f)),
            s@ == old(s)@ + concat_map(fs@.take(i as int), f),
        decreases fs.len() - i,
    {
        let ghost before = s@;
        s.append("  (id: \"");
        push_escaped(s, &fs[i].id);
        s.append("\", status: \"");
        push_escaped(s, &fs[i].status);
        s.append("\", severity: \"");
        push_escaped(s, &fs[i].severity);
        s.append("\", body: eval(\"");
        push_escaped(s, &fs[i].body);
        s.append("\", mode: \"markup\")),\n");
        proof {
            assert(fs@.take(i + 1).drop_last() =~= fs@.take(i as int));
            assert(s@ =~= before + finding_entry(fs@[i as int]));
        }
        i = i + 1;
    }
    assert(fs@.take(i as int) =~= fs@);
}

fn write_requirements(s: &mut String, rs: &Vec<RequirementInput>)
    ensures
        final(s)@ == old(s)@ + concat_map(rs@, |r: RequirementInput| requirement_entry(r)),
{
    let ghost f = |r: RequirementInput| requirement_entry(r);
    let mut i: usize = 0;
    assert(rs@.take(0) =~= Seq::<RequirementInput>::empty());
    while i < rs.len()
        invariant
            i <= rs@.len(),
            f == (|r: RequirementInput| requirement_entry(r)),
            s@ == old(s)@ + concat_map(rs@.take(i as int), f),
        decreases rs.len() - i,
    {
        let ghost before = s@;
        s.append("  (id: \"");
        push_escaped(s, &rs[i].id);
        s.append("\", status: \"");
        push_escaped(s, &rs[i].status);
        s.append("\", body: eval(\"");
        push_escaped(s, &rs[i].body);
        s.append("\", mode: \"markup\")),\n");
        proof {
            assert(rs@.take(i + 1).drop_last() =~= rs@.take(i as int));
            assert(s@ =~= before + requirement_entry(rs@[i as int]));
        }
        i = i + 1;
    }
    assert(rs@.take(i as int) =~= rs@);
}

fn write_sections(s: &mut String, ps: &Vec<(String, String)>)
    ensures
        final(s)@ == old(s)@ + concat_map(ps@, |p: (String, String)| section_entry(p)),
{
    let ghost f = |p: (String, String)| section_entry(p);
    let mut i: usize = 0;
    assert(ps@.take(0) =~= Seq::<(String, String)>::empty());
    while i < ps.len()
        invariant
            i <= ps@.len(),
            f == (|p: (String, String)| section_entry(p)),
            s@ == old(s)@ + concat_map(ps@.take(i as int), f),
        decreases ps.len() - i,
    {
        let ghost before = s@;
        s.append("  ");
        push_string(s, &ps[i].0);
        s.append(": eval(\"");
        push_escaped(s, &ps[i].1);
        s.append("\", mode: \"markup\"),\n");
        proof {
            assert(ps@.take(i + 1).drop_last() =~= ps@.take(i as int));
            assert(s@ =~= before + section_entry(ps@[i as int]));
        }
        i = i + 1;
    }
    assert(ps@.take(i as int) =~= ps@);
}

fn write_metadata(s: &mut String, ps: &Vec<(String, String)>)
    ensures
        final(s)@ == old(s)@ + concat_map(ps@, |p: (String, String)| metadata_entry(p)),
{
    let ghost f = |p: (String, String)| metadata_entry(p);
    let mut i: usize = 0;
    assert(ps@.take(0) =~= Seq::<(String, String)>::empty());
    while i < ps.len()
        invariant
            i <= ps@.len(),
            f == (|p: (String, String)| metadata_entry(p)),
            s@ == old(s)@ + concat_map(ps@.take(i as int), f),
        decreases ps.len() - i,
    {
        let ghost before = s@;
        s.append("  ");
        push_string(s, &ps[i].0);
        s.append(": \"");
        push_escaped(s, &ps[i].1);
        s.append("\",\n");
        proof {
            assert(ps@.take(i + 1).drop_last() =~= ps@.take(i as int));
            assert(s@ =~= before + metadata_entry(ps@[i as int]));
        }
        i = i + 1;
    }
    assert(ps@.take(i as int) =~= ps@);
}

fn write_notes(s: &mut String, ns: &Vec<NoteInput>)
    ensures
        final(s)@ == old(s)@ + concat_map(ns@, |n: NoteInput| note_entry(n)),
{
    let ghost f = |n: NoteInput| note_entry(n);
    let mut i: usize = 0;
    assert(ns@.take(0) =~= Seq::<NoteInput>::empty());
    while i < ns.len()
        invariant
            i <= ns@.len(),
            f == (|n: NoteInput| note_entry(n)),
            s@ == old(s)@ + concat_map(ns@.take(i as int), f),
        decreases ns.len() - i,
    {
        let ghost before = s@;
        s.append("  (id: \"");
        push_escaped(s, &ns[i].id);
        s.append("\", body: eval(\"");
        push_escaped(s, &ns[i].body);
        s.append("\", mode: \"markup\")),\n");
        proof {
            assert(ns@.take(i + 1).drop_last() =~= ns@.take(i as int));
            assert(s@ =~= before + note_entry(ns@[i as int]));
        }
        i = i + 1;
    }
    assert(ns@.take(i as int) =~= ns@);
}

fn write_scope(s: &mut String, scope: &Option<String>)
    ensures
        final(s)@ == old(s)@ + scope_block(*scope),
{
    match scope {
        Some(sc) => {
            s.append("#let scope = eval(\"");
            push_escaped(s, sc);
            s.append("\", mode: \"markup\")\n\n");
        },
        None => {
            s.append("#let scope = none\n\n");
        },
    }
}

fn write_findings_block(s: &mut String, fs: &Vec<FindingInput>)
    ensures
        final(s)@ == old(s)@ + findings_block(fs@),
{
    s.append("#let findings = (\n");
    write_findings(s, fs);
    s.append(")\n\n");
}

fn write_requirements_block(s: &mut String, rs: &Vec<RequirementInput>)
    ensures
        final(s)@ == old(s)@ + requirements_block(rs@),
{
    s.append("#let requirements = (\n");
    write_requirements(s, rs);
    s.append(")\n\n");
}

fn write_sections_block(s: &mut String, ss: &Vec<(String, String)>)
    ensures
        final(s)@ == old(s)@ + sections_block(ss@),
{
    if ss.len() == 0 {
        s.append("#let sections = (:)\n\n");
    } else {
        s.append("#let sections = (\n");
        write_sections(s, ss);
        s.append(")\n\n");
    }
}

fn write_metadata_block(s: &mut String, ms: &Vec<(String, String)>)
    ensures
        final(s)@ == old(s)@ + metadata_block(ms@),
{
    if ms.len() == 0 {
        s.append("#let metadata = (:)\n\n");
    } else {
        s.append("#let metadata = (\n");
        write_metadata(s, ms);
        s.append(")\n\n");
    }
}

fn write_notes_block(s: &mut String, ns: &Vec<NoteInput>)
    ensures
        final(s)@ == old(s)@ + notes_block(ns@),
{
    if ns.len() == 0 {
        s.append("#let notes = ()\n\n");
    } else {
        s.append("#let notes = (\n");
        write_notes(s, ns);
        s.append(")\n\n");
    }
}

/// Builds the complete Typst source that applies the template function
/// `template_fn` of `template` to the data.
pub fn build_source(template: &str, template_fn: &str, inputs: &TypstInputs) -> (r: String)
    ensures
        r@ == build_source_spec(template@, template_fn@, *inputs),
{
    let mut src = lit(template);
    src.append("\n\n");
    write_findings_block(&mut src, &inputs.findings);
    write_requirements_block(&mut src, &inputs.requirements);
    write_scope(&mut src, &inputs.scope);
    write_sections_block(&mut src, &inputs.sections);
    write_metadata_block(&mut src, &inputs.metadata);
    write_notes_block(&mut src, &inputs.notes);
    src.append("#show: ");
    src.append(template_fn);
    src.append(".with(\n  findings: findings,\n  requirements: requirements,\n  scope: scope,\n  sections: sections,\n  metadata: metadata,\n  notes: notes,\n)\n");
    src
}


// ───────────────────────── built-in Typst templates ─────────────────────────

/// Built-in Typst `report` template: defines `report`, which lays out the inputs.
pub const TYPST_REPORT_TEMPLATE: &'static str = "#let report(findings: (), requirements: (), scope: none, sections: (:), metadata: (:), notes: (), doc) = {\n  set document(title: \"Security Assessment Report\")\n  set page(paper: \"a4\", margin: 2cm)\n  set text(size: 11pt)\n  align(center, text(size: 20pt, weight: \"bold\")[Security Assessment Report])\n  let client = metadata.at(\"client_name\", default: \"\")\n  if client != \"\" {\n    align(center)[#client]\n  }\n  if scope != none {\n    heading(level: 1)[Scope]\n    scope\n  }\n  for (name, body) in sections {\n    body\n  }\n  if findings.len() > 0 {\n    heading(level: 1)[Findings]\n    for f in findings {\n      heading(level: 2)[#f.id (#f.severity, #f.status)]\n      f.body\n    }\n  }\n  for n in notes {\n    heading(level: 2)[#n.id]\n    n.body\n  }\n  doc\n}\n";

/// Built-in Typst `sow` template: defines `sow`, which lays out the inputs.
pub const TYPST_SOW_TEMPLATE: &'static str = "#let sow(findings: (), requirements: (), scope: none, sections: (:), metadata: (:), notes: (), doc) = {\n  set document(title: \"Statement of Work\")\n  set page(paper: \"a4\", margin: 2cm)\n  set text(size: 11pt)\n  align(center, text(size: 20pt, weight: \"bold\")[Statement of Work])\n  let client = metadata.at(\"client_name\", default: \"\")\n  if client != \"\" {\n    align(center)[#client]\n  }\n  if scope != none {\n    heading(level: 1)[Scope]\n    scope\n  }\n  for (name, body) in sections {\n    body\n  }\n  if requirements.len() > 0 {\n    heading(level: 1)[Requirements]\n    for r in requirements {\n      heading(level: 2)[#r.id (#r.status)]\n      r.body\n    }\n  }\n  doc\n}\n";

/// Built-in Typst `proposal` template: defines `proposal`, which lays out the inputs.
pub const TYPST_PROPOSAL_TEMPLATE: &'static str = "#let proposal(findings: (), requirements: (), scope: none, sections: (:), metadata: (:), notes: (), doc) = {\n  set document(title: \"Proposal\")\n  set page(paper: \"a4\", margin: 2cm)\n  set text(size: 11pt)\n  align(center, text(size: 20pt, weight: \"bold\")[Proposal])\n  let client = metadata.at(\"client_name\", default: \"\")\n  if client != \"\" {\n    align(center)[#client]\n  }\n  if scope != none {\n    heading(level: 1)[Scope]\n    scope\n  }\n  for (name, body) in sections {\n    body\n  }\n  doc\n}\n";

/// Built-in Typst `finding` template: defines `finding`, which lays out the inputs.
pub const TYPST_FINDING_TEMPLATE: &'static str = "#let finding(findings: (), requirements: (), scope: none, sections: (:), metadata: (:), notes: (), doc) = {\n  set document(title: \"Finding\")\n  set page(paper: \"a4\", margin: 2cm)\n  set text(size: 11pt)\n  align(center, text(size: 20pt, weight: \"bold\")[Finding])\n  let client = metadata.at(\"client_name\", default: \"\")\n  if client != \"\" {\n    align(center)[#client]\n  }\n  if findings.len() > 0 {\n    heading(level: 1)[Findings]\n    for f in findings {\n      heading(level: 2)[#f.id (#f.severity, #f.status)]\n      f.body\n    }\n  }\n  doc\n}\n";

/// Built-in Typst `requirement` template: defines `requirement`, which lays out the inputs.
pub const TYPST_REQUIREMENT_TEMPLATE: &'static str = "#let requirement(findings: (), requirements: (), scope: none, sections: (:), metadata: (:), notes: (), doc) = {\n  set document(title: \"Requirement\")\n  set page(paper: \"a4\", margin: 2cm)\n  set text(size: 11pt)\n  align(center, text(size: 20pt, weight: \"bold\")[Requirement])\n  let client = metadata.at(\"client_name\", default: \"\")\n  if client != \"\" {\n    align(center)[#client]\n  }\n  if requirements.len() > 0 {\n    heading(level: 1)[Requirements]\n    for r in requirements {\n      heading(level: 2)[#r.id (#r.status)]\n      r.body\n    }\n  }\n  doc\n}\n";

/// Built-in Typst `scope` template: defines `scope`, which lays out the inputs.
pub const TYPST_SCOPE_TEMPLATE: &'static str = "#let scope(findings: (), requirements: (), scope: none, sections: (:), metadata: (:), notes: (), doc) = {\n  set document(title: \"Scope\")\n  set page(paper: \"a4\", margin: 2cm)\n  set text(size: 11pt)\n  align(center, text(size: 20pt, weight: \"bold\")[Scope])\n  let client = metadata.at(\"client_name\", default: \"\")\n  if client != \"\" {\n    align(center)[#client]\n  }\n  if scope != none {\n    heading(level: 1)[Scope]\n    scope\n  }\n  doc\n}\n";

/// Built-in Typst `note` template: defines `note`, which lays out the inputs.
pub const TYPST_NOTE_TEMPLATE: &'static str = "#let note(findings: (), requirements: (), scope: none, sections: (:), metadata: (:), notes: (), doc) = {\n  set document(title: \"Note\")\n  set page(paper: \"a4\", margin: 2cm)\n  set text(size: 11pt)\n  align(center, text(size: 20pt, weight: \"bold\")[Note])\n  let client = metadata.at(\"client_name\", default: \"\")\n  if client != \"\" {\n    align(center)[#client]\n  }\n  for n in notes {\n    heading(level: 2)[#n.id]\n    n.body\n  }\n  doc\n}\n";

/// Built-in Typst `roe` template: defines `roe`, which lays out the inputs.
pub const TYPST_ROE_TEMPLATE: &'static str = "#let roe(findings: (), requirements: (), scope: none, sections: (:), metadata: (:), notes: (), doc) = {\n  set document(title: \"Rules of Engagement\")\n  set page(paper: \"a4\", margin: 2cm)\n  set text(size: 11pt)\n  align(center, text(size: 20pt, weight: \"bold\")[Rules of Engagement])\n  let client = metadata.at(\"client_name\", default: \"\")\n  if client != \"\" {\n    align(center)[#client]\n  }\n  if scope != none {\n    heading(level: 1)[Scope]\n    scope\n  }\n  for (name, body) in sections {\n    body\n  }\n  doc\n}\n";

/// Built-in Typst `nda` template: defines `nda`, which lays out the inputs.
pub const TYPST_NDA_TEMPLATE: &'static str = "#let nda(findings: (), requirements: (), scope: none, sections: (:), metadata: (:), notes: (), doc) = {\n  set document(title: \"Non-Disclosure Agreement\")\n  set page(paper: \"a4\", margin: 2cm)\n  set text(size: 11pt)\n  align(center, text(size: 20pt, weight: \"bold\")[Non-Disclosure Agreement])\n  let client = metadata.at(\"client_name\", default: \"\")\n  if client != \"\" {\n    align(center)[#client]\n  }\n  for (name, body) in sections {\n    body\n  }\n  doc\n}\n";

/// Built-in Typst `custom` template: defines `custom`, which lays out the inputs.
pub const TYPST_CUSTOM_TEMPLATE: &'static str = "#let custom(findings: (), requirements: (), scope: none, sections: (:), metadata: (:), notes: (), doc) = {\n  set document(title: \"Document\")\n  set page(paper: \"a4\", margin: 2cm)\n  set text(size: 11pt)\n  align(center, text(size: 20pt, weight: \"bold\")[Document])\n  let client = metadata.at(\"client_name\", default: \"\")\n  if client != \"\" {\n    align(center)[#client]\n  }\n  if scope != none {\n    heading(level: 1)[Scope]\n    scope\n  }\n  for (name, body) in sections {\n    body\n  }\n  if findings.len() > 0 {\n    heading(level: 1)[Findings]\n    for f in findings {\n      heading(level: 2)[#f.id (#f.severity, #f.status)]\n      f.body\n    }\n  }\n  if requirements.len() > 0 {\n    heading(level: 1)[Requirements]\n    for r in requirements {\n      heading(level: 2)[#r.id (#r.status)]\n      r.body\n    }\n  }\n  for n in notes {\n    heading(level: 2)[#n.id]\n    n.body\n  }\n  doc\n}\n";

/// The built-in Typst template of a document type, as `get_builtin_template`
/// gives it.
pub open spec fn get_builtin_template_spec(name: Seq<char>) -> Option<&'static str> {
    if name == "report"@ {
        Some(TYPST_REPORT_TEMPLATE)
    } else if name == "sow"@ {
        Some(TYPST_SOW_TEMPLATE)
    } else if name == "proposal"@ {
        Some(TYPST_PROPOSAL_TEMPLATE)
    } else if name == "finding"@ {
        Some(TYPST_FINDING_TEMPLATE)
    } else if name == "requirement"@ {
        Some(TYPST_REQUIREMENT_TEMPLATE)
    } else if name == "scope"@ {
        Some(TYPST_SCOPE_TEMPLATE)
    } else if name == "note"@ {
        Some(TYPST_NOTE_TEMPLATE)
    } else if name == "roe"@ {
        Some(TYPST_ROE_TEMPLATE)
    } else if name == "nda"@ {
        Some(TYPST_NDA_TEMPLATE)
    } else if name == "custom"@ {
        Some(TYPST_CUSTOM_TEMPLATE)
    } else {
        None
    }
}

/// The built-in Typst template of a document type (`report`, `sow`,
/// `proposal`, `finding`, `requirement`, `scope`, `note`, `roe`, `nda`,
/// `custom`); `None` for any other name.
pub fn get_builtin_template(name: &str) -> (r: Option<&'static str>)
    ensures
        name@ == "report"@ ==> r == Some(TYPST_REPORT_TEMPLATE),
        name@ == "sow"@ ==> r == Some(TYPST_SOW_TEMPLATE),
        name@ == "proposal"@ ==> r == Some(TYPST_PROPOSAL_TEMPLATE),
        name@ == "finding"@ ==> r == Some(TYPST_FINDING_TEMPLATE),
        name@ == "requirement"@ ==> r == Some(TYPST_REQUIREMENT_TEMPLATE),
        name@ == "scope"@ ==> r == Some(TYPST_SCOPE_TEMPLATE),
        name@ == "note"@ ==> r == Some(TYPST_NOTE_TEMPLATE),
        name@ == "roe"@ ==> r == Some(TYPST_ROE_TEMPLATE),
        name@ == "nda"@ ==> r == Some(TYPST_NDA_TEMPLATE),
        name@ == "custom"@ ==> r == Some(TYPST_CUSTOM_TEMPLATE),
        r.is_none() <==> !(name@ == "report"@ || name@ == "sow"@ || name@ == "proposal"@ || name@ == "finding"@ || name@ == "requirement"@ || name@ == "scope"@ || name@ == "note"@ || name@ == "roe"@ || name@ == "nda"@ || name@ == "custom"@),
{
    let v = chars_of(name);
    proof {
        reveal_strlit("report");
        reveal_strlit("sow");
        reveal_strlit("proposal");
        reveal_strlit("finding");
        reveal_strlit("requirement");
        reveal_strlit("scope");
        reveal_strlit("note");
        reveal_strlit("roe");
        reveal_strlit("nda");
        reveal_strlit("custom");
        assert("report"@.len() == 6);
        assert("sow"@.len() == 3);
        assert("proposal"@.len() == 8);
        assert("finding"@.len() == 7);
        assert("requirement"@.len() == 11);
        assert("scope"@.len() == 5);
        assert("note"@.len() == 4);
        assert("roe"@.len() == 3);
        assert("nda"@.len() == 3);
        assert("custom"@.len() == 6);
        assert("custom"@[0] != "report"@[0]);
        assert("roe"@[0] != "sow"@[0]);
        assert("nda"@[0] != "sow"@[0]);
        assert("nda"@[0] != "roe"@[0]);
    }
    if crate::text::eq_lit(&v, "report") {
        Some(TYPST_REPORT_TEMPLATE)
    } else if crate::text::eq_lit(&v, "sow") {
        Some(TYPST_SOW_TEMPLATE)
    } else if crate::text::eq_lit(&v, "proposal") {
        Some(TYPST_PROPOSAL_TEMPLATE)
    } else if crate::text::eq_lit(&v, "finding") {
        Some(TYPST_FINDING_TEMPLATE)
    } else if crate::text::eq_lit(&v, "requirement") {
        Some(TYPST_REQUIREMENT_TEMPLATE)
    } else if crate::text::eq_lit(&v, "scope") {
        Some(TYPST_SCOPE_TEMPLATE)
    } else if crate::text::eq_lit(&v, "note") {
        Some(TYPST_NOTE_TEMPLATE)
    } else if crate::text::eq_lit(&v, "roe") {
        Some(TYPST_ROE_TEMPLATE)
    } else if crate::text::eq_lit(&v, "nda") {
        Some(TYPST_NDA_TEMPLATE)
    } else if crate::text::eq_lit(&v, "custom") {
        Some(TYPST_CUSTOM_TEMPLATE)
    } else {
        None
    }
}

/// The error when a document type has neither a workspace template nor a
/// built-in one.
pub open spec fn no_template_message(name: Seq<char>) -> Seq<char> {
    "No template found for '"@ + name + "'. No workspace template and no built-in default."@
}

/// Chooses the Typst template of a document type: the workspace's own
/// template when it has one (its text given), else the built-in one; the
/// template function is named after the type.
pub fn template_choice(name: &str, workspace_template: Option<String>) -> (r: Result<(String, String), String>)
    ensures
        workspace_template matches Some(t) ==> (r matches Ok((c, f)) && c@ == t@ && f@ == name@),
        workspace_template is None ==> match get_builtin_template_spec(name@) {
            Some(b) => r matches Ok((c, f)) && c@ == b@ && f@ == name@,
            None => r matches Err(m) && m@ == no_template_message(name@),
        },
{
    match workspace_template {
        Some(t) => Ok((t, lit(name))),
        None => match get_builtin_template(name) {
            Some(b) => Ok((lit(b), lit(name))),
            None => {
                let mut m = lit("No template found for '");
                m.append(name);
                m.append("'. No workspace template and no built-in default.");
                Err(m)
            },
        },
    }
}

} // verus!
