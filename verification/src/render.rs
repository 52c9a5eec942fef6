//! Rendering Markdown for exports, reports and statements of work:
//! Markdown as is, HTML pages, and the Typst source of PDFs.

use crate::markdown::{markdown_html, md_html};
use crate::text::{chars_of, eq_lit, lit};
use crate::typst::{markdown_to_typst, markdown_to_typst_spec};
use vstd::prelude::*;

verus! {

/// Output formats of exports and reports.
#[derive(PartialEq, Eq, Structural, Clone, Copy, Debug)]
pub enum OutputFormat {
    Markdown,
    Html,
    Pdf,
    Json,
}

pub open spec fn format_name(f: OutputFormat) -> Seq<char> {
    match f {
        OutputFormat::Markdown => "markdown"@,
        OutputFormat::Html => "html"@,
        OutputFormat::Pdf => "pdf"@,
        OutputFormat::Json => "json"@,
    }
}

impl OutputFormat {
    /// The format named `markdown` (or `md`), `html`, `pdf` or `json`.
    pub fn parse_format(s: &str) -> (r: Option<OutputFormat>)
        ensures
            r == (if s@ == "markdown"@ || s@ == "md"@ {
                Some(OutputFormat::Markdown)
            } else if s@ == "html"@ {
                Some(OutputFormat::Html)
            } else if s@ == "pdf"@ {
                Some(OutputFormat::Pdf)
            } else if s@ == "json"@ {
                Some(OutputFormat::Json)
            } else {
                None
            }),
    {
        let v = chars_of(s);
        if eq_lit(&v, "markdown") || eq_lit(&v, "md") {
            Some(OutputFormat::Markdown)
        } else if eq_lit(&v, "html") {
            Some(OutputFormat::Html)
        } else if eq_lit(&v, "pdf") {
            Some(OutputFormat::Pdf)
        } else if eq_lit(&v, "json") {
            Some(OutputFormat::Json)
        } else {
            None
        }
    }

    /// The name of the format.
    pub fn as_str(&self) -> (r: &'static str)
        ensures
            r@ == format_name(*self),
    {
        match self {
            OutputFormat::Markdown => "markdown",
            OutputFormat::Html => "html",
            OutputFormat::Pdf => "pdf",
            OutputFormat::Json => "json",
        }
    }
}

/// Markdown rendered as Markdown: the UTF-8 bytes of the text itself.
pub fn render_markdown(markdown: &str) -> (r: Vec<u8>)
    ensures
        r@ == vstd::utf8::encode_utf8(markdown@),
{
    let b = markdown.as_bytes();
    let mut v: Vec<u8> = Vec::new();
    let mut i: usize = 0;
    while i < b.len()
        invariant
            i <= b@.len(),
            b@ == vstd::utf8::encode_utf8(markdown@),
            v@ == b@.take(i as int),
        decreases b.len() - i,
    {
        v.push(b[i]);
        i = i + 1;
        assert(v@ =~= b@.take(i as int));
    }
    assert(b@.take(i as int) =~= b@);
    v
}

/// The page head of an HTML rendering.
pub open spec fn html_head() -> Seq<char> {
    "<!DOCTYPE html>\n<html lang=\"en\">\n<head>\n<meta charset=\"utf-8\">\n<meta name=\"viewport\" content=\"width=device-width, initial-scale=1\">\n<title>SecuritySmith Report</title>\n<style>\nbody { max-width: 800px; margin: 2em auto; padding: 0 1em; font-family: sans-serif; line-height: 1.6; }\ntable { border-collapse: collapse; width: 100%; }\nth, td { border: 1px solid #ddd; padding: 8px; }\nth { background: #f4f4f4; }\ncode { background: #f4f4f4; padding: 2px 4px; }\npre { background: #f4f4f4; padding: 1em; overflow-x: auto; }\n</style>\n</head>\n<body>\n"@
}

/// Markdown rendered as a standalone HTML page: the fixed head, the HTML of
/// the text (tables, strikethrough and footnotes enabled) and the closing
/// tags.
pub fn render_html(markdown: &str) -> (r: String)
    ensures
        r@ == html_head() + md_html(markdown@) + "\n</body>\n</html>"@,
{
    let body = markdown_html(markdown);
    let mut s = lit("<!DOCTYPE html>\n<html lang=\"en\">\n<head>\n<meta charset=\"utf-8\">\n<meta name=\"viewport\" content=\"width=device-width, initial-scale=1\">\n<title>SecuritySmith Report</title>\n<style>\nbody { max-width: 800px; margin: 2em auto; padding: 0 1em; font-family: sans-serif; line-height: 1.6; }\ntable { border-collapse: collapse; width: 100%; }\nth, td { border: 1px solid #ddd; padding: 8px; }\nth { background: #f4f4f4; }\ncode { background: #f4f4f4; padding: 2px 4px; }\npre { background: #f4f4f4; padding: 1em; overflow-x: auto; }\n</style>\n</head>\n<body>\n");
    s.append(body.as_str());
    s.append("\n</body>\n</html>");
    s
}

/// The Typst page set-up used for PDFs rendered from plain Markdown.
pub open spec fn pdf_preamble() -> Seq<char> {
    "#let simple(doc) = {\n  set page(paper: \"a4\", margin: 2cm)\n  set text(font: \"DejaVu Sans\", 11pt)\n  doc\n}\n\n#show: simple\n\n"@
}

/// The Typst source of a PDF rendering: the simple A4 page set-up followed
/// by the Typst markup of the text; the converter's nesting error is passed
/// on.
pub fn pdf_source(markdown: &str) -> (r: Result<String, String>)
    ensures
        match r {
            Ok(s) => markdown_to_typst_spec(markdown@) matches Ok(m) && s@ == pdf_preamble() + m + "\n"@,
            Err(e) => markdown_to_typst_spec(markdown@) == Err::<Seq<char>, Seq<char>>(e@),
        },
{
    let markup = match markdown_to_typst(markdown) {
        Ok(m) => m,
        Err(e) => return Err(e),
    };
    let mut s = lit("#let simple(doc) = {\n  set page(paper: \"a4\", margin: 2cm)\n  set text(font: \"DejaVu Sans\", 11pt)\n  doc\n}\n\n#show: simple\n\n");
    s.append(markup.as_str());
    s.append("\n");
    Ok(s)
}

} // verus!
