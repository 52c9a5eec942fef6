//! The Markdown event stream, as produced by pulldown-cmark. Each event is
//! converted into a plain value of this module.

use pulldown_cmark::{
    Alignment, CodeBlockKind, DefaultBrokenLinkCallback, Event, Options, Parser, Tag, TagEnd,
};
use vstd::prelude::*;

verus! {

#[verifier::external_type_specification]
#[verifier::external_body]
#[verifier::reject_recursive_types(F)]
pub struct ExMdParser<'a, F>(Parser<'a, F>);

#[verifier::external_type_specification]
#[verifier::external_body]
pub struct ExMdTag<'a>(Tag<'a>);

#[verifier::external_type_specification]
#[verifier::external_body]
pub struct ExMdTagEnd(TagEnd);

#[verifier::external_type_specification]
#[verifier::external_body]
pub struct ExMdAlignment(Alignment);

#[verifier::external_type_specification]
#[verifier::external_body]
pub struct ExMdDefaultCallback(DefaultBrokenLinkCallback);

/// Column alignment of a table.
#[derive(Clone, Copy, PartialEq, Eq, Debug)]
pub enum MdAlign {
    Default,
    Left,
    Center,
    Right,
}

/// An opening tag.
pub enum MdTag {
    Heading(u8),
    Paragraph,
    Strong,
    Emphasis,
    Strikethrough,
    Link(String),
    Image(String),
    BlockQuote,
    /// A code block with its fence language ("" for indented blocks).
    CodeBlock(String),
    /// A list; `true` when it is ordered.
    List(bool),
    Item,
    Table(Vec<MdAlign>),
    TableRow,
    TableCell,
    Other,
}

/// A closing tag.
pub enum MdTagEnd {
    Heading,
    Paragraph,
    Strong,
    Emphasis,
    Strikethrough,
    Link,
    BlockQuote,
    CodeBlock,
    List,
    Item,
    Table,
    TableCell,
    Other,
}

/// One Markdown event.
pub enum MdEvent {
    Start(MdTag),
    End(MdTagEnd),
    Text(String),
    Code(String),
    SoftBreak,
    HardBreak,
    InlineHtml(String),
    Other,
}

pub enum MdTagModel {
    Heading(u8),
    Paragraph,
    Strong,
    Emphasis,
    Strikethrough,
    Link(Seq<char>),
    Image(Seq<char>),
    BlockQuote,
    CodeBlock(Seq<char>),
    List(bool),
    Item,
    Table(Seq<MdAlign>),
    TableRow,
    TableCell,
    Other,
}

pub enum MdEventModel {
    Start(MdTagModel),
    End(MdTagEnd),
    Text(Seq<char>),
    Code(Seq<char>),
    SoftBreak,
    HardBreak,
    InlineHtml(Seq<char>),
    Other,
}

impl View for MdTag {
    type V = MdTagModel;

    open spec fn view(&self) -> MdTagModel {
        match self {
            MdTag::Heading(l) => MdTagModel::Heading(*l),
            MdTag::Paragraph => MdTagModel::Paragraph,
            MdTag::Strong => MdTagModel::Strong,
            MdTag::Emphasis => MdTagModel::Emphasis,
            MdTag::Strikethrough => MdTagModel::Strikethrough,
            MdTag::Link(d) => MdTagModel::Link(d@),
            MdTag::Image(d) => MdTagModel::Image(d@),
            MdTag::BlockQuote => MdTagModel::BlockQuote,
            MdTag::CodeBlock(l) => MdTagModel::CodeBlock(l@),
            MdTag::List(o) => MdTagModel::List(*o),
            MdTag::Item => MdTagModel::Item,
            MdTag::Table(a) => MdTagModel::Table(a@),
            MdTag::TableRow => MdTagModel::TableRow,
            MdTag::TableCell => MdTagModel::TableCell,
            MdTag::Other => MdTagModel::Other,
        }
    }
}

impl View for MdEvent {
    type V = MdEventModel;

    open spec fn view(&self) -> MdEventModel {
        match self {
            MdEvent::Start(t) => MdEventModel::Start(t@),
            MdEvent::End(t) => MdEventModel::End(*t),
            MdEvent::Text(s) => MdEventModel::Text(s@),
            MdEvent::Code(s) => MdEventModel::Code(s@),
            MdEvent::SoftBreak => MdEventModel::SoftBreak,
            MdEvent::HardBreak => MdEventModel::HardBreak,
            MdEvent::InlineHtml(s) => MdEventModel::InlineHtml(s@),
            MdEvent::Other => MdEventModel::Other,
        }
    }
}

/// The events that pulldown-cmark's parser, with tables and strikethrough
/// enabled, yields for a Markdown text.
pub uninterp spec fn md_events(markdown: Seq<char>) -> Seq<MdEventModel>;

/// The events that a parser has still to yield.
pub uninterp spec fn md_pending(p: Parser) -> Seq<MdEventModel>;

/// The HTML that `pulldown_cmark::html::push_html` writes for a Markdown
/// text parsed with tables, strikethrough and footnotes enabled.
pub uninterp spec fn md_html(markdown: Seq<char>) -> Seq<char>;

/// Calls `Parser::new_ext` with tables and strikethrough enabled.
#[verifier::external_body]
pub(crate) fn md_parser(markdown: &str) -> (p: Parser)
    ensures
        md_pending(p) == md_events(markdown@),
{
    let mut options = Options::empty();
    options.insert(Options::ENABLE_TABLES);
    options.insert(Options::ENABLE_STRIKETHROUGH);
    Parser::new_ext(markdown, options)
}

/// Calls `Iterator::next` on the parser: the first pending event, converted;
/// `None` once the parser is exhausted.
#[verifier::external_body]
pub(crate) fn md_next(p: &mut Parser) -> (r: Option<MdEvent>)
    ensures
        md_pending(*old(p)).len() > 0 ==> r is Some && r.unwrap()@ == md_pending(*old(p))[0]
            && md_pending(*final(p)) == md_pending(*old(p)).drop_first(),
        md_pending(*old(p)).len() == 0 ==> r is None,
{
    Some(match p.next()? {
        Event::Start(t) => MdEvent::Start(md_tag(t)),
        Event::End(t) => MdEvent::End(md_tag_end(t)),
        Event::Text(t) => MdEvent::Text(t.to_string()),
        Event::Code(t) => MdEvent::Code(t.to_string()),
        Event::SoftBreak => MdEvent::SoftBreak,
        Event::HardBreak => MdEvent::HardBreak,
        Event::InlineHtml(t) => MdEvent::InlineHtml(t.to_string()),
        _ => MdEvent::Other,
    })
}

/// Converts an opening tag of pulldown-cmark; block-level tags are
/// converted by `md_block_tag`.
#[verifier::external_body]
fn md_tag(t: Tag) -> MdTag {
    match t {
        Tag::Heading { level, .. } => MdTag::Heading(level as u8),
        Tag::Paragraph => MdTag::Paragraph,
        Tag::Strong => MdTag::Strong,
        Tag::Emphasis => MdTag::Emphasis,
        Tag::Strikethrough => MdTag::Strikethrough,
        Tag::Link { dest_url, .. } => MdTag::Link(dest_url.to_string()),
        Tag::Image { dest_url, .. } => MdTag::Image(dest_url.to_string()),
        t => md_block_tag(t),
    }
}

/// Converts a block-level opening tag of pulldown-cmark.
#[verifier::external_body]
fn md_block_tag(t: Tag) -> MdTag {
    match t {
        Tag::BlockQuote(_) => MdTag::BlockQuote,
        Tag::CodeBlock(CodeBlockKind::Fenced(lang)) => MdTag::CodeBlock(lang.to_string()),
        Tag::CodeBlock(CodeBlockKind::Indented) => MdTag::CodeBlock(String::new()),
        Tag::List(start) => MdTag::List(start.is_some()),
        Tag::Item => MdTag::Item,
        Tag::Table(aligns) => MdTag::Table(aligns.into_iter().map(md_align).collect()),
        Tag::TableRow => MdTag::TableRow,
        Tag::TableCell => MdTag::TableCell,
        _ => MdTag::Other,
    }
}

/// Converts a column alignment of pulldown-cmark.
#[verifier::external_body]
fn md_align(a: Alignment) -> MdAlign {
    match a {
        Alignment::None => MdAlign::Default,
        Alignment::Left => MdAlign::Left,
        Alignment::Center => MdAlign::Center,
        Alignment::Right => MdAlign::Right,
    }
}

/// Converts a closing tag of pulldown-cmark.
#[verifier::external_body]
fn md_tag_end(t: TagEnd) -> MdTagEnd {
    match t {
        TagEnd::Heading(_) => MdTagEnd::Heading,
        TagEnd::Paragraph => MdTagEnd::Paragraph,
        TagEnd::Strong => MdTagEnd::Strong,
        TagEnd::Emphasis => MdTagEnd::Emphasis,
        TagEnd::Strikethrough => MdTagEnd::Strikethrough,
        TagEnd::Link => MdTagEnd::Link,
        TagEnd::BlockQuote(_) => MdTagEnd::BlockQuote,
        TagEnd::CodeBlock => MdTagEnd::CodeBlock,
        TagEnd::List(_) => MdTagEnd::List,
        TagEnd::Item => MdTagEnd::Item,
        TagEnd::Table => MdTagEnd::Table,
        TagEnd::TableCell => MdTagEnd::TableCell,
        _ => MdTagEnd::Other,
    }
}

/// Calls `pulldown_cmark::html::push_html` on the text parsed with tables,
/// strikethrough and footnotes enabled.
#[verifier::external_body]
pub(crate) fn markdown_html(markdown: &str) -> (r: String)
    ensures
        r@ == md_html(markdown@),
{
    let mut options = Options::empty();
    options.insert(Options::ENABLE_TABLES);
    options.insert(Options::ENABLE_STRIKETHROUGH);
    options.insert(Options::ENABLE_FOOTNOTES);
    let mut out = String::new();
    pulldown_cmark::html::push_html(&mut out, Parser::new_ext(markdown, options));
    out
}

} // verus!
