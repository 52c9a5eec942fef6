//! The XML event stream that the XML-based parsers read, as produced by
//! quick-xml. Each event is converted into a plain value of this module.

use crate::text::{chars_of, utf8_decode};
use quick_xml::events::attributes::{AttrError, Attribute};
use quick_xml::events::{BytesStart, BytesText, Event};
use quick_xml::Reader;
use vstd::prelude::*;

verus! {

#[verifier::external_type_specification]
#[verifier::external_body]
#[verifier::reject_recursive_types(R)]
pub struct ExXmlReader<R>(Reader<R>);

#[verifier::external_type_specification]
#[verifier::external_body]
pub struct ExXmlAttribute<'a>(Attribute<'a>);

#[verifier::external_type_specification]
#[verifier::external_body]
pub struct ExXmlAttrError(AttrError);

#[verifier::external_type_specification]
#[verifier::external_body]
pub struct ExXmlBytesStart<'a>(BytesStart<'a>);

#[verifier::external_type_specification]
#[verifier::external_body]
pub struct ExXmlBytesText<'a>(BytesText<'a>);

/// One attribute of a start tag.
pub enum XmlAttr {
    /// A well-formed attribute: its key, its raw value, and the value with
    /// entities unescaped (`None` when unescaping failed).
    Valid { key: Vec<u8>, raw_value: Vec<u8>, value: Option<String> },
    /// A malformed attribute, with the parser's message.
    Invalid { message: String },
}

/// A start tag: its name and attributes.
pub struct XmlStart {
    pub name: Vec<u8>,
    pub attrs: Vec<XmlAttr>,
}

/// One event of the XML reader.
pub enum XmlEvent {
    Start(XmlStart),
    End(Vec<u8>),
    /// Character data: raw bytes, and the text with entities unescaped
    /// (`None` when unescaping failed).
    Text { raw: Vec<u8>, unescaped: Option<String> },
    CData(Vec<u8>),
    Eof,
    /// A syntax error: the parser's message and its buffer position.
    Error { message: String, position: u64 },
    /// Empty-element tags, comments, declarations, processing instructions
    /// and doctypes.
    Other,
}

pub enum AttrModel {
    Valid { key: Seq<u8>, raw_value: Seq<u8>, value: Option<Seq<char>> },
    Invalid { message: Seq<char> },
}

pub enum EventModel {
    Start { name: Seq<u8>, attrs: Seq<AttrModel> },
    End { name: Seq<u8> },
    Text { raw: Seq<u8>, unescaped: Option<Seq<char>> },
    CData { raw: Seq<u8> },
    Eof,
    Error { message: Seq<char>, position: u64 },
    Other,
}

impl View for XmlAttr {
    type V = AttrModel;

    open spec fn view(&self) -> AttrModel {
        match self {
            XmlAttr::Valid { key, raw_value, value } => AttrModel::Valid {
                key: key@,
                raw_value: raw_value@,
                value: crate::parsers::opt_view(*value),
            },
            XmlAttr::Invalid { message } => AttrModel::Invalid { message: message@ },
        }
    }
}

pub open spec fn attrs_view(v: Seq<XmlAttr>) -> Seq<AttrModel> {
    v.map_values(|a: XmlAttr| a@)
}

impl View for XmlEvent {
    type V = EventModel;

    open spec fn view(&self) -> EventModel {
        match self {
            XmlEvent::Start(s) => EventModel::Start { name: s.name@, attrs: attrs_view(s.attrs@) },
            XmlEvent::End(n) => EventModel::End { name: n@ },
            XmlEvent::Text { raw, unescaped } => EventModel::Text {
                raw: raw@,
                unescaped: crate::parsers::opt_view(*unescaped),
            },
            XmlEvent::CData(raw) => EventModel::CData { raw: raw@ },
            XmlEvent::Eof => EventModel::Eof,
            XmlEvent::Error { message, position } => EventModel::Error {
                message: message@,
                position: *position,
            },
            XmlEvent::Other => EventModel::Other,
        }
    }
}

/// The events that quick-xml's reader, set to trim whitespace around text,
/// yields for `content`, up to and including the first end-of-file. Errors
/// stand among them: after an ill-formed error (such as a mismatched end
/// tag) quick-xml goes on parsing, after any other error it yields
/// end-of-file next.
pub uninterp spec fn xml_events(content: Seq<u8>) -> Seq<EventModel>;

/// The events that a reader has still to yield, up to and including its
/// first end-of-file, errors among them.
pub uninterp spec fn xml_pending(r: Reader<&[u8]>) -> Seq<EventModel>;

/// Calls `quick_xml::Reader::from_reader` and sets `trim_text(true)`; the
/// events still to come are `xml_events` of the content.
#[verifier::external_body]
pub(crate) fn xml_reader(content: &[u8]) -> (r: Reader<&[u8]>)
    ensures
        xml_pending(r) == xml_events(content@),
{
    let mut reader = Reader::from_reader(content);
    reader.config_mut().trim_text(true);
    reader
}

/// Calls `Reader::read_event_into` and converts the event. It hands out the
/// first pending event, an error included, and drops it; once the
/// end-of-file has been handed out the reader is done and yields end-of-file
/// again (quick-xml sets its state to `Done` after end-of-file).
#[verifier::external_body]
pub(crate) fn xml_next(reader: &mut Reader<&[u8]>) -> (ev: XmlEvent)
    ensures
        xml_pending(*old(reader)).len() > 0 ==> ev@ == xml_pending(*old(reader))[0] && xml_pending(
            *final(reader),
        ) == xml_pending(*old(reader)).drop_first(),
        xml_pending(*old(reader)).len() == 0 ==> ev@ == EventModel::Eof && xml_pending(
            *final(reader),
        ).len() == 0,
{
    let mut buf = Vec::new();
    match reader.read_event_into(&mut buf) {
        Ok(Event::Start(e)) => XmlEvent::Start(xml_start(&e)),
        Ok(Event::End(e)) => XmlEvent::End(e.name().as_ref().to_vec()),
        Ok(Event::Text(e)) => xml_text(&e),
        Ok(Event::CData(e)) => XmlEvent::CData(e.to_vec()),
        Ok(Event::Eof) => XmlEvent::Eof,
        Ok(_) => XmlEvent::Other,
        Err(e) => XmlEvent::Error { message: e.to_string(), position: reader.buffer_position() },
    }
}

/// Converts a start tag: its name (`BytesStart::name`) and its attributes
/// (`BytesStart::attributes`, each converted by `xml_attr`).
#[verifier::external_body]
fn xml_start(e: &BytesStart) -> XmlStart {
    XmlStart { name: e.name().as_ref().to_vec(), attrs: e.attributes().map(xml_attr).collect() }
}

/// Converts character data: its raw bytes, and the text that
/// `BytesText::unescape` gives (`None` where it fails).
#[verifier::external_body]
fn xml_text(e: &BytesText) -> XmlEvent {
    XmlEvent::Text { raw: e.to_vec(), unescaped: e.unescape().ok().map(|s| s.into_owned()) }
}

/// Converts one attribute that quick-xml's attribute iterator yields; the
/// value is unescaped with `Attribute::unescape_value`.
#[verifier::external_body]
fn xml_attr(a: Result<Attribute, AttrError>) -> XmlAttr {
    match a {
        Ok(a) => XmlAttr::Valid {
            key: a.key.as_ref().to_vec(),
            raw_value: a.value.to_vec(),
            value: a.unescape_value().ok().map(|v| v.into_owned()),
        },
        Err(e) => XmlAttr::Invalid { message: e.to_string() },
    }
}

// ───────────────────────── helpers for the parsers ─────────────────────────

/// `std::str::from_utf8(bytes).unwrap_or("")`.
pub open spec fn utf8_or_empty(b: Seq<u8>) -> Seq<char> {
    if vstd::utf8::valid_utf8(b) {
        vstd::utf8::decode_utf8(b)
    } else {
        Seq::empty()
    }
}

/// Decodes a tag name or key as the parsers do: invalid UTF-8 reads as "".
pub fn name_chars(b: &Vec<u8>) -> (r: Vec<char>)
    ensures
        r@ == utf8_or_empty(b@),
{
    match utf8_decode(b.as_slice()) {
        Some(s) => chars_of(s.as_str()),
        None => Vec::new(),
    }
}

/// `Option::unwrap_or_default` on an optional text.
pub open spec fn or_empty(o: Option<Seq<char>>) -> Seq<char> {
    match o {
        Some(s) => s,
        None => Seq::empty(),
    }
}

/// The text of an optional value, or "" when absent.
pub fn text_or_empty(o: &Option<String>) -> (r: String)
    ensures
        r@ == or_empty(crate::parsers::opt_view(*o)),
{
    match o {
        Some(s) => s.clone(),
        None => String::new(),
    }
}

/// The key/value pairs of a start tag's attributes (keys decoded as UTF-8
/// or "", values unescaped or ""), or the message of the first malformed one.
pub open spec fn attr_pairs(attrs: Seq<AttrModel>) -> Result<Seq<(Seq<char>, Seq<char>)>, Seq<char>>
    decreases attrs.len(),
{
    if attrs.len() == 0 {
        Ok(Seq::empty())
    } else {
        match attrs[0] {
            AttrModel::Invalid { message } => Err("Attr error: "@ + message),
            AttrModel::Valid { key, value, .. } => match attr_pairs(attrs.drop_first()) {
                Ok(rest) => Ok(seq![(utf8_or_empty(key), or_empty(value))] + rest),
                Err(m) => Err(m),
            },
        }
    }
}

/// The value of the last pair with key `k`, or `default` if there is none.
pub open spec fn last_value(p: Seq<(Seq<char>, Seq<char>)>, k: Seq<char>, default: Seq<char>) -> Seq<char>
    decreases p.len(),
{
    if p.len() == 0 {
        default
    } else if p.last().0 == k {
        p.last().1
    } else {
        last_value(p.drop_last(), k, default)
    }
}

pub open spec fn pairs_view(v: Seq<(Vec<char>, String)>) -> Seq<(Seq<char>, Seq<char>)> {
    v.map_values(|p: (Vec<char>, String)| (p.0@, p.1@))
}

/// Reads the attributes of a start tag into key/value pairs.
pub fn attr_pairs_exec(attrs: &Vec<XmlAttr>) -> (r: Result<Vec<(Vec<char>, String)>, String>)
    ensures
        match r {
            Ok(v) => attr_pairs(attrs_view(attrs@)) == Ok::<Seq<(Seq<char>, Seq<char>)>, Seq<char>>(pairs_view(v@)),
            Err(e) => attr_pairs(attrs_view(attrs@)) == Err::<Seq<(Seq<char>, Seq<char>)>, Seq<char>>(e@),
        },
    decreases attrs@.len(),
{
    let mut out: Vec<(Vec<char>, String)> = Vec::new();
    let mut i: usize = 0;
    let ghost all = attrs_view(attrs@);
    while i < attrs.len()
        invariant
            i <= attrs.len(),
            all == attrs_view(attrs@),
            forall|j: int| 0 <= j < i ==> (#[trigger] all[j]) is Valid,
            pairs_view(out@) == attr_pairs_prefix(all, i as int),
        decreases attrs.len() - i,
    {
        match &attrs[i] {
            XmlAttr::Invalid { message } => {
                proof {
                    lemma_attr_pairs_first_invalid(all, i as int);
                }
                return Err(crate::text::concat("Attr error: ", message.as_str()));
            },
            XmlAttr::Valid { key, raw_value: _, value } => {
                let k = name_chars(key);
                let v = text_or_empty(value);
                let ghost before = out@;
                out.push((k, v));
                assert(pairs_view(out@) =~= pairs_view(before).push((k@, v@)));
            },
        }
        i = i + 1;
    }
    proof {
        lemma_attr_pairs_all_valid(all);
    }
    Ok(out)
}

/// The pairs of the first `n` attributes, all of which are well formed.
pub open spec fn attr_pairs_prefix(attrs: Seq<AttrModel>, n: int) -> Seq<(Seq<char>, Seq<char>)>
    decreases n,
{
    if n <= 0 {
        Seq::empty()
    } else {
        attr_pairs_prefix(attrs, n - 1).push(pair_of(attrs[n - 1]))
    }
}

/// The key/value pair of a well-formed attribute.
pub open spec fn pair_of(a: AttrModel) -> (Seq<char>, Seq<char>) {
    match a {
        AttrModel::Valid { key, value, .. } => (utf8_or_empty(key), or_empty(value)),
        AttrModel::Invalid { .. } => (Seq::empty(), Seq::empty()),
    }
}

proof fn lemma_attr_pairs_first_invalid(all: Seq<AttrModel>, i: int)
    requires
        0 <= i < all.len(),
        forall|j: int| 0 <= j < i ==> (#[trigger] all[j]) is Valid,
        all[i] is Invalid,
    ensures
        attr_pairs(all) == Err::<Seq<(Seq<char>, Seq<char>)>, Seq<char>>("Attr error: "@ + all[i]->Invalid_message),
    decreases i,
{
    if i > 0 {
        let t = all.drop_first();
        assert forall|j: int| 0 <= j < i - 1 implies (#[trigger] t[j]) is Valid by {
            assert(t[j] == all[j + 1]);
        }
        lemma_attr_pairs_first_invalid(t, i - 1);
    }
}

proof fn lemma_attr_pairs_prefix_drop(all: Seq<AttrModel>, n: int)
    requires
        1 <= n <= all.len(),
        all[0] is Valid,
    ensures
        attr_pairs_prefix(all, n) == seq![(utf8_or_empty(all[0]->Valid_key), or_empty(all[0]->Valid_value))]
            + attr_pairs_prefix(all.drop_first(), n - 1),
    decreases n,
{
    if n > 1 {
        lemma_attr_pairs_prefix_drop(all, n - 1);
        let t = all.drop_first();
        assert(t[n - 2] == all[n - 1]);
        assert(attr_pairs_prefix(t, n - 1) == attr_pairs_prefix(t, n - 2).push(pair_of(all[n - 1])));
        assert(attr_pairs_prefix(all, n) =~= seq![(utf8_or_empty(all[0]->Valid_key), or_empty(all[0]->Valid_value))]
            + attr_pairs_prefix(all.drop_first(), n - 1));
    } else {
        assert(attr_pairs_prefix(all.drop_first(), 0) =~= Seq::<(Seq<char>, Seq<char>)>::empty());
        assert(attr_pairs_prefix(all, 0) =~= Seq::<(Seq<char>, Seq<char>)>::empty());
        assert(pair_of(all[0]) == (utf8_or_empty(all[0]->Valid_key), or_empty(all[0]->Valid_value)));
        assert(attr_pairs_prefix(all, 1) == attr_pairs_prefix(all, 0).push(pair_of(all[0])));
        assert(attr_pairs_prefix(all, 1) =~= seq![(utf8_or_empty(all[0]->Valid_key), or_empty(all[0]->Valid_value))]
            + attr_pairs_prefix(all.drop_first(), 0));
    }
}

proof fn lemma_attr_pairs_all_valid(all: Seq<AttrModel>)
    requires
        forall|j: int| 0 <= j < all.len() ==> (#[trigger] all[j]) is Valid,
    ensures
        attr_pairs(all) == Ok::<Seq<(Seq<char>, Seq<char>)>, Seq<char>>(attr_pairs_prefix(all, all.len() as int)),
    decreases all.len(),
{
    if all.len() > 0 {
        let t = all.drop_first();
        assert forall|j: int| 0 <= j < t.len() implies (#[trigger] t[j]) is Valid by {
            assert(t[j] == all[j + 1]);
        }
        lemma_attr_pairs_all_valid(t);
        assert(all[0] is Valid);
        lemma_attr_pairs_prefix_drop(all, all.len() as int);
    }
}

/// The value of the last pair with key `k`, or a copy of `default`.
pub fn last_value_exec(p: &Vec<(Vec<char>, String)>, k: &str, default: &String) -> (r: String)
    ensures
        r@ == last_value(pairs_view(p@), k@, default@),
{
    let mut i: usize = p.len();
    while i > 0
        invariant
            i <= p.len(),
            forall|j: int| i <= j < p@.len() ==> (#[trigger] p@[j]).0@ != k@,
        decreases i,
    {
        if crate::text::eq_lit(&p[i - 1].0, k) {
            proof {
                lemma_last_value_at(pairs_view(p@), k@, default@, i - 1);
            }
            return p[i - 1].1.clone();
        }
        i = i - 1;
    }
    proof {
        lemma_last_value_none(pairs_view(p@), k@, default@);
    }
    default.clone()
}

proof fn lemma_last_value_at(p: Seq<(Seq<char>, Seq<char>)>, k: Seq<char>, d: Seq<char>, i: int)
    requires
        0 <= i < p.len(),
        p[i].0 == k,
        forall|j: int| i < j < p.len() ==> (#[trigger] p[j]).0 != k,
    ensures
        last_value(p, k, d) == p[i].1,
    decreases p.len(),
{
    if i < p.len() - 1 {
        assert(p.last().0 != k);
        let t = p.drop_last();
        assert forall|j: int| i < j < t.len() implies (#[trigger] t[j]).0 != k by {
            assert(t[j] == p[j]);
        }
        lemma_last_value_at(t, k, d, i);
    }
}

proof fn lemma_last_value_none(p: Seq<(Seq<char>, Seq<char>)>, k: Seq<char>, d: Seq<char>)
    requires
        forall|j: int| 0 <= j < p.len() ==> (#[trigger] p[j]).0 != k,
    ensures
        last_value(p, k, d) == d,
    decreases p.len(),
{
    if p.len() > 0 {
        let t = p.drop_last();
        assert(p[p.len() - 1].0 != k);
        assert forall|j: int| 0 <= j < t.len() implies (#[trigger] t[j]).0 != k by {
            assert(t[j] == p[j]);
        }
        lemma_last_value_none(t, k, d);
    }
}

} // verus!
