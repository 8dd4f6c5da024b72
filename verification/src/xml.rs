//! The XML that documents are made of: tags, text and the byte-order mark,
//! as the `quick_xml` writer puts them out.

use quick_xml::events::Event;
use quick_xml::Reader;
use vstd::prelude::*;
use vstd::utf8::{encode_utf8, valid_utf8};

use crate::encoding::{lemma_ascii_is_valid, lemma_valid_concat};

verus! {

/// The namespace of the protocol, and the attribute that declares it.
pub const XMLNS: &'static str = "xmlns";

pub const NAMESPACE: &'static str = "http://www.sitemaps.org/schemas/sitemap/0.9";

/// The root and the entry of a sitemap.
pub const URL_SET: &'static str = "urlset";

pub const URL: &'static str = "url";

/// The root and the entry of a sitemap index.
pub const SITEMAP_INDEX: &'static str = "sitemapindex";

pub const SITEMAP: &'static str = "sitemap";

/// The elements of an entry, in the order in which they are written.
pub const LOCATION: &'static str = "loc";

pub const LAST_MODIFIED: &'static str = "lastmod";

pub const CHANGE_FREQUENCY: &'static str = "changefreq";

pub const PRIORITY: &'static str = "priority";

/// What a character of a text becomes in XML: the markup characters and the
/// carriage return are replaced by references, in an attribute's value the
/// line feed and the tabulator too; every other character stands for
/// itself.
pub open spec fn escaped_char(c: char, attribute: bool) -> Seq<char> {
    if c == '<' {
        seq!['&', 'l', 't', ';']
    } else if c == '>' {
        seq!['&', 'g', 't', ';']
    } else if c == '&' {
        seq!['&', 'a', 'm', 'p', ';']
    } else if c == '\'' {
        seq!['&', 'a', 'p', 'o', 's', ';']
    } else if c == '"' {
        seq!['&', 'q', 'u', 'o', 't', ';']
    } else if c == '\r' {
        seq!['&', '#', '1', '3', ';']
    } else if attribute && c == '\n' {
        seq!['&', '#', '1', '0', ';']
    } else if attribute && c == '\t' {
        seq!['&', '#', '9', ';']
    } else {
        seq![c]
    }
}

/// A text with each of its characters escaped.
pub open spec fn escaped(text: Seq<char>, attribute: bool) -> Seq<char>
    decreases text.len(),
{
    if text.len() == 0 {
        Seq::empty()
    } else {
        escaped(text.drop_last(), attribute) + escaped_char(text.last(), attribute)
    }
}

/// The byte-order mark of UTF-8.
pub open spec fn bom() -> Seq<u8> {
    seq![0xEFu8, 0xBBu8, 0xBFu8]
}

/// A start tag without attributes: `<name>`.
pub open spec fn start_tag(name: Seq<char>) -> Seq<u8> {
    seq![0x3Cu8] + encode_utf8(name) + seq![0x3Eu8]
}

/// A start tag with one attribute: `<name key="value">`, the value escaped.
pub open spec fn start_tag_with(name: Seq<char>, key: Seq<char>, value: Seq<char>) -> Seq<u8> {
    seq![0x3Cu8] + encode_utf8(name) + seq![0x20u8] + encode_utf8(key) + seq![0x3Du8, 0x22u8]
        + encode_utf8(escaped(value, true)) + seq![0x22u8, 0x3Eu8]
}

/// An end tag: `</name>`.
pub open spec fn end_tag(name: Seq<char>) -> Seq<u8> {
    seq![0x3Cu8, 0x2Fu8] + encode_utf8(name) + seq![0x3Eu8]
}

/// An element that holds a text: `<name>text</name>`, the text escaped.
pub open spec fn text_element(name: Seq<char>, text: Seq<char>) -> Seq<u8> {
    start_tag(name) + encode_utf8(escaped(text, false)) + end_tag(name)
}

/// What a document begins with: the byte-order mark and the start of the
/// root, which declares the namespace.
pub open spec fn preamble(root: Seq<char>) -> Seq<u8> {
    bom() + start_tag_with(root, XMLNS@, NAMESPACE@)
}

/// The byte-order mark is valid UTF-8.
pub proof fn lemma_bom_is_valid()
    ensures
        valid_utf8(bom()),
{
    let mark = bom();
    assert((((0xEFu8 & 0x0F) as u32) << 12) | (((0xBBu8 & 0x3f) as u32) << 6) | ((0xBFu8 & 0x3f)
        as u32) == 0xFEFFu32) by (bit_vector);
    assert(vstd::utf8::valid_first_scalar(mark));
    assert(vstd::utf8::pop_first_scalar(mark) =~= Seq::<u8>::empty());
    assert(valid_utf8(Seq::<u8>::empty()));
}

/// Tags and the text between them are valid UTF-8.
pub proof fn lemma_tags_are_valid(name: Seq<char>, text: Seq<char>)
    ensures
        valid_utf8(start_tag(name)),
        valid_utf8(end_tag(name)),
        valid_utf8(text_element(name, text)),
{
    vstd::utf8::encode_utf8_valid_utf8(name);
    vstd::utf8::encode_utf8_valid_utf8(escaped(text, false));
    lemma_ascii_is_valid(seq![0x3Cu8]);
    lemma_ascii_is_valid(seq![0x3Eu8]);
    lemma_ascii_is_valid(seq![0x3Cu8, 0x2Fu8]);
    lemma_valid_concat(seq![0x3Cu8], encode_utf8(name));
    lemma_valid_concat(seq![0x3Cu8] + encode_utf8(name), seq![0x3Eu8]);
    lemma_valid_concat(seq![0x3Cu8, 0x2Fu8], encode_utf8(name));
    lemma_valid_concat(seq![0x3Cu8, 0x2Fu8] + encode_utf8(name), seq![0x3Eu8]);
    lemma_valid_concat(start_tag(name), encode_utf8(escaped(text, false)));
    lemma_valid_concat(start_tag(name) + encode_utf8(escaped(text, false)), end_tag(name));
}

/// What a document begins with is valid UTF-8.
pub proof fn lemma_preamble_is_valid(root: Seq<char>)
    ensures
        valid_utf8(preamble(root)),
{
    let value = encode_utf8(escaped(NAMESPACE@, true));
    vstd::utf8::encode_utf8_valid_utf8(root);
    vstd::utf8::encode_utf8_valid_utf8(XMLNS@);
    vstd::utf8::encode_utf8_valid_utf8(escaped(NAMESPACE@, true));
    lemma_ascii_is_valid(seq![0x3Cu8]);
    lemma_ascii_is_valid(seq![0x20u8]);
    lemma_ascii_is_valid(seq![0x3Du8, 0x22u8]);
    lemma_ascii_is_valid(seq![0x22u8, 0x3Eu8]);
    let a = seq![0x3Cu8] + encode_utf8(root);
    lemma_valid_concat(seq![0x3Cu8], encode_utf8(root));
    let b = a + seq![0x20u8];
    lemma_valid_concat(a, seq![0x20u8]);
    let c = b + encode_utf8(XMLNS@);
    lemma_valid_concat(b, encode_utf8(XMLNS@));
    let d = c + seq![0x3Du8, 0x22u8];
    lemma_valid_concat(c, seq![0x3Du8, 0x22u8]);
    let e = d + value;
    lemma_valid_concat(d, value);
    lemma_valid_concat(e, seq![0x22u8, 0x3Eu8]);
    lemma_bom_is_valid();
    lemma_valid_concat(bom(), start_tag_with(root, XMLNS@, NAMESPACE@));
}

/// The kinds of events that a document is read as.
#[derive(Debug, Clone, Copy, PartialEq, Eq, Structural)]
pub enum XmlEventKind {
    /// A start tag; the content is what stands between `<` and `>`.
    Start,
    /// An end tag; the content is its name.
    End,
    /// The tag of an element without content; the content is as of `Start`.
    Empty,
    /// Character data, as it stands in the document.
    Text,
    /// The character data of a CDATA section.
    CData,
    /// A reference; the content is what stands between `&` and `;`.
    Reference,
    /// A declaration, a comment, a processing instruction or a document
    /// type.
    Other,
    /// The end of the input.
    Eof,
    /// The input is no XML here.
    Malformed,
}

/// An event of a document, and where the input goes on behind it.
pub struct Token {
    pub kind: XmlEventKind,
    pub content: Seq<char>,
    pub end: int,
}

/// An event as it was read.
#[derive(Debug, Clone, PartialEq, Eq)]
pub struct XmlEvent {
    pub kind: XmlEventKind,
    pub content: String,
    pub end: usize,
}

impl View for XmlEvent {
    type V = Token;

    open spec fn view(&self) -> Token {
        Token { kind: self.kind, content: self.content@, end: self.end as int }
    }
}

/// The event that a `quick_xml::Reader` reads first from an input, when it
/// lets end tags stand alone; `end` is the position that the reader then
/// reports.
pub uninterp spec fn event_at(input: Seq<u8>) -> Token;

/// The text that `quick_xml::escape::unescape` makes of a text with
/// references; `None` where a reference is unknown.
pub uninterp spec fn unescaped(text: Seq<char>) -> Option<Seq<char>>;

/// Calls `quick_xml::Reader::read_event` on a reader of the input that lets
/// end tags stand alone. What comes back is the named event: the kind, the
/// content as the reader hands it out, and the reader's position as `end`.
#[verifier::external_body]
pub(crate) fn read_event(input: &[u8]) -> (r: XmlEvent)
    ensures
        r@ == event_at(input@),
{
    let mut reader = Reader::from_reader(input);
    reader.config_mut().allow_unmatched_ends = true;
    let event = reader.read_event();
    let kind = match &event {
        Ok(Event::Start(_)) => XmlEventKind::Start,
        Ok(Event::End(_)) => XmlEventKind::End,
        Ok(Event::Empty(_)) => XmlEventKind::Empty,
        Ok(Event::Text(_)) => XmlEventKind::Text,
        Ok(Event::CData(_)) => XmlEventKind::CData,
        Ok(Event::GeneralRef(_)) => XmlEventKind::Reference,
        Ok(Event::Eof) => XmlEventKind::Eof,
        Ok(_) => XmlEventKind::Other,
        Err(_) => XmlEventKind::Malformed,
    };
    XmlEvent { kind, content: event.as_deref().unwrap_or("").to_string(), end: reader.buffer_position() as usize }
}

/// Calls `quick_xml::escape::unescape`. The call succeeds exactly where the
/// named text exists, and the text that comes back is that text.
#[verifier::external_body]
pub(crate) fn unescape(text: &str) -> (r: Option<String>)
    ensures
        match r {
            Some(plain) => unescaped(text@) == Some(plain@),
            None => unescaped(text@) is None,
        },
{
    quick_xml::escape::unescape(text).ok().map(String::from)
}

/// Calls `quick_xml::Writer::write_bom` on a writer into the sink, which
/// appends the three bytes of the byte-order mark. A write into a byte
/// vector does not fail.
#[verifier::external_body]
pub(crate) fn write_bom(sink: &mut Vec<u8>)
    ensures
        final(sink)@ == old(sink)@ + bom(),
{
    quick_xml::Writer::new(sink).write_bom().unwrap_or(())
}

/// Calls `quick_xml::Writer::write_event` with the start of an element that
/// has one attribute, which appends `<`, the name, a space, the key, `="`,
/// the escaped value and `">`. A write into a byte vector does not fail.
#[verifier::external_body]
pub(crate) fn write_start_with(sink: &mut Vec<u8>, name: &str, key: &str, value: &str)
    ensures
        final(sink)@ == old(sink)@ + start_tag_with(name@, key@, value@),
{
    let tag = quick_xml::events::BytesStart::new(name).with_attributes([(key, value)]);
    quick_xml::Writer::new(sink).write_event(quick_xml::events::Event::Start(tag)).unwrap_or(())
}

/// Calls `quick_xml::Writer::write_event` with the start of an element,
/// which appends `<`, the name and `>`. A write into a byte vector does not
/// fail.
#[verifier::external_body]
pub(crate) fn write_start(sink: &mut Vec<u8>, name: &str)
    ensures
        final(sink)@ == old(sink)@ + start_tag(name@),
{
    let tag = quick_xml::events::BytesStart::new(name);
    quick_xml::Writer::new(sink).write_event(quick_xml::events::Event::Start(tag)).unwrap_or(())
}

/// Calls `quick_xml::Writer::write_event` with the end of an element, which
/// appends `</`, the name and `>`. A write into a byte vector does not fail.
#[verifier::external_body]
pub(crate) fn write_end(sink: &mut Vec<u8>, name: &str)
    ensures
        final(sink)@ == old(sink)@ + end_tag(name@),
{
    let tag = quick_xml::events::BytesEnd::new(name);
    quick_xml::Writer::new(sink).write_event(quick_xml::events::Event::End(tag)).unwrap_or(())
}

/// Calls `quick_xml::writer::ElementWriter::write_text_content` on an
/// element of the given name, which appends the start tag, the escaped text
/// and the end tag. A write into a byte vector does not fail.
#[verifier::external_body]
pub(crate) fn write_text_element(sink: &mut Vec<u8>, name: &str, text: &str)
    ensures
        final(sink)@ == old(sink)@ + text_element(name@, text@),
{
    let text = quick_xml::events::BytesText::new(text);
    quick_xml::Writer::new(sink).create_element(name).write_text_content(text).map(|_| ()).unwrap_or(())
}

} // verus!
