//! The XML form: a root element with one element per record.
//!
//! The document is read event by event. Declarations, comments and blank
//! text between elements are passed over. A unit is the element of one
//! record. A unit whose attributes do not all hold what their grammar asks
//! for is counted and skipped; anything that is out of place in the
//! document ends the parsing. The bytes that are counted are those of the
//! units.

use std::marker::PhantomData;
use vstd::prelude::*;
use vstd::slice::slice_subrange;
use vstd::string::StringExecFns;
use vstd::utf8::encode_utf8;

use crate::attribute::frequency::ChangeFrequency;
use crate::attribute::location::Location;
use crate::attribute::modified::LastModified;
use crate::attribute::priority::Priority;
use crate::attribute::text::{trim, trimmed};
use crate::attribute::Attribute;
use crate::limits::{assess, spec_assess, Admission, BYTES_LIMIT, RECORDS_LIMIT};
use crate::parse::{Parser, ParserStat};
use crate::record::index::{IndexModel, IndexRecord};
use crate::record::sitemap::{SitemapModel, SitemapRecord};
use crate::xml::{
    event_at, read_event, unescape, unescaped, Token, XmlEvent, XmlEventKind, CHANGE_FREQUENCY,
    LAST_MODIFIED, LOCATION, PRIORITY, SITEMAP, SITEMAP_INDEX, URL, URL_SET,
};

verus! {

/// Why the XML parser stopped, or passed over a unit.
#[derive(Debug, Clone, Copy, PartialEq, Eq, Structural)]
pub enum XmlParserError {
    /// The document holds more units than it may.
    TooManyRecords,
    /// The next unit would take the document this many bytes over the limit.
    TooManyBytes(usize),
    /// An attribute of the unit does not hold what its grammar asks for.
    /// `next` skips such a unit.
    IncorrectFormat,
    /// The document is no XML, or something in it is out of place.
    Malformed,
}

/// The elements that a unit may hold.
#[derive(Debug, Clone, Copy, PartialEq, Eq, Structural)]
pub enum Field {
    Location,
    LastModified,
    ChangeFrequency,
    Priority,
}

/// The texts of the elements of a unit, as far as it holds them.
pub struct Fields {
    pub location: Option<Seq<char>>,
    pub last_modified: Option<Seq<char>>,
    pub change_frequency: Option<Seq<char>>,
    pub priority: Option<Seq<char>>,
}

/// The texts of the elements of a unit, as they were read.
#[derive(Debug, Clone, PartialEq, Eq)]
pub struct RawEntry {
    pub location: Option<String>,
    pub last_modified: Option<String>,
    pub change_frequency: Option<String>,
    pub priority: Option<String>,
}

/// How far the parser has come in the document.
#[derive(Debug, Clone, Copy, PartialEq, Eq, Structural)]
pub enum Stage {
    /// Before the root element.
    Prolog,
    /// Among the units.
    Body,
    /// Behind the root element.
    Done,
}

/// How far a parser has come: the bytes and the units that it has taken,
/// where it goes on reading, and in which part of the document that is.
pub struct XmlCursor {
    pub bytes: nat,
    pub records: nat,
    pub source: Seq<u8>,
    pub position: nat,
    pub stage: Stage,
}

/// The names that tell a sitemap from a sitemap index: the root, the
/// element of a unit, and whether the unit is one of an index.
pub struct Dialect {
    pub root: Seq<u8>,
    pub entry: Seq<u8>,
    pub index: bool,
}

/// The text of an optional text.
pub open spec fn text_view(text: Option<String>) -> Option<Seq<char>> {
    match text {
        Some(text) => Some(text@),
        None => None,
    }
}

impl View for RawEntry {
    type V = Fields;

    open spec fn view(&self) -> Fields {
        Fields {
            location: text_view(self.location),
            last_modified: text_view(self.last_modified),
            change_frequency: text_view(self.change_frequency),
            priority: text_view(self.priority),
        }
    }
}

impl Fields {
    /// A unit that holds nothing.
    pub open spec fn empty() -> Fields {
        Fields { location: None, last_modified: None, change_frequency: None, priority: None }
    }

    /// The text of one element.
    pub open spec fn get(self, field: Field) -> Option<Seq<char>> {
        match field {
            Field::Location => self.location,
            Field::LastModified => self.last_modified,
            Field::ChangeFrequency => self.change_frequency,
            Field::Priority => self.priority,
        }
    }

    /// The unit with the text of one element set.
    pub open spec fn with(self, field: Field, text: Seq<char>) -> Fields {
        match field {
            Field::Location => Fields { location: Some(text), ..self },
            Field::LastModified => Fields { last_modified: Some(text), ..self },
            Field::ChangeFrequency => Fields { change_frequency: Some(text), ..self },
            Field::Priority => Fields { priority: Some(text), ..self },
        }
    }
}

impl Field {
    /// The name of the element.
    pub open spec fn spec_name(self) -> Seq<char> {
        match self {
            Field::Location => LOCATION@,
            Field::LastModified => LAST_MODIFIED@,
            Field::ChangeFrequency => CHANGE_FREQUENCY@,
            Field::Priority => PRIORITY@,
        }
    }

    /// The name of the element.
    pub fn name(&self) -> (r: &'static str)
        ensures
            r@ == self.spec_name(),
    {
        match self {
            Field::Location => LOCATION,
            Field::LastModified => LAST_MODIFIED,
            Field::ChangeFrequency => CHANGE_FREQUENCY,
            Field::Priority => PRIORITY,
        }
    }
}

impl XmlCursor {
    /// The cursor of a parser that has just taken over a source.
    pub open spec fn fresh(source: Seq<u8>) -> XmlCursor {
        XmlCursor { bytes: 0, records: 0, source, position: 0, stage: Stage::Prolog }
    }

    /// The cursor at another place of the document.
    pub open spec fn at(self, position: int, stage: Stage) -> XmlCursor {
        XmlCursor { position: position as nat, stage, ..self }
    }

    /// The cursor behind a unit that began at `from` and ends at `end`.
    pub open spec fn behind(self, from: int, end: int) -> XmlCursor {
        XmlCursor {
            bytes: (self.bytes + end - from) as nat,
            records: self.records + 1,
            source: self.source,
            position: end as nat,
            stage: Stage::Body,
        }
    }
}

/// Whether a byte is white space of XML.
pub open spec fn is_space(byte: u8) -> bool {
    byte == 0x20 || byte == 0x09 || byte == 0x0A || byte == 0x0D
}

/// Whether a text is white space throughout.
pub open spec fn is_blank(bytes: Seq<u8>) -> bool {
    forall|i: int| 0 <= i < bytes.len() ==> is_space(#[trigger] bytes[i])
}

/// Whether the content of a tag begins with the given name, and the name
/// ends there.
pub open spec fn tag_named(content: Seq<u8>, name: Seq<u8>) -> bool {
    &&& name.len() <= content.len()
    &&& content.subrange(0, name.len() as int) == name
    &&& (content.len() == name.len() || is_space(content[name.len() as int]))
}

/// Whether a byte-order mark stands at `from`.
pub open spec fn marked(source: Seq<u8>, from: int) -> bool {
    &&& 0 <= from
    &&& from + 3 <= source.len()
    &&& source[from] == 0xEF
    &&& source[from + 1] == 0xBB
    &&& source[from + 2] == 0xBF
}

/// Where the byte-order marks that stand at `from` end.
pub open spec fn marks_end(source: Seq<u8>, from: int) -> int
    decreases source.len() - from,
{
    if marked(source, from) {
        marks_end(source, from + 3)
    } else {
        from
    }
}

/// The event that is read at `from`, and where the source goes on behind
/// it. The reader is given the source behind the byte-order marks that
/// stand at `from`: they are no part of the document, and the reader does
/// not count them. The end of the input ends at the end of the source. An
/// event that would not take the reader forward within the source is
/// malformed, and ends where it began.
pub open spec fn event(source: Seq<u8>, from: int) -> Token {
    let start = marks_end(source, from);
    let read = event_at(source.subrange(start, source.len() as int));
    if from < 0 || from > source.len() {
        Token { kind: XmlEventKind::Malformed, content: Seq::empty(), end: from }
    } else if read.kind == XmlEventKind::Eof {
        Token { kind: XmlEventKind::Eof, content: read.content, end: source.len() as int }
    } else if read.kind != XmlEventKind::Malformed && 0 < read.end <= source.len() - start {
        Token { kind: read.kind, content: read.content, end: start + read.end }
    } else {
        Token { kind: XmlEventKind::Malformed, content: read.content, end: from }
    }
}

/// Whether an event is passed over between elements: it is blank text, or
/// no part of the content at all.
pub open spec fn passed_over(token: Token) -> bool {
    token.kind == XmlEventKind::Other || (token.kind == XmlEventKind::Text && is_blank(
        encode_utf8(token.content),
    ))
}

/// Where the first event stands that is not passed over, from `from` on.
pub open spec fn first_event_at(source: Seq<u8>, from: int) -> int
    decreases source.len() - from,
{
    let token = event(source, from);
    if passed_over(token) && from < token.end <= source.len() {
        first_event_at(source, token.end)
    } else {
        from
    }
}

/// The reference that a name stands for in a text: `&name;`.
pub open spec fn reference(name: Seq<char>) -> Seq<char> {
    "&"@ + name + ";"@
}

/// The text of an element whose start tag has been read, with what has been
/// gathered of it so far, and where the document goes on behind its end
/// tag: character data is taken as it stands, references are resolved,
/// comments are left out. `None` where something else stands before the end
/// tag, or the end tag has another name.
pub open spec fn element_text(source: Seq<u8>, from: int, name: Seq<u8>, so_far: Seq<char>)
    -> Option<(Seq<char>, int)>
    decreases source.len() - from,
{
    let token = event(source, from);
    if !(from < token.end <= source.len()) {
        None
    } else if token.kind == XmlEventKind::Text || token.kind == XmlEventKind::CData {
        element_text(source, token.end, name, so_far + token.content)
    } else if token.kind == XmlEventKind::Reference {
        match unescaped(reference(token.content)) {
            Some(text) => element_text(source, token.end, name, so_far + text),
            None => None,
        }
    } else if token.kind == XmlEventKind::Other {
        element_text(source, token.end, name, so_far)
    } else if token.kind == XmlEventKind::End && tag_named(encode_utf8(token.content), name) {
        Some((so_far, token.end))
    } else {
        None
    }
}

/// The element that the content of a start tag names, if a unit may hold
/// it: the location and the last modification in any unit, the change
/// frequency and the priority in the unit of a sitemap only.
pub open spec fn field_of(content: Seq<u8>, index: bool) -> Option<Field> {
    if tag_named(content, encode_utf8(LOCATION@)) {
        Some(Field::Location)
    } else if tag_named(content, encode_utf8(LAST_MODIFIED@)) {
        Some(Field::LastModified)
    } else if !index && tag_named(content, encode_utf8(CHANGE_FREQUENCY@)) {
        Some(Field::ChangeFrequency)
    } else if !index && tag_named(content, encode_utf8(PRIORITY@)) {
        Some(Field::Priority)
    } else {
        None
    }
}

/// The texts of the elements of a unit whose start tag has been read, with
/// what has been gathered so far, and where the document goes on behind
/// the unit's end tag. `None` where the unit holds anything but elements
/// that it may hold, each at most once and with text alone.
pub open spec fn entry_fields(
    source: Seq<u8>,
    from: int,
    entry: Seq<u8>,
    index: bool,
    fields: Fields,
) -> Option<(Fields, int)>
    decreases source.len() - from,
{
    let token = event(source, from);
    if !(from < token.end <= source.len()) {
        None
    } else if passed_over(token) {
        entry_fields(source, token.end, entry, index, fields)
    } else if token.kind == XmlEventKind::End {
        if tag_named(encode_utf8(token.content), entry) {
            Some((fields, token.end))
        } else {
            None
        }
    } else if token.kind == XmlEventKind::Start || token.kind == XmlEventKind::Empty {
        match field_of(encode_utf8(token.content), index) {
            None => None,
            Some(field) => if fields.get(field) is Some {
                None
            } else if token.kind == XmlEventKind::Empty {
                entry_fields(source, token.end, entry, index, fields.with(field, Seq::empty()))
            } else {
                match element_text(
                    source,
                    token.end,
                    encode_utf8(field.spec_name()),
                    Seq::empty(),
                ) {
                    None => None,
                    Some((text, end)) => if token.end < end <= source.len() {
                        entry_fields(source, end, entry, index, fields.with(field, text))
                    } else {
                        None
                    },
                }
            },
        }
    } else {
        None
    }
}

/// What is found behind the root element: the end of the input and nothing
/// else.
pub open spec fn at_end(before: XmlCursor) -> (XmlCursor, Result<Option<Fields>, XmlParserError>) {
    let at = first_event_at(before.source, before.position as int);
    if event(before.source, at).kind == XmlEventKind::Eof {
        (before.at(at, Stage::Done), Ok(None))
    } else {
        (before.at(at, Stage::Done), Err(XmlParserError::Malformed))
    }
}

/// What is found among the units: the end of the root, or a unit. A unit
/// is refused where the record limit is reached, before any of it is read,
/// and where its bytes would cross the byte limit; a refused unit is not
/// taken.
pub open spec fn in_body(before: XmlCursor, dialect: Dialect) -> (
    XmlCursor,
    Result<Option<Fields>, XmlParserError>,
) {
    let at = first_event_at(before.source, before.position as int);
    let token = event(before.source, at);
    let here = before.at(at, Stage::Body);
    if !(at < token.end <= before.source.len()) {
        (here, Err(XmlParserError::Malformed))
    } else if token.kind == XmlEventKind::End && tag_named(
        encode_utf8(token.content),
        dialect.root,
    ) {
        at_end(before.at(token.end, Stage::Done))
    } else if (token.kind == XmlEventKind::Start || token.kind == XmlEventKind::Empty)
        && tag_named(encode_utf8(token.content), dialect.entry) {
        if before.records >= RECORDS_LIMIT {
            (here, Err(XmlParserError::TooManyRecords))
        } else {
            let read = if token.kind == XmlEventKind::Empty {
                Some((Fields::empty(), token.end))
            } else {
                entry_fields(
                    before.source,
                    token.end,
                    dialect.entry,
                    dialect.index,
                    Fields::empty(),
                )
            };
            match read {
                None => (here, Err(XmlParserError::Malformed)),
                Some((fields, end)) => if !(at < end <= before.source.len()) {
                    (here, Err(XmlParserError::Malformed))
                } else {
                    match spec_assess(before.bytes as int, before.records as int, end - at) {
                        Admission::Accepted => (before.behind(at, end), Ok(Some(fields))),
                        Admission::TooManyRecords => (
                            here,
                            Err(XmlParserError::TooManyRecords),
                        ),
                        Admission::TooManyBytes(excess) => (
                            here,
                            Err(XmlParserError::TooManyBytes(excess)),
                        ),
                    }
                },
            }
        }
    } else {
        (here, Err(XmlParserError::Malformed))
    }
}

/// What is found before the root element: the root, behind which the units
/// follow.
pub open spec fn in_prolog(before: XmlCursor, dialect: Dialect) -> (
    XmlCursor,
    Result<Option<Fields>, XmlParserError>,
) {
    let at = first_event_at(before.source, before.position as int);
    let token = event(before.source, at);
    if !(at < token.end <= before.source.len()) || !tag_named(
        encode_utf8(token.content),
        dialect.root,
    ) {
        (before.at(at, Stage::Prolog), Err(XmlParserError::Malformed))
    } else if token.kind == XmlEventKind::Start {
        in_body(before.at(token.end, Stage::Body), dialect)
    } else if token.kind == XmlEventKind::Empty {
        at_end(before.at(token.end, Stage::Done))
    } else {
        (before.at(at, Stage::Prolog), Err(XmlParserError::Malformed))
    }
}

/// Where one step leaves the parser, and what it finds: the texts of the
/// next unit, nothing at the end of the document, or the reason why it
/// stopped.
#[verifier::opaque]
pub open spec fn step(before: XmlCursor, dialect: Dialect) -> (
    XmlCursor,
    Result<Option<Fields>, XmlParserError>,
) {
    match before.stage {
        Stage::Prolog => in_prolog(before, dialect),
        Stage::Body => in_body(before, dialect),
        Stage::Done => at_end(before),
    }
}

/// The attribute that an optional text holds: nothing for no text, and
/// `None` for a text that does not hold the attribute.
pub open spec fn optional<T>(text: Option<Seq<char>>, parsed: spec_fn(Seq<char>) -> Option<T>)
    -> Option<Option<T>> {
    match text {
        None => Some(None),
        Some(text) => match parsed(text) {
            Some(value) => Some(Some(value)),
            None => None,
        },
    }
}

/// The last modification that a text holds, white space around it aside.
pub open spec fn modified_of(text: Seq<char>) -> Option<crate::attribute::modified::Timestamp> {
    LastModified::spec_parse(trimmed(text))
}

/// The change frequency that a text holds.
pub open spec fn frequency_of(text: Seq<char>) -> Option<ChangeFrequency> {
    match ChangeFrequency::spec_parse(text) {
        Ok(frequency) => Some(frequency),
        Err(_) => None,
    }
}

/// The priority that a text holds, white space around it aside.
pub open spec fn priority_of(text: Seq<char>) -> Option<int> {
    match Priority::spec_parse(trimmed(text)) {
        Ok(priority) => Some(priority),
        Err(_) => None,
    }
}

/// The sitemap record that the texts of a unit stand for: the unit has a
/// location, and every text holds its attribute.
pub open spec fn sitemap_of(fields: Fields) -> Option<SitemapModel> {
    match fields.location {
        None => None,
        Some(text) => match (
            Location::spec_parse(text),
            optional(fields.last_modified, |text: Seq<char>| modified_of(text)),
            optional(fields.change_frequency, |text: Seq<char>| frequency_of(text)),
            optional(fields.priority, |text: Seq<char>| priority_of(text)),
        ) {
            (Some(location), Some(last_modified), Some(change_frequency), Some(priority)) => Some(
                SitemapModel { location, last_modified, change_frequency, priority },
            ),
            _ => None,
        },
    }
}

/// The index record that the texts of a unit stand for.
pub open spec fn index_of(fields: Fields) -> Option<IndexModel> {
    match fields.location {
        None => None,
        Some(text) => match (
            Location::spec_parse(text),
            optional(fields.last_modified, |text: Seq<char>| modified_of(text)),
        ) {
            (Some(location), Some(last_modified)) => Some(IndexModel { location, last_modified }),
            _ => None,
        },
    }
}

/// The names of a sitemap.
pub open spec fn sitemap_dialect() -> Dialect {
    Dialect { root: encode_utf8(URL_SET@), entry: encode_utf8(URL@), index: false }
}

/// The names of a sitemap index.
pub open spec fn index_dialect() -> Dialect {
    Dialect { root: encode_utf8(SITEMAP_INDEX@), entry: encode_utf8(SITEMAP@), index: true }
}

/// Whether a text is white space throughout.
pub fn blank(content: &str) -> (r: bool)
    ensures
        r == is_blank(encode_utf8(content@)),
{
    let bytes = content.as_bytes();
    let mut at: usize = 0;
    while at < bytes.len()
        invariant
            at <= bytes@.len(),
            bytes@ == encode_utf8(content@),
            forall|k: int| 0 <= k < at ==> is_space(#[trigger] bytes@[k]),
        decreases bytes@.len() - at,
    {
        let byte = bytes[at];
        if !(byte == 0x20 || byte == 0x09 || byte == 0x0A || byte == 0x0D) {
            assert(!is_space(bytes@[at as int]));
            return false;
        }
        at += 1;
    }
    true
}

/// Whether the content of a tag begins with the given name, and the name
/// ends there.
pub fn names_tag(content: &str, name: &str) -> (r: bool)
    ensures
        r == tag_named(encode_utf8(content@), encode_utf8(name@)),
{
    let tag = content.as_bytes();
    let wanted = name.as_bytes();
    if wanted.len() > tag.len() {
        return false;
    }
    let mut at: usize = 0;
    while at < wanted.len()
        invariant
            at <= wanted@.len() <= tag@.len(),
            tag@ == encode_utf8(content@),
            wanted@ == encode_utf8(name@),
            forall|k: int| 0 <= k < at ==> tag@[k] == wanted@[k],
        decreases wanted@.len() - at,
    {
        if tag[at] != wanted[at] {
            assert(!tag_named(tag@, wanted@)) by {
                let head = tag@.subrange(0, wanted@.len() as int);
                assert(head[at as int] == tag@[at as int]);
            }
            return false;
        }
        at += 1;
    }
    assert(tag@.subrange(0, wanted@.len() as int) =~= wanted@);
    if tag.len() == wanted.len() {
        true
    } else {
        let byte = tag[wanted.len()];
        byte == 0x20 || byte == 0x09 || byte == 0x0A || byte == 0x0D
    }
}

/// Finds where the byte-order marks that stand at `from` end.
pub fn skip_marks(source: &[u8], from: usize) -> (end: usize)
    ensures
        end == marks_end(source@, from as int),
        from <= end,
        from <= source@.len() ==> end <= source@.len(),
{
    if from > source.len() {
        return from;
    }
    let mut at: usize = from;
    while source.len() - at >= 3 && source[at] == 0xEF && source[at + 1] == 0xBB && source[at + 2]
        == 0xBF
        invariant
            from <= at <= source@.len(),
            marks_end(source@, from as int) == marks_end(source@, at as int),
        decreases source@.len() - at,
    {
        at += 3;
    }
    at
}

/// Reads the event at `from`. Past the end of the source nothing is read.
pub fn next_event(source: &[u8], from: usize) -> (r: XmlEvent)
    ensures
        r@ == event(source@, from as int),
{
    if from > source.len() {
        return XmlEvent { kind: XmlEventKind::Malformed, content: String::new(), end: from };
    }
    let start = skip_marks(source, from);
    let read = read_event(slice_subrange(source, start, source.len()));
    match read.kind {
        XmlEventKind::Eof => XmlEvent {
            kind: XmlEventKind::Eof,
            content: read.content,
            end: source.len(),
        },
        XmlEventKind::Malformed => XmlEvent {
            kind: XmlEventKind::Malformed,
            content: read.content,
            end: from,
        },
        kind => if 0 < read.end && read.end <= source.len() - start {
            XmlEvent { kind, content: read.content, end: start + read.end }
        } else {
            XmlEvent { kind: XmlEventKind::Malformed, content: read.content, end: from }
        },
    }
}

/// Whether an event is passed over between elements.
pub fn passes_over(token: &XmlEvent) -> (r: bool)
    ensures
        r == passed_over(token@),
{
    match token.kind {
        XmlEventKind::Other => true,
        XmlEventKind::Text => blank(token.content.as_str()),
        _ => false,
    }
}

/// Finds the first event from `from` on that is not passed over.
pub fn first_event(source: &[u8], from: usize) -> (r: (usize, XmlEvent))
    ensures
        r.0 == first_event_at(source@, from as int),
        from <= r.0,
        from <= source@.len() ==> r.0 <= source@.len(),
        r.1@ == event(source@, r.0 as int),
{
    let mut at: usize = from;
    loop
        invariant
            from <= at,
            from <= source@.len() ==> at <= source@.len(),
            first_event_at(source@, from as int) == first_event_at(source@, at as int),
        decreases source@.len() - at,
    {
        let token = next_event(source, at);
        if passes_over(&token) && at < token.end && token.end <= source.len() {
            at = token.end;
        } else {
            return (at, token);
        }
    }
}

/// Reads the text of an element whose start tag has been read.
pub fn read_text(source: &[u8], from: usize, name: &str) -> (r: Option<(String, usize)>)
    ensures
        match r {
            Some((text, end)) => element_text(
                source@,
                from as int,
                encode_utf8(name@),
                Seq::empty(),
            ) == Some((text@, end as int)) && from < end <= source@.len(),
            None => element_text(source@, from as int, encode_utf8(name@), Seq::empty()) is None,
        },
{
    let mut at: usize = from;
    let mut text = String::new();
    let mut moved = false;
    loop
        invariant
            from <= at,
            moved ==> from < at,
            element_text(source@, from as int, encode_utf8(name@), Seq::empty()) == element_text(
                source@,
                at as int,
                encode_utf8(name@),
                text@,
            ),
        decreases source@.len() - at,
    {
        let token = next_event(source, at);
        if !(at < token.end && token.end <= source.len()) {
            return None;
        }
        match token.kind {
            XmlEventKind::Text | XmlEventKind::CData => {
                text.append(token.content.as_str());
            },
            XmlEventKind::Reference => {
                let mut written = String::new();
                written.append("&");
                written.append(token.content.as_str());
                written.append(";");
                match unescape(written.as_str()) {
                    Some(plain) => {
                        text.append(plain.as_str());
                    },
                    None => {
                        return None;
                    },
                }
            },
            XmlEventKind::Other => {},
            XmlEventKind::End => {
                if names_tag(token.content.as_str(), name) {
                    return Some((text, token.end));
                } else {
                    return None;
                }
            },
            _ => {
                return None;
            },
        }
        at = token.end;
        moved = true;
    }
}

/// Tells which element the content of a start tag names.
pub fn field_named(content: &str, index: bool) -> (r: Option<Field>)
    ensures
        r == field_of(encode_utf8(content@), index),
{
    if names_tag(content, LOCATION) {
        Some(Field::Location)
    } else if names_tag(content, LAST_MODIFIED) {
        Some(Field::LastModified)
    } else if !index && names_tag(content, CHANGE_FREQUENCY) {
        Some(Field::ChangeFrequency)
    } else if !index && names_tag(content, PRIORITY) {
        Some(Field::Priority)
    } else {
        None
    }
}

impl RawEntry {
    /// A unit that holds nothing.
    pub fn new() -> (r: Self)
        ensures
            r@ == Fields::empty(),
    {
        RawEntry { location: None, last_modified: None, change_frequency: None, priority: None }
    }

    /// Whether the unit holds the element.
    pub fn has(&self, field: Field) -> (r: bool)
        ensures
            r == self@.get(field) is Some,
    {
        match field {
            Field::Location => self.location.is_some(),
            Field::LastModified => self.last_modified.is_some(),
            Field::ChangeFrequency => self.change_frequency.is_some(),
            Field::Priority => self.priority.is_some(),
        }
    }

    /// Sets the text of an element.
    pub fn set(&mut self, field: Field, text: String)
        ensures
            final(self)@ == old(self)@.with(field, text@),
    {
        match field {
            Field::Location => {
                self.location = Some(text);
            },
            Field::LastModified => {
                self.last_modified = Some(text);
            },
            Field::ChangeFrequency => {
                self.change_frequency = Some(text);
            },
            Field::Priority => {
                self.priority = Some(text);
            },
        }
    }
}

/// Reads the elements of a unit whose start tag has been read.
pub fn read_entry(source: &[u8], from: usize, entry: &str, index: bool) -> (r: Option<
    (RawEntry, usize),
>)
    ensures
        match r {
            Some((raw, end)) => entry_fields(
                source@,
                from as int,
                encode_utf8(entry@),
                index,
                Fields::empty(),
            ) == Some((raw@, end as int)) && from < end <= source@.len(),
            None => entry_fields(source@, from as int, encode_utf8(entry@), index, Fields::empty())
                is None,
        },
{
    let mut at: usize = from;
    let mut raw = RawEntry::new();
    loop
        invariant
            from <= at,
            at == from ==> raw@ == Fields::empty(),
            entry_fields(source@, from as int, encode_utf8(entry@), index, Fields::empty())
                == entry_fields(source@, at as int, encode_utf8(entry@), index, raw@),
        decreases source@.len() - at,
    {
        let token = next_event(source, at);
        if !(at < token.end && token.end <= source.len()) {
            return None;
        }
        if passes_over(&token) {
            at = token.end;
        } else {
            match token.kind {
                XmlEventKind::End => {
                    if names_tag(token.content.as_str(), entry) {
                        return Some((raw, token.end));
                    } else {
                        return None;
                    }
                },
                XmlEventKind::Start | XmlEventKind::Empty => {
                    let field = match field_named(token.content.as_str(), index) {
                        Some(field) => field,
                        None => {
                            return None;
                        },
                    };
                    if raw.has(field) {
                        return None;
                    }
                    match token.kind {
                        XmlEventKind::Empty => {
                            raw.set(field, String::new());
                            at = token.end;
                        },
                        _ => {
                            match read_text(source, token.end, field.name()) {
                                None => {
                                    return None;
                                },
                                Some((text, end)) => {
                                    raw.set(field, text);
                                    at = end;
                                },
                            }
                        },
                    }
                },
                _ => {
                    return None;
                },
            }
        }
    }
}

/// Reads the last modification that an optional text holds.
pub fn read_modified(text: &Option<String>) -> (r: Option<Option<LastModified>>)
    ensures
        match r {
            Some(Some(modified)) => optional(text_view(*text), |text: Seq<char>| modified_of(text))
                == Some(Some(modified@)),
            Some(None) => optional(text_view(*text), |text: Seq<char>| modified_of(text)) == Some(
                None::<crate::attribute::modified::Timestamp>,
            ),
            None => optional(text_view(*text), |text: Seq<char>| modified_of(text)) is None,
        },
{
    match text {
        None => Some(None),
        Some(text) => match LastModified::parse(trim(text.as_str())) {
            Ok(modified) => Some(Some(modified)),
            Err(_) => None,
        },
    }
}

/// Reads the change frequency that an optional text holds.
pub fn read_frequency(text: &Option<String>) -> (r: Option<Option<ChangeFrequency>>)
    ensures
        r == optional(text_view(*text), |text: Seq<char>| frequency_of(text)),
{
    match text {
        None => Some(None),
        Some(text) => match ChangeFrequency::parse(text.as_str()) {
            Ok(frequency) => Some(Some(frequency)),
            Err(_) => None,
        },
    }
}

/// Reads the priority that an optional text holds.
pub fn read_priority(text: &Option<String>) -> (r: Option<Option<Priority>>)
    ensures
        match r {
            Some(Some(priority)) => optional(text_view(*text), |text: Seq<char>| priority_of(text))
                == Some(Some(priority@)),
            Some(None) => optional(text_view(*text), |text: Seq<char>| priority_of(text)) == Some(
                None::<int>,
            ),
            None => optional(text_view(*text), |text: Seq<char>| priority_of(text)) is None,
        },
{
    match text {
        None => Some(None),
        Some(text) => match Priority::parse(trim(text.as_str())) {
            Ok(priority) => Some(Some(priority)),
            Err(_) => None,
        },
    }
}

/// Makes the sitemap record that the texts of a unit stand for.
pub fn decode_sitemap(raw: &RawEntry) -> (r: Option<SitemapRecord>)
    ensures
        match r {
            Some(record) => sitemap_of(raw@) == Some(record@),
            None => sitemap_of(raw@) is None,
        },
{
    let location = match &raw.location {
        None => {
            return None;
        },
        Some(text) => match Location::parse(text.as_str()) {
            Ok(location) => location,
            Err(_) => {
                return None;
            },
        },
    };
    let last_modified = match read_modified(&raw.last_modified) {
        Some(last_modified) => last_modified,
        None => {
            return None;
        },
    };
    let change_frequency = match read_frequency(&raw.change_frequency) {
        Some(change_frequency) => change_frequency,
        None => {
            return None;
        },
    };
    let priority = match read_priority(&raw.priority) {
        Some(priority) => priority,
        None => {
            return None;
        },
    };
    Some(SitemapRecord { location, last_modified, change_frequency, priority })
}

/// Makes the index record that the texts of a unit stand for.
pub fn decode_index(raw: &RawEntry) -> (r: Option<IndexRecord>)
    ensures
        match r {
            Some(record) => index_of(raw@) == Some(record@),
            None => index_of(raw@) is None,
        },
{
    let location = match &raw.location {
        None => {
            return None;
        },
        Some(text) => match Location::parse(text.as_str()) {
            Ok(location) => location,
            Err(_) => {
                return None;
            },
        },
    };
    let last_modified = match read_modified(&raw.last_modified) {
        Some(last_modified) => last_modified,
        None => {
            return None;
        },
    };
    Some(IndexRecord { location, last_modified })
}

/// Whether the texts of a unit stand for a record.
pub open spec fn stands(fields: Fields, index: bool) -> bool {
    if index {
        index_of(fields) is Some
    } else {
        sitemap_of(fields) is Some
    }
}

/// Whether `next` goes on behind the unit that the step finds: the unit was
/// taken, and its texts stand for no record.
pub open spec fn skips(before: XmlCursor, dialect: Dialect) -> bool {
    &&& step(before, dialect).1 matches Ok(Some(fields)) && !stands(fields, dialect.index)
    &&& before.position < step(before, dialect).0.position <= before.source.len()
    &&& step(before, dialect).0.source == before.source
}

/// Where `next` leaves the parser: behind the first unit that stands for a
/// record, or where the document or a limit ends the search.
pub open spec fn settle(before: XmlCursor, dialect: Dialect) -> XmlCursor
    decreases before.source.len() - before.position,
{
    if skips(before, dialect) {
        settle(step(before, dialect).0, dialect)
    } else {
        step(before, dialect).0
    }
}

/// What `next` finds: what the step finds at the first unit that is not
/// skipped.
pub open spec fn sought(before: XmlCursor, dialect: Dialect) -> Result<
    Option<Fields>,
    XmlParserError,
>
    decreases before.source.len() - before.position,
{
    if skips(before, dialect) {
        sought(step(before, dialect).0, dialect)
    } else {
        step(before, dialect).1
    }
}

/// The search for an event goes forward and stays within the source.
pub proof fn lemma_first_event_at(source: Seq<u8>, from: int)
    requires
        0 <= from <= source.len(),
    ensures
        from <= first_event_at(source, from) <= source.len(),
    decreases source.len() - from,
{
    let token = event(source, from);
    if passed_over(token) && from < token.end <= source.len() {
        lemma_first_event_at(source, token.end);
    }
}

/// Whether a step led from one cursor to another in the way of every
/// step: within the same source, forward, with no unit held to be ill
/// formed, and behind a unit where it hands one out.
pub open spec fn led(
    before: XmlCursor,
    after: (XmlCursor, Result<Option<Fields>, XmlParserError>),
) -> bool {
    &&& after.0.source == before.source
    &&& before.position <= after.0.position <= before.source.len()
    &&& after.1 != Err::<Option<Fields>, XmlParserError>(XmlParserError::IncorrectFormat)
    &&& after.1 matches Ok(Some(_)) ==> before.position < after.0.position
}

/// What holds of the step behind the root.
pub proof fn lemma_at_end(before: XmlCursor)
    requires
        before.position <= before.source.len(),
    ensures
        led(before, at_end(before)),
{
    lemma_first_event_at(before.source, before.position as int);
}

/// What holds of the step among the units.
pub proof fn lemma_in_body(before: XmlCursor, dialect: Dialect)
    requires
        before.position <= before.source.len(),
    ensures
        led(before, in_body(before, dialect)),
{
    lemma_first_event_at(before.source, before.position as int);
    let at = first_event_at(before.source, before.position as int);
    let token = event(before.source, at);
    if at < token.end <= before.source.len() {
        lemma_at_end(before.at(token.end, Stage::Done));
    }
}

/// What holds of the step before the root.
pub proof fn lemma_in_prolog(before: XmlCursor, dialect: Dialect)
    requires
        before.position <= before.source.len(),
    ensures
        led(before, in_prolog(before, dialect)),
{
    lemma_first_event_at(before.source, before.position as int);
    let at = first_event_at(before.source, before.position as int);
    let token = event(before.source, at);
    if at < token.end <= before.source.len() {
        lemma_at_end(before.at(token.end, Stage::Done));
        lemma_in_body(before.at(token.end, Stage::Body), dialect);
    }
}

/// Every step stays within its source and goes forward; it takes a unit
/// only where it hands one out, and then it stands behind that unit.
pub proof fn lemma_step(before: XmlCursor, dialect: Dialect)
    requires
        before.position <= before.source.len(),
    ensures
        led(before, step(before, dialect)),
{
    reveal(step);
    lemma_at_end(before);
    lemma_in_body(before, dialect);
    lemma_in_prolog(before, dialect);
}

/// The texts of what a step hands out.
pub open spec fn outcome(r: Result<Option<RawEntry>, XmlParserError>) -> Result<
    Option<Fields>,
    XmlParserError,
> {
    match r {
        Ok(Some(raw)) => Ok(Some(raw@)),
        Ok(None) => Ok(None),
        Err(error) => Err(error),
    }
}

/// A parser of XML documents of records of type `D`.
pub struct XmlParser<D> {
    record: PhantomData<D>,
    read_bytes: usize,
    read_records: usize,
    source: Vec<u8>,
    position: usize,
    stage: Stage,
}

impl<D> View for XmlParser<D> {
    type V = XmlCursor;

    closed spec fn view(&self) -> XmlCursor {
        XmlCursor {
            bytes: self.read_bytes as nat,
            records: self.read_records as nat,
            source: self.source@,
            position: self.position as nat,
            stage: self.stage,
        }
    }
}

impl<D> XmlParser<D> {
    #[verifier::type_invariant]
    spec fn within(self) -> bool {
        &&& self.read_bytes <= BYTES_LIMIT
        &&& self.read_records <= RECORDS_LIMIT
        &&& self.position <= self.source@.len()
    }

    /// Takes over the source.
    fn open(source: Vec<u8>) -> (r: Self)
        ensures
            r@ == XmlCursor::fresh(source@),
    {
        XmlParser {
            record: PhantomData,
            read_bytes: 0,
            read_records: 0,
            source,
            position: 0,
            stage: Stage::Prolog,
        }
    }

    /// Reads what stands behind the root element.
    fn finish(&mut self) -> (r: Result<Option<RawEntry>, XmlParserError>)
        ensures
            (final(self)@, outcome(r)) == at_end(old(self)@),
    {
        proof {
            use_type_invariant(&*self);
        }
        let (at, token) = first_event(self.source.as_slice(), self.position);
        self.position = at;
        self.stage = Stage::Done;
        match token.kind {
            XmlEventKind::Eof => Ok(None),
            _ => Err(XmlParserError::Malformed),
        }
    }

    /// Reads what stands among the units.
    fn body(&mut self, root: &str, entry: &str, index: bool) -> (r: Result<
        Option<RawEntry>,
        XmlParserError,
    >)
        ensures
            (final(self)@, outcome(r)) == in_body(
                old(self)@,
                Dialect { root: encode_utf8(root@), entry: encode_utf8(entry@), index },
            ),
    {
        proof {
            use_type_invariant(&*self);
        }
        let (at, token) = first_event(self.source.as_slice(), self.position);
        self.position = at;
        self.stage = Stage::Body;
        if !(at < token.end && token.end <= self.source.len()) {
            return Err(XmlParserError::Malformed);
        }
        match token.kind {
            XmlEventKind::End => {
                if names_tag(token.content.as_str(), root) {
                    self.position = token.end;
                    self.stage = Stage::Done;
                    self.finish()
                } else {
                    Err(XmlParserError::Malformed)
                }
            },
            XmlEventKind::Start | XmlEventKind::Empty => {
                if !names_tag(token.content.as_str(), entry) {
                    return Err(XmlParserError::Malformed);
                }
                if self.read_records >= RECORDS_LIMIT {
                    return Err(XmlParserError::TooManyRecords);
                }
                let read = match token.kind {
                    XmlEventKind::Empty => Some((RawEntry::new(), token.end)),
                    _ => read_entry(self.source.as_slice(), token.end, entry, index),
                };
                match read {
                    None => Err(XmlParserError::Malformed),
                    Some((raw, end)) => {
                        match assess(self.read_bytes, self.read_records, end - at) {
                            Admission::TooManyRecords => Err(XmlParserError::TooManyRecords),
                            Admission::TooManyBytes(excess) => Err(
                                XmlParserError::TooManyBytes(excess),
                            ),
                            Admission::Accepted => {
                                self.read_bytes = self.read_bytes + (end - at);
                                self.read_records = self.read_records + 1;
                                self.position = end;
                                Ok(Some(raw))
                            },
                        }
                    },
                }
            },
            _ => Err(XmlParserError::Malformed),
        }
    }

    /// Reads what stands before the root element.
    fn prolog(&mut self, root: &str, entry: &str, index: bool) -> (r: Result<
        Option<RawEntry>,
        XmlParserError,
    >)
        ensures
            (final(self)@, outcome(r)) == in_prolog(
                old(self)@,
                Dialect { root: encode_utf8(root@), entry: encode_utf8(entry@), index },
            ),
    {
        proof {
            use_type_invariant(&*self);
        }
        let (at, token) = first_event(self.source.as_slice(), self.position);
        self.position = at;
        self.stage = Stage::Prolog;
        if !(at < token.end && token.end <= self.source.len()) || !names_tag(
            token.content.as_str(),
            root,
        ) {
            return Err(XmlParserError::Malformed);
        }
        match token.kind {
            XmlEventKind::Start => {
                self.position = token.end;
                self.stage = Stage::Body;
                self.body(root, entry, index)
            },
            XmlEventKind::Empty => {
                self.position = token.end;
                self.stage = Stage::Done;
                self.finish()
            },
            _ => Err(XmlParserError::Malformed),
        }
    }

    /// Takes one step: reads up to the next unit and hands its texts out,
    /// `None` at the end of the document. A unit that a limit refuses is
    /// not taken.
    fn advance(&mut self, root: &str, entry: &str, index: bool) -> (r: Result<
        Option<RawEntry>,
        XmlParserError,
    >)
        ensures
            (final(self)@, outcome(r)) == step(
                old(self)@,
                Dialect { root: encode_utf8(root@), entry: encode_utf8(entry@), index },
            ),
    {
        reveal(step);
        match self.stage {
            Stage::Prolog => self.prolog(root, entry, index),
            Stage::Body => self.body(root, entry, index),
            Stage::Done => self.finish(),
        }
    }

    /// Hands the source back.
    fn close(self) -> (source: Vec<u8>)
        ensures
            source@ == self@.source,
    {
        self.source
    }
}

impl<D> ParserStat for XmlParser<D> {
    open spec fn spec_read_bytes(&self) -> nat {
        self@.bytes
    }

    open spec fn spec_read_records(&self) -> nat {
        self@.records
    }

    fn read_bytes(&self) -> (r: usize)
        ensures
            r <= BYTES_LIMIT,
    {
        proof {
            use_type_invariant(self);
        }
        self.read_bytes
    }

    fn read_records(&self) -> (r: usize)
        ensures
            r <= RECORDS_LIMIT,
    {
        proof {
            use_type_invariant(self);
        }
        self.read_records
    }
}

impl XmlParser<SitemapRecord> {
    /// Reads the next unit of a sitemap: `None` at the end of the document,
    /// `IncorrectFormat` for a unit that stands for no record, and else the
    /// record.
    pub fn try_next(&mut self) -> (r: Result<Option<SitemapRecord>, XmlParserError>)
        ensures
            final(self)@ == step(old(self)@, sitemap_dialect()).0,
            match step(old(self)@, sitemap_dialect()).1 {
                Ok(Some(fields)) => match sitemap_of(fields) {
                    Some(model) => r matches Ok(Some(record)) && record@ == model,
                    None => r == Err::<Option<SitemapRecord>, XmlParserError>(
                        XmlParserError::IncorrectFormat,
                    ),
                },
                Ok(None) => r == Ok::<Option<SitemapRecord>, XmlParserError>(None),
                Err(error) => r == Err::<Option<SitemapRecord>, XmlParserError>(error),
            },
    {
        match self.advance(URL_SET, URL, false) {
            Err(error) => Err(error),
            Ok(None) => Ok(None),
            Ok(Some(raw)) => match decode_sitemap(&raw) {
                Some(record) => Ok(Some(record)),
                None => Err(XmlParserError::IncorrectFormat),
            },
        }
    }
}

impl XmlParser<IndexRecord> {
    /// Reads the next unit of a sitemap index: `None` at the end of the
    /// document, `IncorrectFormat` for a unit that stands for no record,
    /// and else the record.
    pub fn try_next(&mut self) -> (r: Result<Option<IndexRecord>, XmlParserError>)
        ensures
            final(self)@ == step(old(self)@, index_dialect()).0,
            match step(old(self)@, index_dialect()).1 {
                Ok(Some(fields)) => match index_of(fields) {
                    Some(model) => r matches Ok(Some(record)) && record@ == model,
                    None => r == Err::<Option<IndexRecord>, XmlParserError>(
                        XmlParserError::IncorrectFormat,
                    ),
                },
                Ok(None) => r == Ok::<Option<IndexRecord>, XmlParserError>(None),
                Err(error) => r == Err::<Option<IndexRecord>, XmlParserError>(error),
            },
    {
        match self.advance(SITEMAP_INDEX, SITEMAP, true) {
            Err(error) => Err(error),
            Ok(None) => Ok(None),
            Ok(Some(raw)) => match decode_index(&raw) {
                Some(record) => Ok(Some(record)),
                None => Err(XmlParserError::IncorrectFormat),
            },
        }
    }
}

impl Parser<SitemapRecord> for XmlParser<SitemapRecord> {
    type Error = XmlParserError;

    /// Takes over the source.
    fn new(source: Vec<u8>) -> (r: Result<Self, XmlParserError>)
        ensures
            r matches Ok(parser) && parser@ == XmlCursor::fresh(source@),
    {
        Ok(Self::open(source))
    }

    /// Reads the next record of a sitemap: units that stand for no record
    /// are passed over. `None` is the end of the document; an error is a
    /// limit, or a document that is malformed.
    fn next(&mut self) -> (r: Result<Option<SitemapRecord>, XmlParserError>)
        ensures
            final(self)@ == settle(old(self)@, sitemap_dialect()),
            match r {
                Ok(Some(record)) => sought(old(self)@, sitemap_dialect()) matches Ok(Some(fields))
                    && sitemap_of(fields) == Some(record@),
                Ok(None) => sought(old(self)@, sitemap_dialect()) == Ok::<
                    Option<Fields>,
                    XmlParserError,
                >(None),
                Err(error) => sought(old(self)@, sitemap_dialect()) == Err::<
                    Option<Fields>,
                    XmlParserError,
                >(error),
            },
    {
        proof {
            use_type_invariant(&*self);
        }
        loop
            invariant
                settle(old(self)@, sitemap_dialect()) == settle(self@, sitemap_dialect()),
                sought(old(self)@, sitemap_dialect()) == sought(self@, sitemap_dialect()),
                self@.position <= self@.source.len(),
            decreases self@.source.len() - self@.position,
        {
            let ghost before = self@;
            match self.try_next() {
                Err(XmlParserError::IncorrectFormat) => {
                    proof {
                        use_type_invariant(&*self);
                        lemma_step(before, sitemap_dialect());
                    }
                    assert(skips(before, sitemap_dialect()));
                },
                Err(error) => {
                    proof {
                        lemma_step(before, sitemap_dialect());
                    }
                    return Err(error);
                },
                Ok(Some(record)) => {
                    return Ok(Some(record));
                },
                Ok(None) => {
                    return Ok(None);
                },
            }
        }
    }

    /// Hands the source back.
    fn finalize(self) -> (r: Result<Vec<u8>, XmlParserError>)
        ensures
            r matches Ok(source) && source@ == self@.source,
    {
        Ok(self.close())
    }
}

impl Parser<IndexRecord> for XmlParser<IndexRecord> {
    type Error = XmlParserError;

    /// Takes over the source.
    fn new(source: Vec<u8>) -> (r: Result<Self, XmlParserError>)
        ensures
            r matches Ok(parser) && parser@ == XmlCursor::fresh(source@),
    {
        Ok(Self::open(source))
    }

    /// Reads the next record of a sitemap index: units that stand for no
    /// record are passed over. `None` is the end of the document; an error
    /// is a limit, or a document that is malformed.
    fn next(&mut self) -> (r: Result<Option<IndexRecord>, XmlParserError>)
        ensures
            final(self)@ == settle(old(self)@, index_dialect()),
            match r {
                Ok(Some(record)) => sought(old(self)@, index_dialect()) matches Ok(Some(fields))
                    && index_of(fields) == Some(record@),
                Ok(None) => sought(old(self)@, index_dialect()) == Ok::<
                    Option<Fields>,
                    XmlParserError,
                >(None),
                Err(error) => sought(old(self)@, index_dialect()) == Err::<
                    Option<Fields>,
                    XmlParserError,
                >(error),
            },
    {
        proof {
            use_type_invariant(&*self);
        }
        loop
            invariant
                settle(old(self)@, index_dialect()) == settle(self@, index_dialect()),
                sought(old(self)@, index_dialect()) == sought(self@, index_dialect()),
                self@.position <= self@.source.len(),
            decreases self@.source.len() - self@.position,
        {
            let ghost before = self@;
            match self.try_next() {
                Err(XmlParserError::IncorrectFormat) => {
                    proof {
                        use_type_invariant(&*self);
                        lemma_step(before, index_dialect());
                    }
                    assert(skips(before, index_dialect()));
                },
                Err(error) => {
                    proof {
                        lemma_step(before, index_dialect());
                    }
                    return Err(error);
                },
                Ok(Some(record)) => {
                    return Ok(Some(record));
                },
                Ok(None) => {
                    return Ok(None);
                },
            }
        }
    }

    /// Hands the source back.
    fn finalize(self) -> (r: Result<Vec<u8>, XmlParserError>)
        ensures
            r matches Ok(source) && source@ == self@.source,
    {
        Ok(self.close())
    }
}

} // verus!
