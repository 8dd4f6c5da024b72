//! The plain-text form: one URL per line.
//!
//! A unit is a line with its newline, or what is left of the source behind
//! the last newline. A unit is weighed against the limits before it is
//! taken. A unit that holds no URL is counted and skipped, and so is a unit
//! of more than `RESOURCE_LENGTH_LIMIT` bytes, whatever it holds.

use vstd::prelude::*;
use vstd::slice::slice_subrange;
use vstd::utf8::{decode_utf8, encode_utf8, valid_utf8};

use crate::attribute::location::{canonical_url, Location};
use crate::attribute::Attribute;
use crate::build::txt::NEWLINE;
use crate::limits::{
    assess, spec_assess, Admission, BYTES_LIMIT, RECORDS_LIMIT, RESOURCE_LENGTH_LIMIT,
};
use crate::parse::{Cursor, Parser, ParserStat};
use crate::record::sitemap::SitemapRecord;
use crate::record::Record;

verus! {

/// Why the text parser stopped, or passed over a unit.
#[derive(Debug, Clone, Copy, PartialEq, Eq, Structural)]
pub enum TxtParserError {
    /// The document holds more units than it may.
    TooManyRecords,
    /// The next unit would take the document this many bytes over the limit.
    TooManyBytes(usize),
    /// The unit holds no URL. `next` skips such a unit.
    IncorrectFormat,
}

/// Where the unit that is scanned at `at` ends: behind the first newline,
/// or at `stop` where there is none before it.
pub open spec fn line_end(source: Seq<u8>, at: int, stop: int) -> int
    decreases stop - at,
{
    if at < 0 || at >= stop || at >= source.len() {
        at
    } else if source[at] == NEWLINE {
        at + 1
    } else {
        line_end(source, at + 1, stop)
    }
}

/// Where the unit that begins at `from` ends: behind the first newline, or
/// at the end of the source.
pub open spec fn unit_end(source: Seq<u8>, from: int) -> int {
    line_end(source, from, source.len() as int)
}

/// The canonical text of the URL that a unit holds, if it holds one: the
/// unit is no longer than a line may be, it is UTF-8, and its text is a
/// URL.
pub open spec fn unit_location(unit: Seq<u8>) -> Option<Seq<char>> {
    if unit.len() <= RESOURCE_LENGTH_LIMIT && valid_utf8(unit) {
        canonical_url(decode_utf8(unit))
    } else {
        None
    }
}

/// The error that stands for a refusal of the limits.
pub open spec fn refusal(admission: Admission) -> Option<TxtParserError> {
    match admission {
        Admission::Accepted => None,
        Admission::TooManyRecords => Some(TxtParserError::TooManyRecords),
        Admission::TooManyBytes(excess) => Some(TxtParserError::TooManyBytes(excess)),
    }
}

/// What the limits say of the unit at the cursor.
pub open spec fn verdict(before: Cursor) -> Admission {
    spec_assess(
        before.bytes as int,
        before.records as int,
        unit_end(before.source, before.position as int) - before.position,
    )
}

/// Where `try_next` leaves the cursor: behind the unit, where there is one
/// and the limits accept it.
pub open spec fn step(before: Cursor) -> Cursor {
    if before.position < before.source.len() && verdict(before) == Admission::Accepted {
        before.behind(unit_end(before.source, before.position as int))
    } else {
        before
    }
}

/// What `try_next` finds at the cursor: nothing at the end of the source, a
/// refusal of the limits, or else the location that the unit holds.
pub open spec fn found(before: Cursor) -> Result<Option<Seq<char>>, TxtParserError> {
    if before.position >= before.source.len() {
        Ok(None)
    } else {
        match refusal(verdict(before)) {
            Some(error) => Err(error),
            None => match unit_location(
                before.source.subrange(
                    before.position as int,
                    unit_end(before.source, before.position as int),
                ),
            ) {
                Some(location) => Ok(Some(location)),
                None => Err(TxtParserError::IncorrectFormat),
            },
        }
    }
}

/// Whether `next` goes on behind the unit at the cursor: the unit was taken
/// and holds no URL.
pub open spec fn skips(before: Cursor) -> bool {
    &&& found(before) == Err::<Option<Seq<char>>, TxtParserError>(
        TxtParserError::IncorrectFormat,
    )
    &&& before.position < step(before).position <= before.source.len()
    &&& step(before).source == before.source
}

/// Where `next` leaves the cursor: behind the first unit that holds a URL,
/// or where the source or the limits end the search.
pub open spec fn settle(before: Cursor) -> Cursor
    decreases before.source.len() - before.position,
{
    if skips(before) {
        settle(step(before))
    } else {
        step(before)
    }
}

/// What `next` finds from the cursor on: what `try_next` finds at the first
/// unit that is not skipped.
pub open spec fn sought(before: Cursor) -> Result<Option<Seq<char>>, TxtParserError>
    decreases before.source.len() - before.position,
{
    if skips(before) {
        sought(step(before))
    } else {
        found(before)
    }
}

/// A unit is never empty, and ends within the source.
pub proof fn lemma_unit_end(source: Seq<u8>, from: int)
    requires
        0 <= from < source.len(),
    ensures
        from < unit_end(source, from) <= source.len(),
{
    lemma_line_end(source, from, source.len() as int);
}

/// The scan for the end of a unit ends between where it starts and where
/// it stops, and behind its start where it has room.
pub proof fn lemma_line_end(source: Seq<u8>, at: int, stop: int)
    requires
        0 <= at <= stop <= source.len(),
    ensures
        at <= line_end(source, at, stop) <= stop,
        at < stop ==> at < line_end(source, at, stop),
    decreases stop - at,
{
    if at < stop && source[at] != NEWLINE {
        lemma_line_end(source, at + 1, stop);
    }
}

/// A parser of plain-text sitemaps.
pub struct TxtParser {
    read_bytes: usize,
    read_records: usize,
    source: Vec<u8>,
    position: usize,
}

impl View for TxtParser {
    type V = Cursor;

    closed spec fn view(&self) -> Cursor {
        Cursor {
            bytes: self.read_bytes as nat,
            records: self.read_records as nat,
            source: self.source@,
            position: self.position as nat,
        }
    }
}

/// Calls `core::str::from_utf8`, which hands the bytes back as a text
/// exactly where they are valid UTF-8.
#[verifier::external_body]
pub(crate) fn text_of(bytes: &[u8]) -> (r: Option<&str>)
    ensures
        match r {
            Some(text) => valid_utf8(bytes@) && encode_utf8(text@) == bytes@,
            None => !valid_utf8(bytes@),
        },
{
    core::str::from_utf8(bytes).ok()
}

/// Reads the location that a unit holds.
pub fn read_location(unit: &[u8]) -> (r: Option<Location>)
    ensures
        match r {
            Some(location) => unit_location(unit@) == Some(location@),
            None => unit_location(unit@) is None,
        },
{
    if unit.len() > RESOURCE_LENGTH_LIMIT {
        return None;
    }
    match text_of(unit) {
        Some(text) => {
            proof {
                vstd::utf8::encode_utf8_decode_utf8(text@);
            }
            match Location::parse(text) {
                Ok(location) => Some(location),
                Err(_) => None,
            }
        },
        None => None,
    }
}

impl TxtParser {
    #[verifier::type_invariant]
    spec fn within(self) -> bool {
        &&& self.read_bytes <= BYTES_LIMIT
        &&& self.read_records <= RECORDS_LIMIT
        &&& self.position <= self.source@.len()
    }

    /// Finds where the unit at the cursor ends.
    fn find_unit_end(&self) -> (end: usize)
        requires
            self@.position < self@.source.len(),
        ensures
            end == unit_end(self@.source, self@.position as int),
            self@.position < end <= self@.source.len(),
    {
        proof {
            use_type_invariant(self);
            lemma_unit_end(self@.source, self@.position as int);
        }
        let stop = self.source.len();
        let mut at: usize = self.position;
        while at < stop
            invariant
                self.position <= at <= stop,
                stop == self.source@.len(),
                line_end(self.source@, self.position as int, stop as int) == line_end(
                    self.source@,
                    at as int,
                    stop as int,
                ),
            decreases stop - at,
        {
            if self.source[at] == NEWLINE {
                return at + 1;
            }
            at += 1;
        }
        at
    }

    /// Reads the unit at the cursor: `None` at the end of the source, a
    /// refusal where a limit is reached, `IncorrectFormat` for a unit that
    /// holds no URL, and else the location. A unit that the limits accept
    /// is taken whatever it holds.
    pub fn try_next(&mut self) -> (r: Result<Option<Location>, TxtParserError>)
        ensures
            final(self)@ == step(old(self)@),
            match r {
                Ok(Some(location)) => found(old(self)@) == Ok::<
                    Option<Seq<char>>,
                    TxtParserError,
                >(Some(location@)),
                Ok(None) => found(old(self)@) == Ok::<Option<Seq<char>>, TxtParserError>(None),
                Err(error) => found(old(self)@) == Err::<Option<Seq<char>>, TxtParserError>(
                    error,
                ),
            },
    {
        proof {
            use_type_invariant(&*self);
        }
        if self.position >= self.source.len() {
            return Ok(None);
        }
        let end = self.find_unit_end();
        let length = end - self.position;
        match assess(self.read_bytes, self.read_records, length) {
            Admission::TooManyRecords => Err(TxtParserError::TooManyRecords),
            Admission::TooManyBytes(excess) => Err(TxtParserError::TooManyBytes(excess)),
            Admission::Accepted => {
                let found = read_location(slice_subrange(self.source.as_slice(), self.position, end));
                self.read_bytes = self.read_bytes + length;
                self.read_records = self.read_records + 1;
                self.position = end;
                match found {
                    Some(location) => Ok(Some(location)),
                    None => Err(TxtParserError::IncorrectFormat),
                }
            },
        }
    }
}

impl ParserStat for TxtParser {
    open spec fn spec_read_bytes(&self) -> nat {
        self@.bytes
    }

    open spec fn spec_read_records(&self) -> nat {
        self@.records
    }

    fn read_bytes(&self) -> (r: usize)
        ensures
            r <= BYTES_LIMIT,
    {
        proof {
            use_type_invariant(self);
        }
        self.read_bytes
    }

    fn read_records(&self) -> (r: usize)
        ensures
            r <= RECORDS_LIMIT,
    {
        proof {
            use_type_invariant(self);
        }
        self.read_records
    }
}

impl Parser<SitemapRecord> for TxtParser {
    type Error = TxtParserError;

    /// Takes over the source.
    fn new(source: Vec<u8>) -> (r: Result<Self, TxtParserError>)
        ensures
            r matches Ok(parser) && parser@ == Cursor::fresh(source@),
    {
        Ok(TxtParser { read_bytes: 0, read_records: 0, source, position: 0 })
    }

    /// Reads the next record: units that hold no URL are passed over, and
    /// the first that holds one is handed out as a record of that location
    /// alone. `None` is the end of the source; an error is a limit.
    fn next(&mut self) -> (r: Result<Option<SitemapRecord>, TxtParserError>)
        ensures
            final(self)@ == settle(old(self)@),
            match r {
                Ok(Some(record)) => {
                    &&& sought(old(self)@) == Ok::<Option<Seq<char>>, TxtParserError>(
                        Some(record.location@),
                    )
                    &&& record.last_modified is None
                    &&& record.change_frequency is None
                    &&& record.priority is None
                },
                Ok(None) => sought(old(self)@) == Ok::<Option<Seq<char>>, TxtParserError>(None),
                Err(error) => sought(old(self)@) == Err::<Option<Seq<char>>, TxtParserError>(
                    error,
                ) && error != TxtParserError::IncorrectFormat,
            },
    {
        proof {
            use_type_invariant(&*self);
        }
        loop
            invariant
                settle(old(self)@) == settle(self@),
                sought(old(self)@) == sought(self@),
                self@.source == old(self)@.source,
                self@.position <= self@.source.len(),
            decreases self@.source.len() - self@.position,
        {
            let ghost before = self@;
            proof {
                use_type_invariant(&*self);
                if before.position < before.source.len() {
                    lemma_unit_end(before.source, before.position as int);
                }
            }
            match self.try_next() {
                Err(TxtParserError::IncorrectFormat) => {},
                Err(error) => {
                    return Err(error);
                },
                Ok(Some(location)) => {
                    return Ok(Some(SitemapRecord::new(location)));
                },
                Ok(None) => {
                    return Ok(None);
                },
            }
        }
    }

    /// Hands the source back.
    fn finalize(self) -> (r: Result<Vec<u8>, TxtParserError>)
        ensures
            r matches Ok(source) && source@ == self@.source,
    {
        Ok(self.source)
    }
}

} // verus!
