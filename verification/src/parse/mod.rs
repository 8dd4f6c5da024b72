//! Parsers: from the bytes of a document to its records, one at a time.
//!
//! A parser owns its source from `new` to `finalize`. `next` hands out the
//! next record that is well formed, `None` once the source is exhausted,
//! and a refusal where a limit is reached.

pub mod txt;
pub mod xml;

pub use crate::parse::txt::{TxtParser, TxtParserError};
pub use crate::parse::xml::{XmlParser, XmlParserError};

use vstd::prelude::*;

use crate::limits::{spec_until_limit, spec_within_limits, until_limit, BYTES_LIMIT, RECORDS_LIMIT};
use crate::record::Record;

verus! {

/// How far a parser has come in its source: the bytes and the units that it
/// has taken, and where the next unit begins.
pub struct Cursor {
    pub bytes: nat,
    pub records: nat,
    pub source: Seq<u8>,
    pub position: nat,
}

impl Cursor {
    /// The cursor of a parser that has just taken over a source.
    pub open spec fn fresh(source: Seq<u8>) -> Cursor {
        Cursor { bytes: 0, records: 0, source, position: 0 }
    }

    /// The cursor behind a unit that ends at `end`.
    pub open spec fn behind(self, end: int) -> Cursor {
        Cursor {
            bytes: (self.bytes + end - self.position) as nat,
            records: self.records + 1,
            source: self.source,
            position: end as nat,
        }
    }
}

/// The counters of a parser, and what they leave of the limits.
pub trait ParserStat {
    /// The bytes read so far.
    spec fn spec_read_bytes(&self) -> nat;

    /// The units read so far.
    spec fn spec_read_records(&self) -> nat;

    /// The bytes read so far.
    fn read_bytes(&self) -> (r: usize)
        ensures
            r == self.spec_read_bytes(),
    ;

    /// The units read so far, those that were skipped among them.
    fn read_records(&self) -> (r: usize)
        ensures
            r == self.spec_read_records(),
    ;

    /// The bytes that may still be read; zero once the limit is reached.
    fn bytes_until_limit(&self) -> (r: usize)
        ensures
            r == spec_until_limit(BYTES_LIMIT as int, self.spec_read_bytes() as int),
    {
        until_limit(BYTES_LIMIT, self.read_bytes())
    }

    /// The units that may still be read; zero once the limit is reached.
    fn records_until_limit(&self) -> (r: usize)
        ensures
            r == spec_until_limit(RECORDS_LIMIT as int, self.spec_read_records() as int),
    {
        until_limit(RECORDS_LIMIT, self.read_records())
    }

    /// Whether both limits still leave room.
    fn is_ok(&self) -> (r: bool)
        ensures
            r == spec_within_limits(
                self.spec_read_bytes() as int,
                self.spec_read_records() as int,
            ),
    {
        self.bytes_until_limit() > 0 && self.records_until_limit() > 0
    }
}

/// A parser of documents of records of type `D` from a source of bytes.
pub trait Parser<D: Record>: Sized {
    /// Why parsing ended.
    type Error;

    /// Takes over the source.
    fn new(source: Vec<u8>) -> Result<Self, Self::Error>;

    /// Reads the next record; `None` at the end of the source.
    fn next(&mut self) -> Result<Option<D>, Self::Error>;

    /// Hands the source back.
    fn finalize(self) -> Result<Vec<u8>, Self::Error>;
}

} // verus!
