//! Builders: from records to the bytes of a document, one record at a time.
//!
//! A builder owns its sink from `new` to `finalize`. `next` checks the
//! record count first, then the bytes that the record would bring the
//! records of the document to; a record that is refused is not written.

pub mod txt;
pub mod xml;

pub use crate::build::txt::{TxtBuilder, TxtBuilderError};
pub use crate::build::xml::{XmlBuilder, XmlBuilderError};

use vstd::prelude::*;
use vstd::utf8::{encode_utf8, valid_utf8};

use crate::encoding::lemma_valid_concat;
use crate::limits::{
    spec_assess, spec_until_limit, spec_within_limits, until_limit, Admission, BYTES_LIMIT,
    RECORDS_LIMIT,
};
use crate::record::Record;

verus! {

/// How far a session has come: the payload bytes and the records that it
/// has handled, and the bytes that its sink holds.
pub struct Progress {
    pub bytes: nat,
    pub records: nat,
    pub sink: Seq<u8>,
}

impl Progress {
    /// The progress of a session that has just taken over a sink.
    pub open spec fn fresh(sink: Seq<u8>) -> Progress {
        Progress { bytes: 0, records: 0, sink }
    }

    /// The progress with an emptied sink.
    pub open spec fn drained(self) -> Progress {
        Progress { sink: Seq::empty(), ..self }
    }

    /// The progress after one more unit of the given bytes.
    pub open spec fn with_unit(self, unit: Seq<u8>) -> Progress {
        Progress {
            bytes: self.bytes + unit.len(),
            records: self.records + 1,
            sink: self.sink + unit,
        }
    }
}

/// What the limits say of a unit for a session that has come so far.
pub open spec fn verdict(before: Progress, unit: Seq<u8>) -> Admission {
    spec_assess(before.bytes as int, before.records as int, unit.len() as int)
}

/// The progress after a unit was offered: with the unit where the limits
/// accept it, unchanged where they do not.
pub open spec fn advance(before: Progress, unit: Seq<u8>) -> Progress {
    if verdict(before, unit) == Admission::Accepted {
        before.with_unit(unit)
    } else {
        before
    }
}

/// What becomes of a session that is offered the units from index `from`
/// on, one after the other: the progress after the last of them, or the
/// first refusal, which ends the run.
pub open spec fn run(before: Progress, units: Seq<Seq<u8>>, from: int) -> Result<
    Progress,
    Admission,
>
    decreases units.len() - from,
{
    if from < 0 || from >= units.len() {
        Ok(before)
    } else if verdict(before, units[from]) == Admission::Accepted {
        run(advance(before, units[from]), units, from + 1)
    } else {
        Err(verdict(before, units[from]))
    }
}

/// The units from index `from` on, one behind the other.
pub open spec fn joined(units: Seq<Seq<u8>>, from: int) -> Seq<u8>
    decreases units.len() - from,
{
    if from < 0 || from >= units.len() {
        Seq::empty()
    } else {
        units[from] + joined(units, from + 1)
    }
}

/// A run that is not refused appends every unit whole, in order, and counts
/// each once; it stays within the limits that it began within. A run that
/// is refused is refused for a limit.
pub proof fn lemma_run(before: Progress, units: Seq<Seq<u8>>, from: int)
    requires
        0 <= from <= units.len(),
    ensures
        match run(before, units, from) {
            Ok(after) => {
                &&& after.sink == before.sink + joined(units, from)
                &&& after.records == before.records + units.len() - from
                &&& after.bytes == before.bytes + joined(units, from).len()
                &&& before.records <= RECORDS_LIMIT ==> after.records <= RECORDS_LIMIT
                &&& before.bytes <= BYTES_LIMIT ==> after.bytes <= BYTES_LIMIT
            },
            Err(admission) => admission != Admission::Accepted,
        },
    decreases units.len() - from,
{
    if from < units.len() && verdict(before, units[from]) == Admission::Accepted {
        let next = advance(before, units[from]);
        lemma_run(next, units, from + 1);
        match run(next, units, from + 1) {
            Ok(after) => {
                assert(after.sink =~= before.sink + joined(units, from));
            },
            Err(_) => {},
        }
    } else if from >= units.len() {
        assert(before.sink + joined(units, from) =~= before.sink);
    }
}

/// A run of more units than the record limit leaves room for is refused:
/// the unit behind the last that fits is never written.
pub proof fn lemma_run_past_the_record_limit(before: Progress, units: Seq<Seq<u8>>, from: int)
    requires
        0 <= from <= units.len(),
        before.records <= RECORDS_LIMIT,
        before.records + units.len() - from > RECORDS_LIMIT,
    ensures
        run(before, units, from) is Err,
    decreases units.len() - from,
{
    if from < units.len() && verdict(before, units[from]) == Admission::Accepted {
        lemma_run_past_the_record_limit(advance(before, units[from]), units, from + 1);
    }
}

/// Units of valid UTF-8, one behind the other, are valid UTF-8.
pub proof fn lemma_joined_is_valid(units: Seq<Seq<u8>>, from: int)
    requires
        0 <= from,
        forall|i: int| from <= i < units.len() ==> valid_utf8(#[trigger] units[i]),
    ensures
        valid_utf8(joined(units, from)),
    decreases units.len() - from,
{
    if from < units.len() {
        lemma_joined_is_valid(units, from + 1);
        lemma_valid_concat(units[from], joined(units, from + 1));
    }
}

/// A run of units of valid UTF-8 behind a sink of valid UTF-8 leaves valid
/// UTF-8.
pub proof fn lemma_run_is_valid(before: Progress, units: Seq<Seq<u8>>)
    requires
        valid_utf8(before.sink),
        forall|i: int| 0 <= i < units.len() ==> valid_utf8(#[trigger] units[i]),
    ensures
        run(before, units, 0) matches Ok(after) ==> valid_utf8(after.sink),
{
    lemma_run(before, units, 0);
    lemma_joined_is_valid(units, 0);
    lemma_valid_concat(before.sink, joined(units, 0));
}

/// A session that holds as many records as it may takes no further unit,
/// and is left as it was.
pub proof fn lemma_full_session_refuses(before: Progress, unit: Seq<u8>)
    requires
        before.records >= RECORDS_LIMIT,
    ensures
        verdict(before, unit) == Admission::TooManyRecords,
        advance(before, unit) == before,
{
}

/// An accepted unit is appended whole and counted once, and leaves the
/// session within the limits; a refused unit leaves no trace.
pub proof fn lemma_unit_is_whole_or_absent(before: Progress, unit: Seq<u8>)
    ensures
        verdict(before, unit) == Admission::Accepted ==> {
            &&& advance(before, unit).sink == before.sink + unit
            &&& advance(before, unit).records == before.records + 1
            &&& advance(before, unit).records <= RECORDS_LIMIT
            &&& advance(before, unit).bytes == before.bytes + unit.len()
            &&& advance(before, unit).bytes <= BYTES_LIMIT
        },
        verdict(before, unit) != Admission::Accepted ==> advance(before, unit) == before,
{
}

/// The counters of a builder, and what they leave of the limits.
pub trait BuilderStat {
    /// The payload bytes written so far.
    spec fn spec_written_bytes(&self) -> nat;

    /// The records written so far.
    spec fn spec_written_records(&self) -> nat;

    /// The payload bytes written so far.
    fn written_bytes(&self) -> (r: usize)
        ensures
            r == self.spec_written_bytes(),
    ;

    /// The records written so far.
    fn written_records(&self) -> (r: usize)
        ensures
            r == self.spec_written_records(),
    ;

    /// The bytes that may still be written; zero once the limit is reached.
    fn bytes_until_limit(&self) -> (r: usize)
        ensures
            r == spec_until_limit(BYTES_LIMIT as int, self.spec_written_bytes() as int),
    {
        until_limit(BYTES_LIMIT, self.written_bytes())
    }

    /// The records that may still be written; zero once the limit is
    /// reached.
    fn records_until_limit(&self) -> (r: usize)
        ensures
            r == spec_until_limit(RECORDS_LIMIT as int, self.spec_written_records() as int),
    {
        until_limit(RECORDS_LIMIT, self.written_records())
    }

    /// Whether both limits still leave room.
    fn is_ok(&self) -> (r: bool)
        ensures
            r == spec_within_limits(
                self.spec_written_bytes() as int,
                self.spec_written_records() as int,
            ),
    {
        self.bytes_until_limit() > 0 && self.records_until_limit() > 0
    }
}

/// A builder of documents of records of type `D` into a sink of bytes.
pub trait Builder<D: Record>: Sized {
    /// Why a record was refused.
    type Error;

    /// Takes over the sink and writes what a document begins with.
    fn new(sink: Vec<u8>) -> Result<Self, Self::Error>;

    /// Writes one record.
    fn next(&mut self, record: &D) -> Result<(), Self::Error>;

    /// Hands out what the sink holds and leaves it empty, so that the bytes
    /// can be passed on while the document is still being built.
    fn drain(&mut self) -> Vec<u8>;

    /// Writes what a document ends with and hands the sink back.
    fn finalize(self) -> Result<Vec<u8>, Self::Error>;
}

/// A builder that writes a whole sequence of records in one call.
pub trait IteratorBuilder<D: Record>: Builder<D> {
    /// Builds a document of the records into the sink. The first refusal
    /// ends the build and is handed back.
    fn build(sink: Vec<u8>, records: &[D]) -> Result<Vec<u8>, Self::Error>;
}

/// A builder that writes a whole document as a text.
pub trait StringBuilder<D: Record>: IteratorBuilder<D> {
    /// Builds a document of the records into a text of its own.
    fn build_string(records: &[D]) -> Result<String, Self::Error>;
}

/// Calls `String::from_utf8_lossy` on bytes that are valid UTF-8, of which
/// it makes the text that they encode.
#[verifier::external_body]
pub(crate) fn text_from(bytes: &[u8]) -> (r: String)
    requires
        valid_utf8(bytes@),
    ensures
        encode_utf8(r@) == bytes@,
{
    String::from_utf8_lossy(bytes).into_owned()
}

} // verus!
