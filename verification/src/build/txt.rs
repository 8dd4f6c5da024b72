//! The plain-text form: one URL per line.

use vstd::prelude::*;
use vstd::utf8::{encode_utf8, valid_utf8};

use crate::build::{
    advance, lemma_run_is_valid, run, text_from, verdict, Builder, BuilderStat, IteratorBuilder,
    Progress, StringBuilder,
};
use crate::encoding::{lemma_ascii_is_valid, lemma_valid_concat};
use crate::limits::{assess, Admission, BYTES_LIMIT, RECORDS_LIMIT};
use crate::record::sitemap::SitemapRecord;

verus! {

/// The byte that ends a line.
pub const NEWLINE: u8 = 0x0A;

/// Why the text builder refused a record.
#[derive(Debug, Clone, Copy, PartialEq, Eq, Structural)]
pub enum TxtBuilderError {
    /// The document holds as many records as it may.
    TooManyRecords,
    /// The record would take the document this many bytes over the limit.
    TooManyBytes(usize),
}

/// The line of a record: the canonical text of its location and a newline.
pub open spec fn line(record: SitemapRecord) -> Seq<u8> {
    encode_utf8(record.location@).push(NEWLINE)
}

/// The error that stands for a refusal of the limits.
pub open spec fn refusal(admission: Admission) -> Result<(), TxtBuilderError> {
    match admission {
        Admission::Accepted => Ok(()),
        Admission::TooManyRecords => Err(TxtBuilderError::TooManyRecords),
        Admission::TooManyBytes(excess) => Err(TxtBuilderError::TooManyBytes(excess)),
    }
}

/// The lines of a sequence of records.
pub open spec fn lines(records: Seq<SitemapRecord>) -> Seq<Seq<u8>> {
    Seq::new(records.len(), |i: int| line(records[i]))
}

/// What `build` returns for a sink and records: the sink with the lines of
/// all records behind it, or the first refusal.
pub open spec fn spec_build(sink: Seq<u8>, records: Seq<SitemapRecord>) -> Result<
    Seq<u8>,
    TxtBuilderError,
> {
    match run(Progress::fresh(sink), lines(records), 0) {
        Ok(after) => Ok(after.sink),
        Err(admission) => match refusal(admission) {
            Ok(()) => Ok(sink),
            Err(error) => Err(error),
        },
    }
}

/// The line of a record is valid UTF-8.
pub proof fn lemma_line_is_valid(record: SitemapRecord)
    ensures
        valid_utf8(line(record)),
{
    vstd::utf8::encode_utf8_valid_utf8(record.location@);
    lemma_ascii_is_valid(seq![NEWLINE]);
    lemma_valid_concat(encode_utf8(record.location@), seq![NEWLINE]);
    assert(line(record) =~= encode_utf8(record.location@) + seq![NEWLINE]);
}

/// A builder of plain-text sitemaps.
pub struct TxtBuilder {
    written_bytes: usize,
    written_records: usize,
    sink: Vec<u8>,
}

impl View for TxtBuilder {
    type V = Progress;

    closed spec fn view(&self) -> Progress {
        Progress {
            bytes: self.written_bytes as nat,
            records: self.written_records as nat,
            sink: self.sink@,
        }
    }
}

impl TxtBuilder {
    #[verifier::type_invariant]
    spec fn within(self) -> bool {
        &&& self.written_bytes <= BYTES_LIMIT
        &&& self.written_records <= RECORDS_LIMIT
    }
}

impl BuilderStat for TxtBuilder {
    open spec fn spec_written_bytes(&self) -> nat {
        self@.bytes
    }

    open spec fn spec_written_records(&self) -> nat {
        self@.records
    }

    fn written_bytes(&self) -> (r: usize)
        ensures
            r <= BYTES_LIMIT,
    {
        proof {
            use_type_invariant(self);
        }
        self.written_bytes
    }

    fn written_records(&self) -> (r: usize)
        ensures
            r <= RECORDS_LIMIT,
    {
        proof {
            use_type_invariant(self);
        }
        self.written_records
    }
}

impl Builder<SitemapRecord> for TxtBuilder {
    type Error = TxtBuilderError;

    /// Takes over the sink. The text form begins with nothing.
    fn new(sink: Vec<u8>) -> (r: Result<Self, TxtBuilderError>)
        ensures
            r matches Ok(builder) && builder@ == Progress::fresh(sink@),
    {
        Ok(TxtBuilder { written_bytes: 0, written_records: 0, sink })
    }

    /// Writes the line of a record, unless a limit forbids it; then nothing
    /// is written.
    fn next(&mut self, record: &SitemapRecord) -> (r: Result<(), TxtBuilderError>)
        ensures
            r == refusal(verdict(old(self)@, line(*record))),
            final(self)@ == advance(old(self)@, line(*record)),
    {
        proof {
            use_type_invariant(&*self);
        }
        let mut unit: Vec<u8> = Vec::new();
        unit.extend_from_slice(record.location.as_str().as_bytes());
        unit.push(NEWLINE);
        assert(unit@ =~= line(*record));
        let length = unit.len();
        match assess(self.written_bytes, self.written_records, length) {
            Admission::TooManyRecords => Err(TxtBuilderError::TooManyRecords),
            Admission::TooManyBytes(excess) => Err(TxtBuilderError::TooManyBytes(excess)),
            Admission::Accepted => {
                let mut sink: Vec<u8> = Vec::new();
                core::mem::swap(&mut self.sink, &mut sink);
                sink.append(&mut unit);
                core::mem::swap(&mut self.sink, &mut sink);
                self.written_bytes = self.written_bytes + length;
                self.written_records = self.written_records + 1;
                Ok(())
            },
        }
    }

    /// Hands out what the sink holds and leaves it empty; the counters stay.
    fn drain(&mut self) -> (r: Vec<u8>)
        ensures
            r@ == old(self)@.sink,
            final(self)@ == old(self)@.drained(),
    {
        proof {
            use_type_invariant(&*self);
        }
        let mut sink: Vec<u8> = Vec::new();
        core::mem::swap(&mut self.sink, &mut sink);
        sink
    }

    /// Hands the sink back. The text form ends with nothing.
    fn finalize(self) -> (r: Result<Vec<u8>, TxtBuilderError>)
        ensures
            r matches Ok(sink) && sink@ == self@.sink,
    {
        Ok(self.sink)
    }
}

impl IteratorBuilder<SitemapRecord> for TxtBuilder {
    /// Builds the text form of the records behind what the sink holds.
    fn build(sink: Vec<u8>, records: &[SitemapRecord]) -> (r: Result<Vec<u8>, TxtBuilderError>)
        ensures
            match r {
                Ok(built) => spec_build(sink@, records@) == Ok::<Seq<u8>, TxtBuilderError>(built@),
                Err(error) => spec_build(sink@, records@) == Err::<Seq<u8>, TxtBuilderError>(
                    error,
                ),
            },
    {
        let ghost start = Progress::fresh(sink@);
        let ghost units = lines(records@);
        let built = Self::new(sink);
        let mut builder = match built {
            Ok(builder) => builder,
            Err(error) => {
                return Err(error);
            },
        };
        let mut at: usize = 0;
        while at < records.len()
            invariant
                at <= records@.len(),
                start == Progress::fresh(sink@),
                units == lines(records@),
                run(start, units, 0) == run(builder@, units, at as int),
            decreases records@.len() - at,
        {
            let ghost before = builder@;
            match builder.next(&records[at]) {
                Ok(()) => {
                    assert(run(before, units, at as int) == run(builder@, units, at + 1));
                },
                Err(error) => {
                    assert(run(before, units, at as int) == Err::<Progress, Admission>(
                        verdict(before, units[at as int]),
                    ));
                    return Err(error);
                },
            }
            at += 1;
        }
        builder.finalize()
    }
}

impl StringBuilder<SitemapRecord> for TxtBuilder {
    /// Builds the text form of the records as a text.
    fn build_string(records: &[SitemapRecord]) -> (r: Result<String, TxtBuilderError>)
        ensures
            match r {
                Ok(built) => spec_build(Seq::empty(), records@) == Ok::<Seq<u8>, TxtBuilderError>(
                    encode_utf8(built@),
                ),
                Err(error) => spec_build(Seq::empty(), records@) == Err::<
                    Seq<u8>,
                    TxtBuilderError,
                >(error),
            },
    {
        match Self::build(Vec::new(), records) {
            Ok(built) => {
                proof {
                    assert forall|i: int| 0 <= i < lines(records@).len() implies valid_utf8(
                        #[trigger] lines(records@)[i],
                    ) by {
                        lemma_line_is_valid(records@[i]);
                    }
                    lemma_run_is_valid(Progress::fresh(Seq::empty()), lines(records@));
                }
                Ok(text_from(built.as_slice()))
            },
            Err(error) => Err(error),
        }
    }
}

} // verus!
