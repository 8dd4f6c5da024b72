//! The XML form: a root element with one element per record.
//!
//! A record is checked against the limits before any of it is written, so
//! that the records of a document never take more than the byte limit and
//! a document never holds a part of a record. The bytes that are counted
//! are those of the records: what a document begins and ends with, the
//! byte-order mark and the tags of the root, stands beside them.

use std::marker::PhantomData;
use vstd::prelude::*;
use vstd::utf8::{encode_utf8, valid_utf8};

use crate::attribute::priority::spec_render;
use crate::build::{
    advance, lemma_run_is_valid, run, text_from, verdict, Builder, BuilderStat, IteratorBuilder,
    Progress, StringBuilder,
};
use crate::encoding::lemma_valid_concat;
use crate::limits::{assess, Admission, BYTES_LIMIT, RECORDS_LIMIT};
use crate::record::index::IndexRecord;
use crate::record::sitemap::SitemapRecord;
use crate::record::Record;
use crate::xml::{
    end_tag, lemma_preamble_is_valid, lemma_tags_are_valid, preamble, start_tag, text_element,
    write_bom, write_end, write_start,
    write_start_with, write_text_element, CHANGE_FREQUENCY, LAST_MODIFIED, LOCATION, NAMESPACE,
    PRIORITY, SITEMAP, SITEMAP_INDEX, URL, URL_SET, XMLNS,
};

verus! {

/// Why the XML builder refused a record.
#[derive(Debug, Clone, Copy, PartialEq, Eq, Structural)]
pub enum XmlBuilderError {
    /// The document holds as many records as it may.
    TooManyRecords,
    /// The record would take the document this many bytes over the limit.
    TooManyBytes(usize),
}

/// The error that stands for a refusal of the limits.
pub open spec fn refusal(admission: Admission) -> Result<(), XmlBuilderError> {
    match admission {
        Admission::Accepted => Ok(()),
        Admission::TooManyRecords => Err(XmlBuilderError::TooManyRecords),
        Admission::TooManyBytes(excess) => Err(XmlBuilderError::TooManyBytes(excess)),
    }
}

/// The element of a text that may be absent: nothing where it is.
pub open spec fn optional_element(name: Seq<char>, text: Option<Seq<char>>) -> Seq<u8> {
    match text {
        Some(text) => text_element(name, text),
        None => Seq::empty(),
    }
}

/// The element of a sitemap record: `url`, which holds the location, then
/// the last modification, the change frequency and the priority, each only
/// where the record has it.
pub open spec fn sitemap_element(record: SitemapRecord) -> Seq<u8> {
    start_tag(URL@) + text_element(LOCATION@, record.location@) + optional_element(
        LAST_MODIFIED@,
        match record.last_modified {
            Some(modified) => Some(modified.spec_render()),
            None => None,
        },
    ) + optional_element(
        CHANGE_FREQUENCY@,
        match record.change_frequency {
            Some(frequency) => Some(frequency.literal()),
            None => None,
        },
    ) + optional_element(
        PRIORITY@,
        match record.priority {
            Some(priority) => Some(spec_render(priority@)),
            None => None,
        },
    ) + end_tag(URL@)
}

/// The element of an index record: `sitemap`, which holds the location and,
/// where the record has it, the last modification.
pub open spec fn index_element(record: IndexRecord) -> Seq<u8> {
    start_tag(SITEMAP@) + text_element(LOCATION@, record.location@) + optional_element(
        LAST_MODIFIED@,
        match record.last_modified {
            Some(modified) => Some(modified.spec_render()),
            None => None,
        },
    ) + end_tag(SITEMAP@)
}

/// The elements of a sequence of sitemap records.
pub open spec fn sitemap_elements(records: Seq<SitemapRecord>) -> Seq<Seq<u8>> {
    Seq::new(records.len(), |i: int| sitemap_element(records[i]))
}

/// The elements of a sequence of index records.
pub open spec fn index_elements(records: Seq<IndexRecord>) -> Seq<Seq<u8>> {
    Seq::new(records.len(), |i: int| index_element(records[i]))
}

/// The document that `build` makes of a sink and the elements of records
/// under a root: preamble, elements and the end of the root behind what the
/// sink holds, or the first refusal.
pub open spec fn spec_build(sink: Seq<u8>, root: Seq<char>, units: Seq<Seq<u8>>) -> Result<
    Seq<u8>,
    XmlBuilderError,
> {
    match run(Progress::fresh(sink + preamble(root)), units, 0) {
        Ok(after) => Ok(after.sink + end_tag(root)),
        Err(admission) => match refusal(admission) {
            Ok(()) => Ok(sink),
            Err(error) => Err(error),
        },
    }
}

/// An element that may be absent is valid UTF-8.
pub proof fn lemma_optional_is_valid(name: Seq<char>, text: Option<Seq<char>>)
    ensures
        valid_utf8(optional_element(name, text)),
{
    match text {
        Some(text) => {
            lemma_tags_are_valid(name, text);
        },
        None => {},
    }
}

/// The element of a sitemap record is valid UTF-8.
pub proof fn lemma_sitemap_element_is_valid(record: SitemapRecord)
    ensures
        valid_utf8(sitemap_element(record)),
{
    let location = text_element(LOCATION@, record.location@);
    let modified = optional_element(
        LAST_MODIFIED@,
        match record.last_modified {
            Some(modified) => Some(modified.spec_render()),
            None => None,
        },
    );
    let frequency = optional_element(
        CHANGE_FREQUENCY@,
        match record.change_frequency {
            Some(frequency) => Some(frequency.literal()),
            None => None,
        },
    );
    let priority = optional_element(
        PRIORITY@,
        match record.priority {
            Some(priority) => Some(spec_render(priority@)),
            None => None,
        },
    );
    lemma_tags_are_valid(URL@, Seq::empty());
    lemma_tags_are_valid(LOCATION@, record.location@);
    lemma_optional_is_valid(
        LAST_MODIFIED@,
        match record.last_modified {
            Some(modified) => Some(modified.spec_render()),
            None => None,
        },
    );
    lemma_optional_is_valid(
        CHANGE_FREQUENCY@,
        match record.change_frequency {
            Some(frequency) => Some(frequency.literal()),
            None => None,
        },
    );
    lemma_optional_is_valid(
        PRIORITY@,
        match record.priority {
            Some(priority) => Some(spec_render(priority@)),
            None => None,
        },
    );
    lemma_valid_concat(start_tag(URL@), location);
    lemma_valid_concat(start_tag(URL@) + location, modified);
    lemma_valid_concat(start_tag(URL@) + location + modified, frequency);
    lemma_valid_concat(start_tag(URL@) + location + modified + frequency, priority);
    lemma_valid_concat(
        start_tag(URL@) + location + modified + frequency + priority,
        end_tag(URL@),
    );
}

/// The element of an index record is valid UTF-8.
pub proof fn lemma_index_element_is_valid(record: IndexRecord)
    ensures
        valid_utf8(index_element(record)),
{
    let location = text_element(LOCATION@, record.location@);
    let modified = optional_element(
        LAST_MODIFIED@,
        match record.last_modified {
            Some(modified) => Some(modified.spec_render()),
            None => None,
        },
    );
    lemma_tags_are_valid(SITEMAP@, Seq::empty());
    lemma_tags_are_valid(LOCATION@, record.location@);
    lemma_optional_is_valid(
        LAST_MODIFIED@,
        match record.last_modified {
            Some(modified) => Some(modified.spec_render()),
            None => None,
        },
    );
    lemma_valid_concat(start_tag(SITEMAP@), location);
    lemma_valid_concat(start_tag(SITEMAP@) + location, modified);
    lemma_valid_concat(start_tag(SITEMAP@) + location + modified, end_tag(SITEMAP@));
}

/// A document of elements that are valid UTF-8 is valid UTF-8.
pub proof fn lemma_document_is_valid(root: Seq<char>, units: Seq<Seq<u8>>)
    requires
        forall|i: int| 0 <= i < units.len() ==> valid_utf8(#[trigger] units[i]),
    ensures
        spec_build(Seq::empty(), root, units) matches Ok(bytes) ==> valid_utf8(bytes),
{
    lemma_preamble_is_valid(root);
    assert(Seq::<u8>::empty() + preamble(root) =~= preamble(root));
    lemma_run_is_valid(Progress::fresh(Seq::empty() + preamble(root)), units);
    lemma_tags_are_valid(root, Seq::empty());
    match run(Progress::fresh(Seq::empty() + preamble(root)), units, 0) {
        Ok(after) => {
            lemma_valid_concat(after.sink, end_tag(root));
        },
        Err(_) => {},
    }
}

/// Writes the element of a sitemap record.
pub fn encode_sitemap_record(record: &SitemapRecord) -> (unit: Vec<u8>)
    ensures
        unit@ == sitemap_element(*record),
{
    let mut unit: Vec<u8> = Vec::new();
    write_start(&mut unit, URL);
    write_text_element(&mut unit, LOCATION, record.location.as_str());
    match &record.last_modified {
        Some(modified) => {
            let text = modified.to_string();
            write_text_element(&mut unit, LAST_MODIFIED, text.as_str());
        },
        None => {},
    }
    match &record.change_frequency {
        Some(frequency) => {
            let text = frequency.to_string();
            write_text_element(&mut unit, CHANGE_FREQUENCY, text.as_str());
        },
        None => {},
    }
    match &record.priority {
        Some(priority) => {
            let text = priority.to_string();
            write_text_element(&mut unit, PRIORITY, text.as_str());
        },
        None => {},
    }
    write_end(&mut unit, URL);
    assert(unit@ =~= sitemap_element(*record));
    unit
}

/// Writes the element of an index record.
pub fn encode_index_record(record: &IndexRecord) -> (unit: Vec<u8>)
    ensures
        unit@ == index_element(*record),
{
    let mut unit: Vec<u8> = Vec::new();
    write_start(&mut unit, SITEMAP);
    write_text_element(&mut unit, LOCATION, record.location.as_str());
    match &record.last_modified {
        Some(modified) => {
            let text = modified.to_string();
            write_text_element(&mut unit, LAST_MODIFIED, text.as_str());
        },
        None => {},
    }
    write_end(&mut unit, SITEMAP);
    assert(unit@ =~= index_element(*record));
    unit
}

/// A builder of XML documents of records of type `D`.
pub struct XmlBuilder<D> {
    record: PhantomData<D>,
    written_bytes: usize,
    written_records: usize,
    sink: Vec<u8>,
}

impl<D> View for XmlBuilder<D> {
    type V = Progress;

    closed spec fn view(&self) -> Progress {
        Progress {
            bytes: self.written_bytes as nat,
            records: self.written_records as nat,
            sink: self.sink@,
        }
    }
}

impl<D> XmlBuilder<D> {
    #[verifier::type_invariant]
    spec fn within(self) -> bool {
        &&& self.written_bytes <= BYTES_LIMIT
        &&& self.written_records <= RECORDS_LIMIT
    }

    /// Takes over the sink and begins a document under the given root.
    fn open(sink: Vec<u8>, root: &str) -> (r: Self)
        ensures
            r@ == Progress::fresh(sink@ + preamble(root@)),
    {
        let ghost given = sink@;
        let mut sink = sink;
        write_bom(&mut sink);
        write_start_with(&mut sink, root, XMLNS, NAMESPACE);
        assert(sink@ =~= given + preamble(root@));
        XmlBuilder { record: PhantomData, written_bytes: 0, written_records: 0, sink }
    }

    /// Offers the element of a record: it is appended where the limits
    /// accept it, and dropped where they do not.
    fn put(&mut self, unit: Vec<u8>) -> (r: Result<(), XmlBuilderError>)
        ensures
            r == refusal(verdict(old(self)@, unit@)),
            final(self)@ == advance(old(self)@, unit@),
    {
        proof {
            use_type_invariant(&*self);
        }
        let mut unit = unit;
        let length = unit.len();
        match assess(self.written_bytes, self.written_records, length) {
            Admission::TooManyRecords => Err(XmlBuilderError::TooManyRecords),
            Admission::TooManyBytes(excess) => Err(XmlBuilderError::TooManyBytes(excess)),
            Admission::Accepted => {
                let mut sink: Vec<u8> = Vec::new();
                core::mem::swap(&mut self.sink, &mut sink);
                sink.append(&mut unit);
                core::mem::swap(&mut self.sink, &mut sink);
                self.written_bytes = self.written_bytes + length;
                self.written_records = self.written_records + 1;
                Ok(())
            },
        }
    }

    /// Hands out what the sink holds and leaves it empty.
    fn empty(&mut self) -> (r: Vec<u8>)
        ensures
            r@ == old(self)@.sink,
            final(self)@ == old(self)@.drained(),
    {
        proof {
            use_type_invariant(&*self);
        }
        let mut sink: Vec<u8> = Vec::new();
        core::mem::swap(&mut self.sink, &mut sink);
        sink
    }

    /// Ends the document under the given root and hands the sink back.
    fn seal(self, root: &str) -> (sink: Vec<u8>)
        ensures
            sink@ == self@.sink + end_tag(root@),
    {
        let mut sink = self.sink;
        write_end(&mut sink, root);
        sink
    }
}

impl<D> BuilderStat for XmlBuilder<D> {
    open spec fn spec_written_bytes(&self) -> nat {
        self@.bytes
    }

    open spec fn spec_written_records(&self) -> nat {
        self@.records
    }

    fn written_bytes(&self) -> (r: usize)
        ensures
            r <= BYTES_LIMIT,
    {
        proof {
            use_type_invariant(self);
        }
        self.written_bytes
    }

    fn written_records(&self) -> (r: usize)
        ensures
            r <= RECORDS_LIMIT,
    {
        proof {
            use_type_invariant(self);
        }
        self.written_records
    }
}

impl Builder<SitemapRecord> for XmlBuilder<SitemapRecord> {
    type Error = XmlBuilderError;

    /// Takes over the sink and begins a sitemap: the byte-order mark and
    /// the start of `urlset`.
    fn new(sink: Vec<u8>) -> (r: Result<Self, XmlBuilderError>)
        ensures
            r matches Ok(builder) && builder@ == Progress::fresh(sink@ + preamble(URL_SET@)),
    {
        Ok(Self::open(sink, URL_SET))
    }

    /// Writes the element of a record, unless a limit forbids it; then
    /// nothing is written.
    fn next(&mut self, record: &SitemapRecord) -> (r: Result<(), XmlBuilderError>)
        ensures
            r == refusal(verdict(old(self)@, sitemap_element(*record))),
            final(self)@ == advance(old(self)@, sitemap_element(*record)),
    {
        self.put(encode_sitemap_record(record))
    }

    /// Hands out what the sink holds and leaves it empty; the counters stay.
    fn drain(&mut self) -> (r: Vec<u8>)
        ensures
            r@ == old(self)@.sink,
            final(self)@ == old(self)@.drained(),
    {
        self.empty()
    }

    /// Writes the end of `urlset` and hands the sink back.
    fn finalize(self) -> (r: Result<Vec<u8>, XmlBuilderError>)
        ensures
            r matches Ok(sink) && sink@ == self@.sink + end_tag(URL_SET@),
    {
        Ok(self.seal(URL_SET))
    }
}

impl Builder<IndexRecord> for XmlBuilder<IndexRecord> {
    type Error = XmlBuilderError;

    /// Takes over the sink and begins a sitemap index: the byte-order mark
    /// and the start of `sitemapindex`.
    fn new(sink: Vec<u8>) -> (r: Result<Self, XmlBuilderError>)
        ensures
            r matches Ok(builder) && builder@ == Progress::fresh(
                sink@ + preamble(SITEMAP_INDEX@),
            ),
    {
        Ok(Self::open(sink, SITEMAP_INDEX))
    }

    /// Writes the element of a record, unless a limit forbids it; then
    /// nothing is written.
    fn next(&mut self, record: &IndexRecord) -> (r: Result<(), XmlBuilderError>)
        ensures
            r == refusal(verdict(old(self)@, index_element(*record))),
            final(self)@ == advance(old(self)@, index_element(*record)),
    {
        self.put(encode_index_record(record))
    }

    /// Hands out what the sink holds and leaves it empty; the counters stay.
    fn drain(&mut self) -> (r: Vec<u8>)
        ensures
            r@ == old(self)@.sink,
            final(self)@ == old(self)@.drained(),
    {
        self.empty()
    }

    /// Writes the end of `sitemapindex` and hands the sink back.
    fn finalize(self) -> (r: Result<Vec<u8>, XmlBuilderError>)
        ensures
            r matches Ok(sink) && sink@ == self@.sink + end_tag(SITEMAP_INDEX@),
    {
        Ok(self.seal(SITEMAP_INDEX))
    }
}

impl IteratorBuilder<SitemapRecord> for XmlBuilder<SitemapRecord> {
    /// Builds a sitemap of the records behind what the sink holds.
    fn build(sink: Vec<u8>, records: &[SitemapRecord]) -> (r: Result<Vec<u8>, XmlBuilderError>)
        ensures
            match r {
                Ok(built) => spec_build(sink@, URL_SET@, sitemap_elements(records@)) == Ok::<
                    Seq<u8>,
                    XmlBuilderError,
                >(built@),
                Err(error) => spec_build(sink@, URL_SET@, sitemap_elements(records@)) == Err::<
                    Seq<u8>,
                    XmlBuilderError,
                >(error),
            },
    {
        let ghost start = Progress::fresh(sink@ + preamble(URL_SET@));
        let ghost units = sitemap_elements(records@);
        let mut builder = Self::open(sink, URL_SET);
        let mut at: usize = 0;
        while at < records.len()
            invariant
                at <= records@.len(),
                start == Progress::fresh(sink@ + preamble(URL_SET@)),
                units == sitemap_elements(records@),
                run(start, units, 0) == run(builder@, units, at as int),
            decreases records@.len() - at,
        {
            let ghost before = builder@;
            match builder.next(&records[at]) {
                Ok(()) => {
                    assert(run(before, units, at as int) == run(builder@, units, at + 1));
                },
                Err(error) => {
                    assert(run(before, units, at as int) == Err::<Progress, Admission>(
                        verdict(before, units[at as int]),
                    ));
                    return Err(error);
                },
            }
            at += 1;
        }
        builder.finalize()
    }
}

impl IteratorBuilder<IndexRecord> for XmlBuilder<IndexRecord> {
    /// Builds a sitemap index of the records behind what the sink holds.
    fn build(sink: Vec<u8>, records: &[IndexRecord]) -> (r: Result<Vec<u8>, XmlBuilderError>)
        ensures
            match r {
                Ok(built) => spec_build(sink@, SITEMAP_INDEX@, index_elements(records@)) == Ok::<
                    Seq<u8>,
                    XmlBuilderError,
                >(built@),
                Err(error) => spec_build(sink@, SITEMAP_INDEX@, index_elements(records@))
                    == Err::<Seq<u8>, XmlBuilderError>(error),
            },
    {
        let ghost start = Progress::fresh(sink@ + preamble(SITEMAP_INDEX@));
        let ghost units = index_elements(records@);
        let mut builder = Self::open(sink, SITEMAP_INDEX);
        let mut at: usize = 0;
        while at < records.len()
            invariant
                at <= records@.len(),
                start == Progress::fresh(sink@ + preamble(SITEMAP_INDEX@)),
                units == index_elements(records@),
                run(start, units, 0) == run(builder@, units, at as int),
            decreases records@.len() - at,
        {
            let ghost before = builder@;
            match builder.next(&records[at]) {
                Ok(()) => {
                    assert(run(before, units, at as int) == run(builder@, units, at + 1));
                },
                Err(error) => {
                    assert(run(before, units, at as int) == Err::<Progress, Admission>(
                        verdict(before, units[at as int]),
                    ));
                    return Err(error);
                },
            }
            at += 1;
        }
        builder.finalize()
    }
}

impl StringBuilder<SitemapRecord> for XmlBuilder<SitemapRecord> {
    /// Builds a sitemap of the records as a text.
    fn build_string(records: &[SitemapRecord]) -> (r: Result<String, XmlBuilderError>)
        ensures
            match r {
                Ok(built) => spec_build(Seq::empty(), URL_SET@, sitemap_elements(records@))
                    == Ok::<Seq<u8>, XmlBuilderError>(encode_utf8(built@)),
                Err(error) => spec_build(Seq::empty(), URL_SET@, sitemap_elements(records@))
                    == Err::<Seq<u8>, XmlBuilderError>(error),
            },
    {
        match Self::build(Vec::new(), records) {
            Ok(built) => {
                proof {
                    let units = sitemap_elements(records@);
                    assert forall|i: int| 0 <= i < units.len() implies valid_utf8(
                        #[trigger] units[i],
                    ) by {
                        lemma_sitemap_element_is_valid(records@[i]);
                    }
                    lemma_document_is_valid(URL_SET@, units);
                }
                Ok(text_from(built.as_slice()))
            },
            Err(error) => Err(error),
        }
    }
}

impl StringBuilder<IndexRecord> for XmlBuilder<IndexRecord> {
    /// Builds a sitemap index of the records as a text.
    fn build_string(records: &[IndexRecord]) -> (r: Result<String, XmlBuilderError>)
        ensures
            match r {
                Ok(built) => spec_build(Seq::empty(), SITEMAP_INDEX@, index_elements(records@))
                    == Ok::<Seq<u8>, XmlBuilderError>(encode_utf8(built@)),
                Err(error) => spec_build(Seq::empty(), SITEMAP_INDEX@, index_elements(records@))
                    == Err::<Seq<u8>, XmlBuilderError>(error),
            },
    {
        match Self::build(Vec::new(), records) {
            Ok(built) => {
                proof {
                    let units = index_elements(records@);
                    assert forall|i: int| 0 <= i < units.len() implies valid_utf8(
                        #[trigger] units[i],
                    ) by {
                        lemma_index_element_is_valid(records@[i]);
                    }
                    lemma_document_is_valid(SITEMAP_INDEX@, units);
                }
                Ok(text_from(built.as_slice()))
            },
            Err(error) => Err(error),
        }
    }
}

} // verus!
