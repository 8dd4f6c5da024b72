//! Whole plain-text sitemaps.

use vstd::prelude::*;
use vstd::slice::slice_to_vec;
use vstd::utf8::encode_utf8;

use crate::build::txt::{spec_build, TxtBuilder, TxtBuilderError};
use crate::build::StringBuilder;
use crate::converter::ConvertSitemap;
use crate::parse::txt::{
    found, lemma_unit_end, settle, skips, sought, step, TxtParser, TxtParserError,
};
use crate::parse::{Cursor, Parser};
use crate::record::sitemap::{SitemapModel, SitemapRecord};

verus! {

/// Why a plain-text sitemap could not be converted: the limit that it
/// crossed.
#[derive(Debug, Clone, Copy, PartialEq, Eq, Structural)]
pub struct TxtError(pub TxtParserError);

/// A converter of plain-text sitemaps.
#[derive(Debug, Clone, Copy, PartialEq, Eq, Structural)]
pub struct TxtConverter {}

/// What a record of a location alone holds.
pub open spec fn bare(location: Seq<char>) -> SitemapModel {
    SitemapModel { location, last_modified: None, change_frequency: None, priority: None }
}

/// What the records of a sequence hold.
pub open spec fn models(records: Seq<SitemapRecord>) -> Seq<SitemapModel> {
    Seq::new(records.len(), |i: int| records[i]@)
}

/// The records that a parser hands out from a cursor on, up to the end of
/// its source, or the limit that ends the reading.
pub open spec fn drained(before: Cursor) -> Result<Seq<SitemapModel>, TxtParserError>
    decreases before.source.len() - before.position,
{
    match sought(before) {
        Ok(None) => Ok(Seq::empty()),
        Err(error) => Err(error),
        Ok(Some(location)) => if before.position < settle(before).position
            <= before.source.len() && settle(before).source == before.source {
            match drained(settle(before)) {
                Ok(rest) => Ok(seq![bare(location)] + rest),
                Err(error) => Err(error),
            }
        } else {
            Ok(seq![bare(location)])
        },
    }
}

/// The error of the converter that stands for an error of the builder.
pub open spec fn unbuilt(error: TxtBuilderError) -> TxtError {
    match error {
        TxtBuilderError::TooManyRecords => TxtError(TxtParserError::TooManyRecords),
        TxtBuilderError::TooManyBytes(excess) => TxtError(TxtParserError::TooManyBytes(excess)),
    }
}

/// A record that is found lies behind the cursor, within the same source.
pub proof fn lemma_settle(before: Cursor)
    requires
        before.position <= before.source.len(),
    ensures
        settle(before).source == before.source,
        before.position <= settle(before).position <= before.source.len(),
        sought(before) matches Ok(Some(_)) ==> before.position < settle(before).position,
    decreases before.source.len() - before.position,
{
    if before.position < before.source.len() {
        lemma_unit_end(before.source, before.position as int);
    }
    if skips(before) {
        lemma_settle(step(before));
    }
}

impl TxtConverter {
    /// Makes a converter.
    pub fn new() -> (r: Self)
        ensures
            r == (TxtConverter {  }),
    {
        TxtConverter {  }
    }
}

impl ConvertSitemap for TxtConverter {
    type DeError = TxtError;

    type SeError = TxtError;

    /// Reads the records of a plain-text sitemap: one for each line that
    /// holds a URL.
    fn deserialize(&self, sitemap: &str) -> (r: Result<Vec<SitemapRecord>, TxtError>)
        ensures
            match r {
                Ok(records) => drained(Cursor::fresh(encode_utf8(sitemap@))) == Ok::<
                    Seq<SitemapModel>,
                    TxtParserError,
                >(models(records@)),
                Err(error) => drained(Cursor::fresh(encode_utf8(sitemap@))) == Err::<
                    Seq<SitemapModel>,
                    TxtParserError,
                >(error.0),
            },
    {
        let ghost start = Cursor::fresh(encode_utf8(sitemap@));
        let mut parser = match TxtParser::new(slice_to_vec(sitemap.as_bytes())) {
            Ok(parser) => parser,
            Err(error) => {
                return Err(TxtError(error));
            },
        };
        let mut records: Vec<SitemapRecord> = Vec::new();
        assert(models(records@) =~= Seq::empty());
        assert(Seq::<SitemapModel>::empty() + drained(start)->Ok_0 =~= drained(start)->Ok_0);
        loop
            invariant
                start == Cursor::fresh(encode_utf8(sitemap@)),
                parser@.position <= parser@.source.len(),
                drained(start) == match drained(parser@) {
                    Ok(rest) => Ok::<Seq<SitemapModel>, TxtParserError>(models(records@) + rest),
                    Err(error) => Err(error),
                },
            decreases parser@.source.len() - parser@.position,
        {
            let ghost before = parser@;
            let ghost read = models(records@);
            proof {
                lemma_settle(before);
            }
            match parser.next() {
                Err(error) => {
                    return Err(TxtError(error));
                },
                Ok(None) => {
                    assert(read + Seq::<SitemapModel>::empty() =~= read);
                    return Ok(records);
                },
                Ok(Some(record)) => {
                    records.push(record);
                    proof {
                        assert(record@ == bare(record.location@));
                        assert(models(records@) =~= read.push(record@));
                        match drained(parser@) {
                            Ok(rest) => {
                                assert(read + (seq![record@] + rest) =~= read.push(record@) + rest);
                            },
                            Err(_) => {},
                        }
                    }
                },
            }
        }
    }

    /// Writes a plain-text sitemap of the records: the line of each.
    fn serialize(&self, records: &[SitemapRecord]) -> (r: Result<String, TxtError>)
        ensures
            match r {
                Ok(built) => spec_build(Seq::empty(), records@) == Ok::<Seq<u8>, TxtBuilderError>(
                    encode_utf8(built@),
                ),
                Err(error) => spec_build(Seq::empty(), records@) matches Err(refused) && error
                    == unbuilt(refused),
            },
    {
        match TxtBuilder::build_string(records) {
            Ok(built) => Ok(built),
            Err(TxtBuilderError::TooManyRecords) => Err(TxtError(TxtParserError::TooManyRecords)),
            Err(TxtBuilderError::TooManyBytes(excess)) => Err(
                TxtError(TxtParserError::TooManyBytes(excess)),
            ),
        }
    }
}

} // verus!
