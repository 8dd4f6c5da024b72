//! Whole XML sitemaps and sitemap indexes.

use vstd::prelude::*;
use vstd::slice::slice_to_vec;
use vstd::utf8::encode_utf8;

use crate::build::xml::{
    index_elements, sitemap_elements, spec_build, XmlBuilder, XmlBuilderError,
};
use crate::build::StringBuilder;
use crate::converter::txt::models;
use crate::converter::{ConvertIndex, ConvertSitemap};
use crate::parse::xml::{
    index_dialect, index_of, lemma_step, settle, sitemap_dialect, sitemap_of, skips, sought, step,
    Dialect, Fields, XmlCursor, XmlParser, XmlParserError,
};
use crate::parse::Parser;
use crate::record::index::{IndexModel, IndexRecord};
use crate::record::sitemap::{SitemapModel, SitemapRecord};
use crate::xml::{SITEMAP_INDEX, URL_SET};

verus! {

/// Why an XML document could not be converted: the limit that it crossed,
/// or that it is malformed.
#[derive(Debug, Clone, Copy, PartialEq, Eq, Structural)]
pub struct XmlError(pub XmlParserError);

/// A converter of XML sitemaps and sitemap indexes.
#[derive(Debug, Clone, Copy, PartialEq, Eq, Structural)]
pub struct XmlConverter {}

/// What the index records of a sequence hold.
pub open spec fn index_models(records: Seq<IndexRecord>) -> Seq<IndexModel> {
    Seq::new(records.len(), |i: int| records[i]@)
}

/// Whether the parser stands behind where it stood, within the same source.
pub open spec fn moved(before: XmlCursor, after: XmlCursor) -> bool {
    before.position < after.position <= before.source.len() && after.source == before.source
}

/// The sitemap records that a parser hands out from a cursor on, up to the
/// end of the document, or what ends the reading.
pub open spec fn drained(before: XmlCursor) -> Result<Seq<SitemapModel>, XmlParserError>
    decreases before.source.len() - before.position,
{
    match sought(before, sitemap_dialect()) {
        Ok(None) => Ok(Seq::empty()),
        Err(error) => Err(error),
        Ok(Some(fields)) => match sitemap_of(fields) {
            None => Ok(Seq::empty()),
            Some(model) => if moved(before, settle(before, sitemap_dialect())) {
                match drained(settle(before, sitemap_dialect())) {
                    Ok(rest) => Ok(seq![model] + rest),
                    Err(error) => Err(error),
                }
            } else {
                Ok(seq![model])
            },
        },
    }
}

/// The index records that a parser hands out from a cursor on, up to the
/// end of the document, or what ends the reading.
pub open spec fn drained_index(before: XmlCursor) -> Result<Seq<IndexModel>, XmlParserError>
    decreases before.source.len() - before.position,
{
    match sought(before, index_dialect()) {
        Ok(None) => Ok(Seq::empty()),
        Err(error) => Err(error),
        Ok(Some(fields)) => match index_of(fields) {
            None => Ok(Seq::empty()),
            Some(model) => if moved(before, settle(before, index_dialect())) {
                match drained_index(settle(before, index_dialect())) {
                    Ok(rest) => Ok(seq![model] + rest),
                    Err(error) => Err(error),
                }
            } else {
                Ok(seq![model])
            },
        },
    }
}

/// The error of the converter that stands for an error of the builder.
pub open spec fn unbuilt(error: XmlBuilderError) -> XmlError {
    match error {
        XmlBuilderError::TooManyRecords => XmlError(XmlParserError::TooManyRecords),
        XmlBuilderError::TooManyBytes(excess) => XmlError(XmlParserError::TooManyBytes(excess)),
    }
}

/// A record that is found lies behind the cursor, within the same source.
pub proof fn lemma_settle(before: XmlCursor, dialect: Dialect)
    requires
        before.position <= before.source.len(),
    ensures
        settle(before, dialect).source == before.source,
        before.position <= settle(before, dialect).position <= before.source.len(),
        sought(before, dialect) matches Ok(Some(_)) ==> before.position < settle(
            before,
            dialect,
        ).position,
    decreases before.source.len() - before.position,
{
    lemma_step(before, dialect);
    if skips(before, dialect) {
        lemma_settle(step(before, dialect).0, dialect);
    }
}

impl XmlConverter {
    /// Makes a converter.
    pub fn new() -> (r: Self)
        ensures
            r == (XmlConverter {  }),
    {
        XmlConverter {  }
    }
}

/// The error of the converter for an error of the builder.
fn refused(error: XmlBuilderError) -> (r: XmlError)
    ensures
        r == unbuilt(error),
{
    match error {
        XmlBuilderError::TooManyRecords => XmlError(XmlParserError::TooManyRecords),
        XmlBuilderError::TooManyBytes(excess) => XmlError(XmlParserError::TooManyBytes(excess)),
    }
}

impl ConvertSitemap for XmlConverter {
    type DeError = XmlError;

    type SeError = XmlError;

    /// Reads the records of an XML sitemap.
    fn deserialize(&self, sitemap: &str) -> (r: Result<Vec<SitemapRecord>, XmlError>)
        ensures
            match r {
                Ok(records) => drained(XmlCursor::fresh(encode_utf8(sitemap@))) == Ok::<
                    Seq<SitemapModel>,
                    XmlParserError,
                >(models(records@)),
                Err(error) => drained(XmlCursor::fresh(encode_utf8(sitemap@))) == Err::<
                    Seq<SitemapModel>,
                    XmlParserError,
                >(error.0),
            },
    {
        let ghost start = XmlCursor::fresh(encode_utf8(sitemap@));
        let made: Result<XmlParser<SitemapRecord>, XmlParserError> = XmlParser::new(
            slice_to_vec(sitemap.as_bytes()),
        );
        let mut parser = match made {
            Ok(parser) => parser,
            Err(error) => {
                return Err(XmlError(error));
            },
        };
        let mut records: Vec<SitemapRecord> = Vec::new();
        assert(models(records@) =~= Seq::empty());
        assert(Seq::<SitemapModel>::empty() + drained(start)->Ok_0 =~= drained(start)->Ok_0);
        loop
            invariant
                start == XmlCursor::fresh(encode_utf8(sitemap@)),
                parser@.position <= parser@.source.len(),
                drained(start) == match drained(parser@) {
                    Ok(rest) => Ok::<Seq<SitemapModel>, XmlParserError>(models(records@) + rest),
                    Err(error) => Err(error),
                },
            decreases parser@.source.len() - parser@.position,
        {
            let ghost before = parser@;
            let ghost read = models(records@);
            proof {
                lemma_settle(before, sitemap_dialect());
            }
            match parser.next() {
                Err(error) => {
                    return Err(XmlError(error));
                },
                Ok(None) => {
                    assert(read + Seq::<SitemapModel>::empty() =~= read);
                    return Ok(records);
                },
                Ok(Some(record)) => {
                    records.push(record);
                    proof {
                        assert(models(records@) =~= read.push(record@));
                        match drained(parser@) {
                            Ok(rest) => {
                                assert(read + (seq![record@] + rest) =~= read.push(record@) + rest);
                            },
                            Err(_) => {},
                        }
                    }
                },
            }
        }
    }

    /// Writes an XML sitemap of the records.
    fn serialize(&self, records: &[SitemapRecord]) -> (r: Result<String, XmlError>)
        ensures
            match r {
                Ok(built) => spec_build(Seq::empty(), URL_SET@, sitemap_elements(records@))
                    == Ok::<Seq<u8>, XmlBuilderError>(encode_utf8(built@)),
                Err(error) => spec_build(Seq::empty(), URL_SET@, sitemap_elements(records@))
                    matches Err(refused) && error == unbuilt(refused),
            },
    {
        let built: Result<String, XmlBuilderError> = XmlBuilder::<SitemapRecord>::build_string(
            records,
        );
        match built {
            Ok(built) => Ok(built),
            Err(error) => Err(refused(error)),
        }
    }
}

impl ConvertIndex for XmlConverter {
    type DeError = XmlError;

    type SeError = XmlError;

    /// Reads the records of an XML sitemap index.
    fn deserialize_index(&self, index: &str) -> (r: Result<Vec<IndexRecord>, XmlError>)
        ensures
            match r {
                Ok(records) => drained_index(XmlCursor::fresh(encode_utf8(index@))) == Ok::<
                    Seq<IndexModel>,
                    XmlParserError,
                >(index_models(records@)),
                Err(error) => drained_index(XmlCursor::fresh(encode_utf8(index@))) == Err::<
                    Seq<IndexModel>,
                    XmlParserError,
                >(error.0),
            },
    {
        let ghost start = XmlCursor::fresh(encode_utf8(index@));
        let made: Result<XmlParser<IndexRecord>, XmlParserError> = XmlParser::new(
            slice_to_vec(index.as_bytes()),
        );
        let mut parser = match made {
            Ok(parser) => parser,
            Err(error) => {
                return Err(XmlError(error));
            },
        };
        let mut records: Vec<IndexRecord> = Vec::new();
        assert(index_models(records@) =~= Seq::empty());
        assert(Seq::<IndexModel>::empty() + drained_index(start)->Ok_0 =~= drained_index(
            start,
        )->Ok_0);
        loop
            invariant
                start == XmlCursor::fresh(encode_utf8(index@)),
                parser@.position <= parser@.source.len(),
                drained_index(start) == match drained_index(parser@) {
                    Ok(rest) => Ok::<Seq<IndexModel>, XmlParserError>(
                        index_models(records@) + rest,
                    ),
                    Err(error) => Err(error),
                },
            decreases parser@.source.len() - parser@.position,
        {
            let ghost before = parser@;
            let ghost read = index_models(records@);
            proof {
                lemma_settle(before, index_dialect());
            }
            match parser.next() {
                Err(error) => {
                    return Err(XmlError(error));
                },
                Ok(None) => {
                    assert(read + Seq::<IndexModel>::empty() =~= read);
                    return Ok(records);
                },
                Ok(Some(record)) => {
                    records.push(record);
                    proof {
                        assert(index_models(records@) =~= read.push(record@));
                        match drained_index(parser@) {
                            Ok(rest) => {
                                assert(read + (seq![record@] + rest) =~= read.push(record@) + rest);
                            },
                            Err(_) => {},
                        }
                    }
                },
            }
        }
    }

    /// Writes an XML sitemap index of the records.
    fn serialize_index(&self, records: &[IndexRecord]) -> (r: Result<String, XmlError>)
        ensures
            match r {
                Ok(built) => spec_build(Seq::empty(), SITEMAP_INDEX@, index_elements(records@))
                    == Ok::<Seq<u8>, XmlBuilderError>(encode_utf8(built@)),
                Err(error) => spec_build(Seq::empty(), SITEMAP_INDEX@, index_elements(records@))
                    matches Err(refused) && error == unbuilt(refused),
            },
    {
        let built: Result<String, XmlBuilderError> = XmlBuilder::<IndexRecord>::build_string(
            records,
        );
        match built {
            Ok(built) => Ok(built),
            Err(error) => Err(refused(error)),
        }
    }
}

} // verus!
