//! Converters: a whole document in one call, between a text and the records
//! that it lists.

pub mod txt;
pub mod xml;

pub use crate::converter::txt::{TxtConverter, TxtError};
pub use crate::converter::xml::{XmlConverter, XmlError};

use vstd::prelude::*;

use crate::record::index::IndexRecord;
use crate::record::sitemap::SitemapRecord;

verus! {

/// A converter between sitemaps and sequences of sitemap records.
pub trait ConvertSitemap {
    /// Why a text could not be read.
    type DeError;

    /// Why records could not be written.
    type SeError;

    /// Reads all records of a sitemap.
    fn deserialize(&self, sitemap: &str) -> Result<Vec<SitemapRecord>, Self::DeError>;

    /// Writes a sitemap of the records.
    fn serialize(&self, records: &[SitemapRecord]) -> Result<String, Self::SeError>;
}

/// A converter between sitemap indexes and sequences of index records.
pub trait ConvertIndex {
    /// Why a text could not be read.
    type DeError;

    /// Why records could not be written.
    type SeError;

    /// Reads all records of a sitemap index.
    fn deserialize_index(&self, index: &str) -> Result<Vec<IndexRecord>, Self::DeError>;

    /// Writes a sitemap index of the records.
    fn serialize_index(&self, records: &[IndexRecord]) -> Result<String, Self::SeError>;
}

} // verus!
