//! A record of either kind of document.

use vstd::prelude::*;

use crate::record::index::IndexRecord;
use crate::record::sitemap::SitemapRecord;

verus! {

/// A record of a sitemap, or of a sitemap index.
#[derive(Debug, Clone, PartialEq)]
pub enum AutodefRecord {
    Sitemap(SitemapRecord),
    Index(IndexRecord),
}

impl AutodefRecord {
    /// Wraps a sitemap record.
    pub fn from_sitemap(record: SitemapRecord) -> (r: Self)
        ensures
            r == AutodefRecord::Sitemap(record),
    {
        AutodefRecord::Sitemap(record)
    }

    /// Wraps an index record.
    pub fn from_index(record: IndexRecord) -> (r: Self)
        ensures
            r == AutodefRecord::Index(record),
    {
        AutodefRecord::Index(record)
    }
}

} // verus!
