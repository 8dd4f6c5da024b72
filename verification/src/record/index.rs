//! The entry of a sitemap index: the location of one sitemap.

use vstd::prelude::*;

use crate::attribute::location::Location;
use crate::attribute::modified::{LastModified, Timestamp};
use crate::record::Record;

verus! {

/// One sitemap of a site, with the moment of its last change.
#[derive(Debug, Clone, PartialEq)]
pub struct IndexRecord {
    pub location: Location,
    pub last_modified: Option<LastModified>,
}

/// What an index record holds: the canonical text of its location and the
/// timestamp of its last modification.
pub struct IndexModel {
    pub location: Seq<char>,
    pub last_modified: Option<Timestamp>,
}

impl View for IndexRecord {
    type V = IndexModel;

    open spec fn view(&self) -> IndexModel {
        IndexModel {
            location: self.location@,
            last_modified: match self.last_modified {
                Some(modified) => Some(modified@),
                None => None,
            },
        }
    }
}

impl IndexRecord {
    /// Sets the moment of the last change and hands the record back.
    pub fn with_timestamp(&mut self, modified: LastModified) -> (r: &mut Self)
        ensures
            *r == (IndexRecord { last_modified: Some(modified), ..*old(self) }),
            *final(self) == *final(r),
    {
        self.last_modified = Some(modified);
        self
    }
}

impl Record for IndexRecord {
    /// Makes the record of a location, with no timestamp set.
    fn new(location: Location) -> (r: Self)
        ensures
            r == (IndexRecord { location, last_modified: None }),
    {
        IndexRecord { location, last_modified: None }
    }
}

} // verus!
