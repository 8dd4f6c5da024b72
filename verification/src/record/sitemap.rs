//! The entry of a sitemap: one URL and what is known of it.

use vstd::prelude::*;

use crate::attribute::frequency::ChangeFrequency;
use crate::attribute::location::{Location, LocationError};
use crate::attribute::Attribute;
use crate::attribute::modified::{LastModified, Timestamp};
use crate::attribute::priority::Priority;
use crate::record::Record;

verus! {

/// One URL of a site, with the optional attributes of the protocol.
#[derive(Debug, Clone, PartialEq)]
pub struct SitemapRecord {
    pub location: Location,
    pub last_modified: Option<LastModified>,
    pub change_frequency: Option<ChangeFrequency>,
    pub priority: Option<Priority>,
}

/// What a sitemap record holds: the canonical text of its location, the
/// timestamp of its last modification, its change frequency, and its
/// priority in millionths.
pub struct SitemapModel {
    pub location: Seq<char>,
    pub last_modified: Option<Timestamp>,
    pub change_frequency: Option<ChangeFrequency>,
    pub priority: Option<int>,
}

impl View for SitemapRecord {
    type V = SitemapModel;

    open spec fn view(&self) -> SitemapModel {
        SitemapModel {
            location: self.location@,
            last_modified: match self.last_modified {
                Some(modified) => Some(modified@),
                None => None,
            },
            change_frequency: self.change_frequency,
            priority: match self.priority {
                Some(priority) => Some(priority@),
                None => None,
            },
        }
    }
}

impl SitemapRecord {
    /// Makes the record of the location that a text holds, with no optional
    /// attribute set.
    pub fn parse(url: &str) -> (r: Result<Self, LocationError>)
        ensures
            match r {
                Ok(record) => Location::spec_parse(url@) == Some(record.location@)
                    && record.last_modified is None && record.change_frequency is None
                    && record.priority is None,
                Err(_) => Location::spec_parse(url@) is None,
            },
    {
        match Location::parse(url) {
            Ok(location) => Ok(Self::new(location)),
            Err(error) => Err(error),
        }
    }

    /// Sets the moment of the last change and hands the record back.
    pub fn with_timestamp(&mut self, modified: LastModified) -> (r: &mut Self)
        ensures
            *r == (SitemapRecord { last_modified: Some(modified), ..*old(self) }),
            *final(self) == *final(r),
    {
        self.last_modified = Some(modified);
        self
    }

    /// Sets the change frequency and hands the record back.
    pub fn with_frequency(&mut self, frequency: ChangeFrequency) -> (r: &mut Self)
        ensures
            *r == (SitemapRecord { change_frequency: Some(frequency), ..*old(self) }),
            *final(self) == *final(r),
    {
        self.change_frequency = Some(frequency);
        self
    }

    /// Sets the priority and hands the record back.
    pub fn with_priority(&mut self, priority: Priority) -> (r: &mut Self)
        ensures
            *r == (SitemapRecord { priority: Some(priority), ..*old(self) }),
            *final(self) == *final(r),
    {
        self.priority = Some(priority);
        self
    }
}

impl Record for SitemapRecord {
    /// Makes the record of a location, with no optional attribute set.
    fn new(location: Location) -> (r: Self)
        ensures
            r == (SitemapRecord {
                location,
                last_modified: None,
                change_frequency: None,
                priority: None,
            }),
    {
        SitemapRecord { location, last_modified: None, change_frequency: None, priority: None }
    }
}

} // verus!
