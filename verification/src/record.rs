//! Records: the entries of a sitemap and of a sitemap index.

pub mod autodef;
pub mod extension;
pub mod index;
pub mod sitemap;

use vstd::prelude::*;

use crate::attribute::location::Location;

verus! {

/// An entry of a document. Every entry is about one location and is made
/// from it, with nothing else set.
pub trait Record: Sized {
    /// Makes the entry for a location.
    fn new(location: Location) -> Self;
}

} // verus!
