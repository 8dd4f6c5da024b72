//! A codec for the Sitemap protocol.
//!
//! Validated attributes ([`attribute`]) are assembled into records
//! ([`record`]); builders ([`build`]) turn records into the plain-text and the
//! XML wire form, parsers ([`parse`]) read them back, and both keep to the
//! protocol's limits ([`limits`]).

pub mod attribute;
pub mod build;
pub mod converter;
pub mod encoding;
pub mod limits;
pub mod parse;
pub mod record;
pub mod xml;

pub use crate::record::autodef::AutodefRecord;
pub use crate::record::index::IndexRecord;
pub use crate::record::sitemap::SitemapRecord;
pub use crate::record::Record;
