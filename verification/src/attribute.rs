//! Self-validating attributes of a record.
//!
//! Each attribute is made from text by `parse`, which rejects what its
//! grammar does not allow, and gives its canonical text back by `to_string`.

pub mod date;
pub mod frequency;
pub mod location;
pub mod modified;
pub mod priority;
pub mod text;

pub use crate::attribute::date::Date;
pub use crate::attribute::frequency::{ChangeFrequency, ChangeFrequencyError};
pub use crate::attribute::location::{Location, LocationError};
pub use crate::attribute::modified::{LastModified, LastModifiedError, Timestamp};
pub use crate::attribute::priority::{
    Decimal, DecimalError, Priority, PriorityError, PriorityRangeError,
};

use vstd::prelude::*;

verus! {

/// An attribute that is read from text and wraps a value of type `T`.
pub trait Attribute<T>: Sized {
    /// Why a text was rejected.
    type Error;

    /// Reads the attribute from its textual form.
    fn parse(attribute: &str) -> Result<Self, Self::Error>;

    /// The value that the attribute wraps.
    fn underlying(&self) -> T;
}

} // verus!
