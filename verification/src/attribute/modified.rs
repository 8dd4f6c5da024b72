//! When a resource last changed: an ISO 8601 timestamp.

use vstd::prelude::*;
use vstd::string::StringSliceAdditionalSpecFns;

use crate::attribute::date::Date;
use crate::attribute::Attribute;

verus! {

/// The error of the `time` crate's parsers.
#[verifier::external_type_specification]
#[verifier::external_body]
pub struct ExTimeParseError(time::error::Parse);

/// The ISO 8601 configuration that timestamps are written in: calendar date,
/// time to the hundredth of a second, offset in hours and minutes, with
/// separators. It is the default configuration of `time` with the time
/// precision set to seconds with two decimal digits, as `time` encodes it.
pub const LAST_MODIFIED_FORMAT: u128 = 0x0501_0000_0202_0100_0000_0000_0000_0000;

/// The nanoseconds in a hundredth of a second.
pub const HUNDREDTH: u32 = 10_000_000;

/// The byte that separates date and time in a complete timestamp: `T`.
pub const TIME_DESIGNATOR: u8 = 0x54;

/// A date and a time of day with the offset from UTC that they are given in.
#[derive(Debug, Clone, Copy, PartialEq, Eq, Structural)]
pub struct Timestamp {
    pub year: i32,
    pub month: u8,
    pub day: u8,
    pub hour: u8,
    pub minute: u8,
    pub second: u8,
    pub nanosecond: u32,
    /// The offset from UTC, in seconds; east is positive.
    pub offset_seconds: i32,
}

/// The timestamp that `time::OffsetDateTime::parse` reads from a text in the
/// default ISO 8601 format; `None` where it reads none.
pub uninterp spec fn date_time_of(text: Seq<char>) -> Option<Timestamp>;

/// The date that `time::Date::parse` reads from a text in the default
/// ISO 8601 format; `None` where it reads none.
pub uninterp spec fn date_of(text: Seq<char>) -> Option<Date>;

/// The text that `time::OffsetDateTime::format` writes for a timestamp in
/// the format `LAST_MODIFIED_FORMAT`; `None` where the fields are no
/// timestamp or the format has no text for it.
pub uninterp spec fn date_time_text(stamp: Timestamp) -> Option<Seq<char>>;

/// Why a text is no last-modified timestamp.
#[derive(Debug, PartialEq)]
pub enum LastModifiedError {
    /// The text has a time part and is no complete timestamp.
    CompleteTimestamp(time::error::Parse),
    /// The text has no time part and is no date.
    InCompleteTimestamp(time::error::Parse),
    /// The timestamp was read, but has no text in the output format.
    Unwritable(Timestamp),
}

/// The moment of the last change, as a complete timestamp, to the hundredth
/// of a second. Two of them are equal where their fields are: the same
/// moment given in another offset is another value.
#[derive(Debug, Clone, Copy, PartialEq)]
pub struct LastModified {
    stamp: Timestamp,
}

impl View for LastModified {
    type V = Timestamp;

    /// The timestamp itself.
    closed spec fn view(&self) -> Timestamp {
        self.stamp
    }
}

impl Timestamp {
    /// The first moment of a date, in UTC.
    pub open spec fn spec_midnight(date: Date) -> Timestamp {
        Timestamp {
            year: date.year,
            month: date.month,
            day: date.day,
            hour: 0,
            minute: 0,
            second: 0,
            nanosecond: 0,
            offset_seconds: 0,
        }
    }

    /// The first moment of a date, in UTC.
    pub fn midnight(date: Date) -> (r: Timestamp)
        ensures
            r == Self::spec_midnight(date),
    {
        Timestamp {
            year: date.year,
            month: date.month,
            day: date.day,
            hour: 0,
            minute: 0,
            second: 0,
            nanosecond: 0,
            offset_seconds: 0,
        }
    }

    /// The timestamp cut to hundredths of a second, which is all that the
    /// output format writes of it.
    pub open spec fn spec_hundredths(self) -> Timestamp {
        Timestamp {
            nanosecond: (self.nanosecond - self.nanosecond % HUNDREDTH) as u32,
            ..self
        }
    }

    /// The timestamp cut to hundredths of a second.
    pub fn hundredths(&self) -> (r: Timestamp)
        ensures
            r == self.spec_hundredths(),
    {
        Timestamp {
            year: self.year,
            month: self.month,
            day: self.day,
            hour: self.hour,
            minute: self.minute,
            second: self.second,
            nanosecond: self.nanosecond - self.nanosecond % HUNDREDTH,
            offset_seconds: self.offset_seconds,
        }
    }

    /// The date of the timestamp, in its own offset.
    pub fn date(&self) -> (r: Date)
        ensures
            r == (Date { year: self.year, month: self.month, day: self.day }),
    {
        Date { year: self.year, month: self.month, day: self.day }
    }
}

impl LastModified {
    #[verifier::type_invariant]
    spec fn writable(self) -> bool {
        date_time_text(self.stamp) is Some
    }

    /// Whether a text has a time part: it holds the designator `T`.
    pub open spec fn has_time_part(text: Seq<char>) -> bool {
        vstd::utf8::encode_utf8(text).contains(TIME_DESIGNATOR)
    }

    /// The timestamp that a text stands for, with the error's kind where it
    /// stands for none: a text with a time part is read as a complete
    /// timestamp, any other as a date, which stands for its first moment in
    /// UTC.
    pub open spec fn spec_read(text: Seq<char>) -> Result<Timestamp, bool> {
        if Self::has_time_part(text) {
            match date_time_of(text) {
                Some(stamp) => Ok(stamp),
                None => Err(true),
            }
        } else {
            match date_of(text) {
                Some(date) => Ok(Timestamp::spec_midnight(date)),
                None => Err(false),
            }
        }
    }

    /// The timestamp of the attribute that `parse` makes of a text, if it
    /// makes one.
    pub open spec fn spec_parse(text: Seq<char>) -> Option<Timestamp> {
        match Self::spec_read(text) {
            Ok(stamp) => if date_time_text(stamp.spec_hundredths()) is Some {
                Some(stamp.spec_hundredths())
            } else {
                None
            },
            Err(_) => None,
        }
    }

    /// What `parse` returns for a text, up to the payload of the parser's
    /// errors.
    pub open spec fn spec_parse_matches(text: Seq<char>, r: Result<LastModified, LastModifiedError>) -> bool {
        match Self::spec_read(text) {
            Ok(stamp) => if date_time_text(stamp.spec_hundredths()) is Some {
                r matches Ok(parsed) && parsed@ == stamp.spec_hundredths()
            } else {
                r == Err::<LastModified, LastModifiedError>(LastModifiedError::Unwritable(stamp))
            },
            Err(complete) => if complete {
                r matches Err(LastModifiedError::CompleteTimestamp(_))
            } else {
                r matches Err(LastModifiedError::InCompleteTimestamp(_))
            },
        }
    }

    /// What `to_string` returns: the timestamp in the output format.
    pub open spec fn spec_render(self) -> Seq<char> {
        date_time_text(self@).unwrap()
    }

    /// Creates the attribute from a timestamp, where the output format has a
    /// text for it. The attribute keeps the timestamp cut to hundredths of a
    /// second, so that it holds no more than its text writes.
    pub fn new(stamp: Timestamp) -> (r: Result<Self, LastModifiedError>)
        ensures
            match r {
                Ok(made) => made@ == stamp.spec_hundredths() && date_time_text(made@) is Some,
                Err(error) => error == LastModifiedError::Unwritable(stamp) && date_time_text(
                    stamp.spec_hundredths(),
                ) is None,
            },
    {
        let kept = stamp.hundredths();
        match write_date_time(&kept) {
            Some(_) => Ok(LastModified { stamp: kept }),
            None => Err(LastModifiedError::Unwritable(stamp)),
        }
    }

    /// What is kept of a timestamp is kept as it is: cutting twice cuts no
    /// more than cutting once.
    pub proof fn lemma_hundredths_are_kept(stamp: Timestamp)
        ensures
            stamp.spec_hundredths().spec_hundredths() == stamp.spec_hundredths(),
    {
    }

    /// The timestamp in the output format.
    pub fn to_string(&self) -> (r: String)
        ensures
            date_time_text(self@) == Some(r@),
            r@ == self.spec_render(),
    {
        proof {
            use_type_invariant(self);
        }
        write_date_time(&self.stamp).unwrap()
    }

    /// Whether a text holds the time designator.
    pub fn holds_time_part(text: &str) -> (r: bool)
        ensures
            r == Self::has_time_part(text@),
    {
        let bytes = text.as_bytes();
        let mut i: usize = 0;
        while i < bytes.len()
            invariant
                i <= bytes.len(),
                bytes@ == vstd::utf8::encode_utf8(text@),
                forall|k: int| 0 <= k < i ==> bytes@[k] != TIME_DESIGNATOR,
            decreases bytes.len() - i,
        {
            if bytes[i] == TIME_DESIGNATOR {
                return true;
            }
            i += 1;
        }
        false
    }
}

impl Attribute<Timestamp> for LastModified {
    type Error = LastModifiedError;

    /// Parses the attribute from a text: a complete ISO 8601 timestamp, or a
    /// date alone.
    fn parse(last_modified: &str) -> (r: Result<Self, LastModifiedError>)
        ensures
            Self::spec_parse_matches(last_modified@, r),
            match r {
                Ok(parsed) => Self::spec_parse(last_modified@) == Some(parsed@),
                Err(_) => Self::spec_parse(last_modified@) is None,
            },
    {
        if Self::holds_time_part(last_modified) {
            match read_date_time(last_modified) {
                Ok(stamp) => Self::new(stamp),
                Err(error) => Err(LastModifiedError::CompleteTimestamp(error)),
            }
        } else {
            match read_date(last_modified) {
                Ok(date) => Self::new(Timestamp::midnight(date)),
                Err(error) => Err(LastModifiedError::InCompleteTimestamp(error)),
            }
        }
    }

    /// Returns the timestamp.
    fn underlying(&self) -> (r: Timestamp)
        ensures
            r == self@,
    {
        self.stamp
    }
}

/// Calls `time::OffsetDateTime::parse` with the default ISO 8601 format and
/// takes the fields of what it read. The call succeeds exactly where the
/// named timestamp exists, and the fields are that timestamp's.
#[verifier::external_body]
fn read_date_time(text: &str) -> (r: Result<Timestamp, time::error::Parse>)
    ensures
        match r {
            Ok(stamp) => date_time_of(text@) == Some(stamp),
            Err(_) => date_time_of(text@) is None,
        },
{
    let format = time::format_description::well_known::Iso8601::DEFAULT;
    let read = time::OffsetDateTime::parse(text, &format)?;
    Ok(Timestamp {
        year: read.year(),
        month: u8::from(read.month()),
        day: read.day(),
        hour: read.hour(),
        minute: read.minute(),
        second: read.second(),
        nanosecond: read.nanosecond(),
        offset_seconds: read.offset().whole_seconds(),
    })
}

/// Calls `time::Date::parse` with the default ISO 8601 format and takes the
/// fields of what it read. The call succeeds exactly where the named date
/// exists, and the fields are that date's.
#[verifier::external_body]
fn read_date(text: &str) -> (r: Result<Date, time::error::Parse>)
    ensures
        match r {
            Ok(date) => date_of(text@) == Some(date),
            Err(_) => date_of(text@) is None,
        },
{
    let format = time::format_description::well_known::Iso8601::DEFAULT;
    let read = time::Date::parse(text, &format)?;
    Ok(Date { year: read.year(), month: u8::from(read.month()), day: read.day() })
}

/// Calls `time::OffsetDateTime::format` with the ISO 8601 format of
/// `LAST_MODIFIED_FORMAT` on the timestamp that the fields name. The result
/// is the named text; fields that name no timestamp have none.
#[verifier::external_body]
fn write_date_time(stamp: &Timestamp) -> (r: Option<String>)
    ensures
        match r {
            Some(text) => date_time_text(*stamp) == Some(text@),
            None => date_time_text(*stamp) is None,
        },
{
    let month = time::Month::try_from(stamp.month).ok()?;
    let date = time::Date::from_calendar_date(stamp.year, month, stamp.day).ok()?;
    let time = time::Time::from_hms_nano(stamp.hour, stamp.minute, stamp.second, stamp.nanosecond).ok()?;
    let offset = time::UtcOffset::from_whole_seconds(stamp.offset_seconds).ok()?;
    let format = time::format_description::well_known::Iso8601::<LAST_MODIFIED_FORMAT>;
    time::OffsetDateTime::new_in_offset(date, time, offset).format(&format).ok()
}

} // verus!
