//! How often a resource is expected to change.

use vstd::prelude::*;

use crate::attribute::date::{date_after, plus_seconds, Date};
use crate::attribute::text::{lowercased, same_text, to_lowercase, trim, trimmed};
use crate::attribute::Attribute;

verus! {

/// The text is none of the seven frequency literals.
#[derive(Debug, Clone, Copy, PartialEq, Eq, Structural)]
pub struct ChangeFrequencyError;

/// The seven change frequencies of the protocol.
#[derive(Debug, Clone, Copy, PartialEq, Eq, Structural)]
pub enum ChangeFrequency {
    Always,
    Hourly,
    Daily,
    Weekly,
    Monthly,
    Yearly,
    Never,
}

/// The number of seconds in an hour, a day and a week.
pub const HOUR: i64 = 3_600;

pub const DAY: i64 = 86_400;

pub const WEEK: i64 = 604_800;

impl ChangeFrequency {
    /// The canonical lowercase literal of a frequency.
    pub open spec fn literal(self) -> Seq<char> {
        match self {
            ChangeFrequency::Always => "always"@,
            ChangeFrequency::Hourly => "hourly"@,
            ChangeFrequency::Daily => "daily"@,
            ChangeFrequency::Weekly => "weekly"@,
            ChangeFrequency::Monthly => "monthly"@,
            ChangeFrequency::Yearly => "yearly"@,
            ChangeFrequency::Never => "never"@,
        }
    }

    /// The frequency that a canonical literal stands for, if it is one.
    pub open spec fn from_literal(text: Seq<char>) -> Option<ChangeFrequency> {
        if text == "always"@ {
            Some(ChangeFrequency::Always)
        } else if text == "hourly"@ {
            Some(ChangeFrequency::Hourly)
        } else if text == "daily"@ {
            Some(ChangeFrequency::Daily)
        } else if text == "weekly"@ {
            Some(ChangeFrequency::Weekly)
        } else if text == "monthly"@ {
            Some(ChangeFrequency::Monthly)
        } else if text == "yearly"@ {
            Some(ChangeFrequency::Yearly)
        } else if text == "never"@ {
            Some(ChangeFrequency::Never)
        } else {
            None
        }
    }

    /// What `new` returns for a text.
    pub open spec fn spec_new(text: Seq<char>) -> Result<ChangeFrequency, ChangeFrequencyError> {
        match Self::from_literal(text) {
            Some(frequency) => Ok(frequency),
            None => Err(ChangeFrequencyError),
        }
    }

    /// What `parse` returns for a text: the text is trimmed and lowercased
    /// before it is matched against the literals.
    pub open spec fn spec_parse(text: Seq<char>) -> Result<ChangeFrequency, ChangeFrequencyError> {
        Self::spec_new(lowercased(trimmed(text)))
    }

    /// The date on which a resource last changed on `date` is next due, if
    /// there is one. `Always` and `Never` have none. An hour, a day and a
    /// week are added as elapsed time, of which a date keeps the whole days;
    /// a month and a year are added on the calendar. A date past the last
    /// one that can be represented is no date.
    pub open spec fn spec_next_date(self, date: Date) -> Option<Date> {
        match self {
            ChangeFrequency::Always | ChangeFrequency::Never => None,
            ChangeFrequency::Hourly => date_after(date, HOUR),
            ChangeFrequency::Daily => date_after(date, DAY),
            ChangeFrequency::Weekly => date_after(date, WEEK),
            ChangeFrequency::Monthly => date.spec_next_month(),
            ChangeFrequency::Yearly => date.spec_next_year(),
        }
    }

    /// Whether a resource whose next due date is `next` is outdated on `now`.
    pub open spec fn spec_is_due(self, next: Option<Date>, now: Date) -> bool {
        match self {
            ChangeFrequency::Always => true,
            ChangeFrequency::Never => false,
            _ => match next {
                Some(next) => next.spec_le(now),
                None => false,
            },
        }
    }

    /// Whether a resource that last changed on `date` is outdated on `now`.
    pub open spec fn spec_is_outdated(self, date: Date, now: Date) -> bool {
        self.spec_is_due(self.spec_next_date(date), now)
    }

    /// Makes the frequency that a canonical literal names.
    pub fn new(frequency: &str) -> (r: Result<Self, ChangeFrequencyError>)
        ensures
            r == Self::spec_new(frequency@),
    {
        if same_text(frequency, "always") {
            Ok(ChangeFrequency::Always)
        } else if same_text(frequency, "hourly") {
            Ok(ChangeFrequency::Hourly)
        } else if same_text(frequency, "daily") {
            Ok(ChangeFrequency::Daily)
        } else if same_text(frequency, "weekly") {
            Ok(ChangeFrequency::Weekly)
        } else if same_text(frequency, "monthly") {
            Ok(ChangeFrequency::Monthly)
        } else if same_text(frequency, "yearly") {
            Ok(ChangeFrequency::Yearly)
        } else if same_text(frequency, "never") {
            Ok(ChangeFrequency::Never)
        } else {
            Err(ChangeFrequencyError)
        }
    }

    /// Parses the frequency from a text, whatever its case and the white
    /// space around it.
    pub fn parse(frequency: &str) -> (r: Result<Self, ChangeFrequencyError>)
        ensures
            r == Self::spec_parse(frequency@),
    {
        let lowered = to_lowercase(trim(frequency));
        Self::new(lowered.as_str())
    }

    /// The canonical literal, as an owned text.
    pub fn to_string(&self) -> (r: String)
        ensures
            r@ == self.literal(),
    {
        self.underlying().to_owned()
    }

    /// Calculates the date when a resource that changed on `date` is due
    /// again.
    pub fn next_date(&self, date: Date) -> (r: Option<Date>)
        ensures
            r == self.spec_next_date(date),
    {
        match self {
            ChangeFrequency::Always | ChangeFrequency::Never => None,
            ChangeFrequency::Hourly => plus_seconds(date, HOUR),
            ChangeFrequency::Daily => plus_seconds(date, DAY),
            ChangeFrequency::Weekly => plus_seconds(date, WEEK),
            ChangeFrequency::Monthly => date.next_month(),
            ChangeFrequency::Yearly => date.next_year(),
        }
    }

    /// Decides from the next due date whether a resource is outdated on
    /// `now`: always for `Always`, never for `Never`, and otherwise once the
    /// due date is reached. Without a due date it is not outdated.
    pub fn is_due(&self, next: Option<Date>, now: Date) -> (r: bool)
        ensures
            r == self.spec_is_due(next, now),
    {
        match self {
            ChangeFrequency::Always => true,
            ChangeFrequency::Never => false,
            _ => match next {
                Some(next) => next.le(&now),
                None => false,
            },
        }
    }

    /// Calculates if a resource that last changed on `date` is outdated on
    /// `now`.
    pub fn is_outdated(&self, date: Date, now: Date) -> (r: bool)
        ensures
            r == self.spec_is_outdated(date, now),
    {
        self.is_due(self.next_date(date), now)
    }

    /// Every frequency is read back from its own literal.
    pub proof fn lemma_literal_round_trip(self)
        ensures
            Self::from_literal(self.literal()) == Some(self),
            Self::spec_new(self.literal()) == Ok::<ChangeFrequency, ChangeFrequencyError>(self),
    {
        reveal_strlit("always");
        reveal_strlit("hourly");
        reveal_strlit("daily");
        reveal_strlit("weekly");
        reveal_strlit("monthly");
        reveal_strlit("yearly");
        reveal_strlit("never");
        assert("always"@[0] == 'a' && "hourly"@[0] == 'h' && "daily"@[0] == 'd');
        assert("weekly"@[0] == 'w' && "monthly"@[0] == 'm' && "yearly"@[0] == 'y');
        assert("never"@[0] == 'n');
    }
}

impl Attribute<&'static str> for ChangeFrequency {
    type Error = ChangeFrequencyError;

    /// Parses the attribute from a text, whatever its case and the white
    /// space around it.
    fn parse(frequency: &str) -> (r: Result<Self, ChangeFrequencyError>)
        ensures
            r == Self::spec_parse(frequency@),
    {
        ChangeFrequency::parse(frequency)
    }

    /// Returns the canonical literal of the frequency.
    fn underlying(&self) -> (r: &'static str)
        ensures
            r@ == self.literal(),
    {
        match self {
            ChangeFrequency::Always => "always",
            ChangeFrequency::Hourly => "hourly",
            ChangeFrequency::Daily => "daily",
            ChangeFrequency::Weekly => "weekly",
            ChangeFrequency::Monthly => "monthly",
            ChangeFrequency::Yearly => "yearly",
            ChangeFrequency::Never => "never",
        }
    }
}

} // verus!
