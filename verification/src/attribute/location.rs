//! Where a resource is found: an absolute URL.

use vstd::prelude::*;

use crate::attribute::Attribute;

verus! {

/// The error of the `url` crate's parser.
#[verifier::external_type_specification]
#[verifier::external_body]
pub struct ExUrlParseError(url::ParseError);

/// The serialization of the URL that `url::Url::parse` reads from a text;
/// `None` where it reads none.
pub uninterp spec fn canonical_url(text: Seq<char>) -> Option<Seq<char>>;

/// Whether a text is the canonical form of some URL.
pub open spec fn is_canonical_url(text: Seq<char>) -> bool {
    exists|source: Seq<char>| #[trigger] canonical_url(source) == Some(text)
}

/// The text is no absolute URL; the parser's own error says why.
#[derive(Debug, PartialEq)]
pub struct LocationError(pub url::ParseError);

/// A fully-qualified URL, held in its canonical form.
#[derive(Debug, PartialEq)]
pub struct Location {
    text: String,
}

impl View for Location {
    type V = Seq<char>;

    /// The canonical text of the URL.
    closed spec fn view(&self) -> Seq<char> {
        self.text@
    }
}

impl Location {
    #[verifier::type_invariant]
    spec fn canonical(self) -> bool {
        is_canonical_url(self.text@)
    }

    /// What `parse` returns for a text, up to the parser's error: the
    /// canonical form of the URL that the text holds.
    pub open spec fn spec_parse(text: Seq<char>) -> Option<Seq<char>> {
        canonical_url(text)
    }

    /// What `to_string` returns.
    pub open spec fn spec_render(self) -> Seq<char> {
        self@
    }

    /// The canonical text of the URL.
    pub fn as_str(&self) -> (r: &str)
        ensures
            r@ == self@,
            is_canonical_url(r@),
    {
        proof {
            use_type_invariant(self);
        }
        self.text.as_str()
    }

    /// The canonical text of the URL, as an owned text.
    pub fn to_string(&self) -> (r: String)
        ensures
            r@ == self.spec_render(),
            is_canonical_url(r@),
    {
        self.as_str().to_owned()
    }

    /// The canonical text of the URL, as an owned text.
    pub fn build(&self) -> (r: String)
        ensures
            r@ == self.spec_render(),
            is_canonical_url(r@),
    {
        self.to_string()
    }

    /// A location parsed from a valid URL text renders as the canonical form
    /// of that text, and only texts that hold a URL are parsed.
    pub proof fn lemma_render_is_canonical(self, text: Seq<char>)
        requires
            Self::spec_parse(text) == Some(self@),
        ensures
            self.spec_render() == canonical_url(text).unwrap(),
            is_canonical_url(self.spec_render()),
    {
    }
}

impl Clone for Location {
    fn clone(&self) -> (r: Self)
        ensures
            r@ == self@,
    {
        proof {
            use_type_invariant(self);
        }
        Location { text: self.text.clone() }
    }
}

impl Attribute<String> for Location {
    type Error = LocationError;

    /// Parses the attribute from a text: succeeds exactly on the texts that
    /// hold an absolute URL, and keeps the URL's canonical form.
    fn parse(location: &str) -> (r: Result<Self, LocationError>)
        ensures
            match r {
                Ok(parsed) => Self::spec_parse(location@) == Some(parsed@),
                Err(_) => Self::spec_parse(location@) is None,
            },
    {
        match parse_url(location) {
            Ok(text) => {
                assert(is_canonical_url(text@)) by {
                    assert(canonical_url(location@) == Some(text@));
                }
                Ok(Location { text })
            },
            Err(error) => Err(LocationError(error)),
        }
    }

    /// Returns the canonical text of the URL.
    fn underlying(&self) -> (r: String)
        ensures
            r@ == self@,
    {
        self.to_string()
    }
}

/// Calls `url::Url::parse` and takes the URL's serialization. The call
/// succeeds exactly where the named canonical form exists, and the text that
/// comes back is that form.
#[verifier::external_body]
fn parse_url(text: &str) -> (r: Result<String, url::ParseError>)
    ensures
        match r {
            Ok(canonical) => canonical_url(text@) == Some(canonical@),
            Err(_) => canonical_url(text@) is None,
        },
{
    url::Url::parse(text).map(String::from)
}

} // verus!
