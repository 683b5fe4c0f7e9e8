//! Parsed URLs, as far as the library reads them.

use vstd::prelude::*;

verus! {

/// A URL that was parsed: its serialization, and the two components from
/// which a local directory is derived.
#[derive(Clone, Debug, PartialEq, Eq)]
pub struct RepoUrl {
    /// The URL as the parser serializes it.
    pub text: String,
    /// The host, if the URL has one and it is a domain name.
    pub domain: Option<String>,
    /// The path component, percent-encoded.
    pub path: String,
}

/// The mathematical content of a `RepoUrl`.
pub ghost struct UrlParts {
    pub text: Seq<char>,
    pub domain: Option<Seq<char>>,
    pub path: Seq<char>,
}

impl View for RepoUrl {
    type V = UrlParts;

    open spec fn view(&self) -> UrlParts {
        UrlParts {
            text: self.text@,
            domain: match self.domain {
                Some(d) => Some(d@),
                None => None,
            },
            path: self.path@,
        }
    }
}

impl RepoUrl {
    /// The serialization of the URL.
    pub fn as_str(&self) -> (text: &str)
        ensures
            text@ == self@.text,
    {
        self.text.as_str()
    }
}

/// `url::ParseError`, the reason that `url::Url::parse` gives for a
/// failure. Nothing is read from it.
#[verifier::external_type_specification]
#[verifier::external_body]
pub struct ExParseError(url::ParseError);

/// What `url::Url::parse` makes of `input`: nothing where it reports an
/// error, else the serialization, domain and path of the URL it returns.
pub uninterp spec fn parse_outcome(input: Seq<char>) -> Option<UrlParts>;

/// Calls `url::Url::parse` on `input`. On success the result holds what
/// `Url::domain`, `Url::path` and the conversion into a `String` give for the
/// parsed URL. The contract only names that outcome: the same input always
/// parses to the same URL or fails.
#[verifier::external_body]
pub(crate) fn parse_url(input: &str) -> (r: Result<RepoUrl, url::ParseError>)
    ensures
        (match r {
            Ok(u) => parse_outcome(input@) == Some(u@),
            Err(_) => parse_outcome(input@) is None,
        }),
{
    match url::Url::parse(input) {
        Ok(u) => Ok(
            RepoUrl {
                domain: u.domain().map(String::from),
                path: String::from(u.path()),
                text: String::from(u),
            },
        ),
        Err(e) => Err(e),
    }
}

} // verus!
