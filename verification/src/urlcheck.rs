//! Validation of the `url` field through the `url` crate.

use vstd::prelude::*;

verus! {

/// What `url::Url::parse` yields on a string with these characters: `None`
/// when the string does not parse as an absolute URL, otherwise the parsed
/// URL's normalized serialization.
pub uninterp spec fn url_normal(s: Seq<char>) -> Option<Seq<char>>;

/// Relies on `url::Url::parse`, and on the crate's `From<Url> for String`,
/// which hands out the parsed URL's serialization.  Whether a string parses,
/// and what it serializes to, depend on its characters alone.
#[verifier::external_body]
pub(crate) fn parse_url(s: &str) -> (r: Option<String>)
    ensures
        match r {
            Some(u) => url_normal(s@) == Some(u@),
            None => url_normal(s@) is None,
        },
{
    match url::Url::parse(s) {
        Ok(u) => Some(String::from(u)),
        Err(_) => None,
    }
}

} // verus!
