//! URL parsing and joining, done by the `url` crate.

use vstd::prelude::*;

verus! {

/// A text result as plain character sequences.
pub open spec fn text_result(r: Result<String, String>) -> Result<Seq<char>, Seq<char>> {
    match r {
        Ok(s) => Ok(s@),
        Err(e) => Err(e@),
    }
}

/// What `url::Url::parse` gives for `raw`: the parsed URL's serialization,
/// or the text of the parse error.
pub uninterp spec fn url_parse_outcome(raw: Seq<char>) -> Result<Seq<char>, Seq<char>>;

/// Calls `url::Url::parse`; the result is exactly `url_parse_outcome`.
#[verifier::external_body]
pub(crate) fn parse_url(raw: &str) -> (r: Result<String, String>)
    ensures
        text_result(r) == url_parse_outcome(raw@),
{
    match url::Url::parse(raw) {
        Ok(u) => Ok(u.into()),
        Err(e) => Err(e.to_string()),
    }
}

/// What `url::Url::join` gives when `input` is resolved against the URL
/// that `base` parses to: the joined URL's serialization, or `None` when
/// either step fails.
pub uninterp spec fn url_join_outcome(base: Seq<char>, input: Seq<char>) -> Option<Seq<char>>;

/// Calls `url::Url::parse` on `base` and `url::Url::join` with `input`;
/// the result is exactly `url_join_outcome`.
#[verifier::external_body]
pub(crate) fn join_url(base: &str, input: &str) -> (r: Option<String>)
    ensures
        r matches Some(s) ==> url_join_outcome(base@, input@) == Some(s@),
        r is None ==> url_join_outcome(base@, input@) is None,
{
    match url::Url::parse(base) {
        Ok(b) => match b.join(input) {
            Ok(joined) => Some(joined.into()),
            Err(_) => None,
        },
        Err(_) => None,
    }
}

} // verus!
