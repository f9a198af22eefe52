//! Link-URL resolution through the `url` crate.

use vstd::prelude::*;
use crate::text::view_opt_string;

verus! {

/// The serialization of `url::Url::parse(input)` when the parse succeeds,
/// `None` when it fails. Parsing an absolute URL is a function of the input
/// text alone.
pub uninterp spec fn url_parse_model(input: Seq<char>) -> Option<Seq<char>>;

/// The serialization of `url::Url::parse(base)` joined with `input` when
/// both steps succeed, `None` otherwise. Resolving a relative reference
/// against a base is a function of the two texts alone.
pub uninterp spec fn url_join_model(base: Seq<char>, input: Seq<char>) -> Option<Seq<char>>;

/// Relies on `url::Url::parse` and the `From<Url> for String` serialization:
/// parses an absolute URL from a string. A parsed URL's serialization is a
/// valid absolute URL string that parses back to the same URL, so the result
/// re-parses to itself.
#[verifier::external_body]
pub(crate) fn url_parse_absolute(input: &str) -> (r: Option<String>)
    ensures
        view_opt_string(r) == url_parse_model(input@),
        (r matches Some(u) ==> url_parse_model(u@) == Some(u@)),
{
    match url::Url::parse(input) {
        Ok(u) => Some(String::from(u)),
        Err(_) => None,
    }
}

/// Relies on `url::Url::join`, with `url::Url::parse` for the base: resolves
/// `input` as a reference relative to `base`. As with a direct parse, the
/// resolved URL's serialization re-parses to itself.
#[verifier::external_body]
pub(crate) fn url_join_relative(base: &str, input: &str) -> (r: Option<String>)
    ensures
        view_opt_string(r) == url_join_model(base@, input@),
        (r matches Some(u) ==> url_parse_model(u@) == Some(u@)),
{
    match url::Url::parse(base) {
        Ok(b) => match b.join(input) {
            Ok(u) => Some(String::from(u)),
            Err(_) => None,
        },
        Err(_) => None,
    }
}

} // verus!
