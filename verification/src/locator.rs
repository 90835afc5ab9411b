//! What the crawler asks of a URL: whether a string is one, which domain it
//! names, how its path divides, and what a reference resolves to against it.
//!
//! The answers come from the `url` crate. They depend on the strings alone,
//! so each has a name here under which the extraction rules can speak of it.

use vstd::prelude::*;

verus! {

/// `url::ParseError`, the reason why a string is no URL. It is passed on
/// unopened; what went wrong is mapped to the crawler's own errors.
#[verifier::external_type_specification]
#[verifier::external_body]
pub struct ExParseError(url::ParseError);

/// Whether `input` parses as an absolute URL.
pub uninterp spec fn url_parses(input: Seq<char>) -> bool;

/// The domain name of the host of the URL `input`, where its host is a
/// domain name and not an address.
pub uninterp spec fn url_domain(input: Seq<char>) -> Option<Seq<char>>;

/// The segments of the path of the URL `input`, where it has a path that
/// divides into segments.
pub uninterp spec fn url_path_segments(input: Seq<char>) -> Option<Seq<Seq<char>>>;

/// The URL that `reference` resolves to against the URL `base`, where there
/// is one.
pub uninterp spec fn url_joined(base: Seq<char>, reference: Seq<char>) -> Option<Seq<char>>;

/// The characters of an optional string.
pub open spec fn option_text(s: Option<String>) -> Option<Seq<char>> {
    match s {
        Some(s) => Some(s@),
        None => None,
    }
}

/// Parses `input` with `url::Url::parse` and reads `Url::domain` of the
/// result. The contract names the two outcomes: the call fails exactly when
/// the string does not parse, and otherwise returns the domain of the parsed
/// URL. It claims nothing about which strings parse or what their domain is.
#[verifier::external_body]
pub(crate) fn parse_domain(input: &str) -> (r: Result<Option<String>, url::ParseError>)
    ensures
        r is Ok <==> url_parses(input@),
        r matches Ok(domain) ==> option_text(domain) == url_domain(input@),
{
    let parsed = url::Url::parse(input)?;
    Ok(parsed.domain().map(String::from))
}

/// Parses `input` with `url::Url::parse` and collects what
/// `Url::path_segments` of the result yields. The call fails exactly when the
/// string does not parse; otherwise it returns the segments in order, or
/// `None` for a URL whose path does not divide.
#[verifier::external_body]
pub(crate) fn parse_path_segments(input: &str) -> (r: Result<Option<Vec<String>>, url::ParseError>)
    ensures
        r is Ok <==> url_parses(input@),
        r matches Ok(Some(segments)) ==> url_path_segments(input@) == Some(segments.deep_view()),
        r matches Ok(None) ==> url_path_segments(input@) is None,
{
    let parsed = url::Url::parse(input)?;
    Ok(parsed.path_segments().map(|parts| parts.map(String::from).collect()))
}

/// Parses `base` with `url::Url::parse`, resolves `reference` against it
/// with `Url::join`, and returns the serialization of the result. The call
/// fails when either step does; the contract names what it returns when both
/// succeed.
#[verifier::external_body]
pub(crate) fn join(base: &str, reference: &str) -> (r: Result<String, url::ParseError>)
    ensures
        r matches Ok(joined) ==> url_joined(base@, reference@) == Some(joined@),
        r is Err ==> url_joined(base@, reference@) is None,
{
    let joined = url::Url::parse(base)?.join(reference)?;
    Ok(joined.to_string())
}

} // verus!
