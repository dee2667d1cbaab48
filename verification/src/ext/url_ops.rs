//! URL parsing and resolution from the `url` crate (re-exported by
//! `reqwest`).

use vstd::prelude::*;

verus! {

/// `Url::parse(s)`: the serialization of the parsed URL, or the parse
/// error's message.
pub uninterp spec fn url_parse_result(s: Seq<char>) -> Result<Seq<char>, Seq<char>>;

/// `reqwest::Url::parse`, returning the parsed URL's serialization
/// (`Url::as_str`) or the error's text.
#[verifier::external_body]
pub(crate) fn url_parse(s: &str) -> (r: Result<String, String>)
    ensures
        match r {
            Ok(u) => url_parse_result(s@) == Ok::<Seq<char>, Seq<char>>(u@),
            Err(e) => url_parse_result(s@) == Err::<Seq<char>, Seq<char>>(e@),
        },
{
    ::reqwest::Url::parse(s).map(|u| u.as_str().to_string()).map_err(|e| e.to_string())
}

/// `Url::parse(base)` followed by `Url::join(reference)`: the resolved URL's
/// serialization, or `None` where either step fails.
pub uninterp spec fn url_join_result(base: Seq<char>, reference: Seq<char>) -> Option<Seq<char>>;

/// `reqwest::Url::join` on a parsed base. Joining needs a parsed base, so
/// where `Url::parse(base)` fails the result is `None`, which the contract
/// states.
#[verifier::external_body]
pub(crate) fn url_join(base: &str, reference: &str) -> (r: Option<String>)
    ensures
        match r {
            Some(u) => url_join_result(base@, reference@) == Some(u@),
            None => url_join_result(base@, reference@) is None,
        },
        url_parse_result(base@) is Err ==> r is None,
{
    let base = ::reqwest::Url::parse(base).ok()?;
    base.join(reference).ok().map(|u| u.as_str().to_string())
}

/// `Url::parse(s)` followed by `Url::path`: the URL's path, or `None` where
/// the string does not parse.
pub uninterp spec fn url_path_result(s: Seq<char>) -> Option<Seq<char>>;

/// `reqwest::Url::path` of a parsed string. Where `Url::parse` fails the
/// result is `None`, which the contract states.
#[verifier::external_body]
pub(crate) fn url_path(s: &str) -> (r: Option<String>)
    ensures
        match r {
            Some(p) => url_path_result(s@) == Some(p@),
            None => url_path_result(s@) is None,
        },
        url_parse_result(s@) is Err <==> r is None,
{
    ::reqwest::Url::parse(s).ok().map(|u| u.path().to_string())
}

} // verus!
