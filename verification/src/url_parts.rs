//! What the `url` crate makes of a URL. Each function parses the text anew
//! and reads one part of the parsed URL; what the crate reads has only a
//! name here, and all names agree on which texts are URLs.

use vstd::prelude::*;

verus! {

/// Whether `url::Url::parse` accepts the text.
pub uninterp spec fn url_parses(url: Seq<char>) -> bool;

/// The name-and-value pairs that `Url::query_pairs` yields for the parsed
/// text, decoded, in order.
pub uninterp spec fn url_query_pairs(url: Seq<char>) -> Seq<(Seq<char>, Seq<char>)>;

/// The origin of the parsed text in ASCII: `Url::origin` and
/// `Origin::ascii_serialization`.
pub uninterp spec fn url_origin(url: Seq<char>) -> Seq<char>;

/// The path of the parsed text: `Url::path`.
pub uninterp spec fn url_path(url: Seq<char>) -> Seq<char>;

pub open spec fn pairs_view(pairs: Seq<(String, String)>) -> Seq<(Seq<char>, Seq<char>)> {
    Seq::new(pairs.len(), |i: int| (pairs[i].0@, pairs[i].1@))
}

/// Parses `url` with `url::Url::parse` and lists the pairs of its query
/// with `Url::query_pairs`, each pair copied into owned strings. There is a
/// list exactly where the text parses.
#[verifier::external_body]
pub(crate) fn query_pairs_of(url: &str) -> (r: Option<Vec<(String, String)>>)
    ensures
        r is Some <==> url_parses(url@),
        r matches Some(pairs) ==> pairs_view(pairs@) == url_query_pairs(url@),
{
    match url::Url::parse(url) {
        Ok(parsed) => Some(
            parsed.query_pairs().map(|(name, value)| (name.into_owned(), value.into_owned())).collect(),
        ),
        Err(_) => None,
    }
}

/// Parses `url` with `url::Url::parse` and writes its origin with
/// `Url::origin` and `Origin::ascii_serialization`. There is an origin
/// exactly where the text parses.
#[verifier::external_body]
pub(crate) fn origin_of(url: &str) -> (r: Option<String>)
    ensures
        r is Some <==> url_parses(url@),
        r matches Some(origin) ==> origin@ == url_origin(url@),
{
    match url::Url::parse(url) {
        Ok(parsed) => Some(parsed.origin().ascii_serialization()),
        Err(_) => None,
    }
}

/// Parses `url` with `url::Url::parse` and copies its path, `Url::path`.
/// There is a path exactly where the text parses.
#[verifier::external_body]
pub(crate) fn path_of(url: &str) -> (r: Option<String>)
    ensures
        r is Some <==> url_parses(url@),
        r matches Some(path) ==> path@ == url_path(url@),
{
    match url::Url::parse(url) {
        Ok(parsed) => Some(parsed.path().to_owned()),
        Err(_) => None,
    }
}

} // verus!
