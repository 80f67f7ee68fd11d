//! URLs.
use vstd::prelude::*;

verus! {

/// A URL in the form in which it is used, or what is wrong with it.
pub uninterp spec fn parsed_url(text: Seq<char>) -> Result<Seq<char>, Seq<char>>;

/// The view of a URL or of what is wrong with it.
pub open spec fn url_view(r: Result<String, String>) -> Result<Seq<char>, Seq<char>> {
    match r {
        Ok(url) => Ok(url@),
        Err(message) => Err(message@),
    }
}

/// `url::Url::parse`: the URL as it writes it, or the text of its error.
#[verifier::external_body]
pub(crate) fn parse_url(text: &str) -> (r: Result<String, String>)
    ensures
        url_view(r) == parsed_url(text@),
{
    url::Url::parse(text).map(String::from).map_err(|e| e.to_string())
}

} // verus!
