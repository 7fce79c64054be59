//! URL checking through the `url` crate.
use vstd::prelude::*;

verus! {

#[verifier::external_type_specification]
#[verifier::external_body]
pub struct ExUrl(url::Url);

#[verifier::external_type_specification]
#[verifier::external_body]
pub struct ExUrlParseError(url::ParseError);

/// Whether `url::Url::parse` accepts `input` (a WHATWG URL parse).
pub uninterp spec fn url_parses(input: Seq<char>) -> bool;

/// The serialization (`Url::as_str`) of the URL that `url::Url::parse` makes
/// of `input`.
pub uninterp spec fn url_serialization(input: Seq<char>) -> Seq<char>;

/// A parsed URL with its serialization.
#[derive(Debug)]
pub struct ParsedUrl {
    url: url::Url,
    serialization: String,
}

impl ParsedUrl {
    /// The serialization of the URL.
    pub closed spec fn text(self) -> Seq<char> {
        self.serialization@
    }

    /// The serialization of the URL.
    pub fn as_str(&self) -> (s: &str)
        ensures
            s@ == self.text(),
    {
        self.serialization.as_str()
    }

    /// The `url::Url` itself.
    pub fn url(&self) -> &url::Url {
        &self.url
    }
}

/// `url::Url::parse`, with the serialization of the result (`Url::as_str`):
/// succeeds exactly when `url_parses` holds of the input, and the
/// serialization is `url_serialization` of it.
#[verifier::external_body]
pub(crate) fn parse_url(input: &str) -> (r: Result<ParsedUrl, url::ParseError>)
    ensures
        r is Ok <==> url_parses(input@),
        r matches Ok(u) ==> u.text() == url_serialization(input@),
{
    let url = url::Url::parse(input)?;
    Ok(ParsedUrl { serialization: url.as_str().to_owned(), url })
}

} // verus!
