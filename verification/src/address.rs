//! Parsing the address of a WebSocket server with the `url` crate.
use vstd::prelude::*;

verus! {

/// What `url::Url::parse` makes of a text: the URL's serialization
/// (`Url::as_str`, the text a connection to it is opened with) when it
/// parses, else the text of its `ParseError`. It depends on the text alone;
/// which texts parse, and how they are normalized, follows the WHATWG URL
/// standard, which this name does not spell out.
pub uninterp spec fn parsed_url(s: Seq<char>) -> Result<Seq<char>, Seq<char>>;

/// `url::Url::parse`, with the URL written as its serialization and the
/// error as its text.
#[verifier::external_body]
pub(crate) fn parse_url(s: &str) -> (r: Result<String, String>)
    ensures
        match r {
            Ok(t) => parsed_url(s@) == Ok::<Seq<char>, Seq<char>>(t@),
            Err(e) => parsed_url(s@) == Err::<Seq<char>, Seq<char>>(e@),
        },
{
    match url::Url::parse(s) {
        Ok(u) => Ok(u.as_str().to_string()),
        Err(e) => Err(e.to_string()),
    }
}

} // verus!
