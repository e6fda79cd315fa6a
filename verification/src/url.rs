//! A parsed absolute URL, held as the serialization the URL parser produced.
//!
//! URL syntax itself is an external collaborator's concern: parsing is done
//! by the `url` crate behind one trusted wrapper, and the rest of the crate
//! only ever reads the parsed URL's string form. Note that the parser
//! normalizes its input (for instance it appends a trailing slash to a bare
//! authority), so the serialization need not be byte-identical to the input.

use vstd::prelude::*;
use vstd::string::StringExecFns;
use crate::error::Error;

verus! {

/// What `url::Url::parse` answers for a given input: `Some` with the parsed
/// URL's serialization when the input is an absolute URL, `None` otherwise.
pub uninterp spec fn url_parse(s: Seq<char>) -> Option<Seq<char>>;

/// Relies on `url::Url::parse` and `url::Url::as_str`: whether parsing
/// succeeds, and the serialization of the parsed URL, are functions of the
/// input string alone.
#[verifier::external_body]
fn parse_url_serialization(s: &str) -> (r: Result<String, String>)
    ensures
        r is Ok <==> url_parse(s@) is Some,
        r matches Ok(u) ==> url_parse(s@) == Some(u@),
{
    match ::url::Url::parse(s) {
        Ok(u) => Ok(String::from(u.as_str())),
        Err(e) => Err(format!("{}", e)),
    }
}

/// An absolute URL that parsed successfully. The value held is the parser's
/// serialization of the URL, so equal serializations mean equal URLs.
#[derive(Debug, Clone, PartialEq, Eq, PartialOrd, Ord, Hash)]
pub struct Url {
    value: String,
}

impl View for Url {
    type V = Seq<char>;

    closed spec fn view(&self) -> Seq<char> {
        self.value@
    }
}

impl Url {
    /// Parse an absolute URL from a string. Fails exactly when the URL
    /// parser rejects the input; the error carries the parser's message.
    pub fn parse(s: &str) -> (r: Result<Url, Error>)
        ensures
            r is Ok <==> url_parse(s@) is Some,
            r matches Ok(u) ==> url_parse(s@) == Some(u@),
            r is Err ==> r matches Err(Error::InvalidGroupIdentifier(_)),
    {
        match parse_url_serialization(s) {
            Ok(v) => Ok(Url { value: v }),
            Err(m) => Err(
                Error::InvalidGroupIdentifier(
                    String::from_str("Invalid relay URL: ").concat(m.as_str()),
                ),
            ),
        }
    }

    /// The URL's serialization.
    pub fn as_str(&self) -> (r: &str)
        ensures
            r@ == self@,
    {
        self.value.as_str()
    }
}

} // verus!
