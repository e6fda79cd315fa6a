//! The closed set of failure kinds shared by every component of the crate.

use vstd::prelude::*;
use vstd::string::StringExecFns;

verus! {

/// A failure reported by group-identifier validation, identifier parsing,
/// or one of the enumerated-value parsers. Every error carries a
/// human-readable message; no operation panics or aborts.
#[derive(Debug, Clone, PartialEq, Eq)]
pub enum Error {
    /// The group id is empty or holds a character outside `a-z`, `0-9`, `-`, `_`.
    InvalidGroupId(String),
    /// A privacy token other than `public` / `private` (case-insensitive).
    InvalidPrivacy(String),
    /// An access-model token other than `open` / `closed` (case-insensitive).
    InvalidAccessModel(String),
    /// A tag required by the decode direction is absent. The decode
    /// direction itself is out of scope; the variant is reserved for it.
    MissingRequiredTag(String),
    /// A combined `relay-url'group-id` string is malformed: the apostrophe
    /// delimiter does not split it in exactly two parts, or the relay-url
    /// part does not parse as a URL.
    InvalidGroupIdentifier(String),
}

/// The message that [`Error::message`] returns: a fixed prefix naming the
/// failure kind, followed by the detail the error carries.
pub open spec fn error_message(e: Error) -> Seq<char> {
    match e {
        Error::InvalidGroupId(m) => "Invalid group ID: "@ + m@,
        Error::InvalidPrivacy(m) => "Invalid privacy value: "@ + m@,
        Error::InvalidAccessModel(m) => "Invalid access model value: "@ + m@,
        Error::MissingRequiredTag(m) => "Missing required tag: "@ + m@,
        Error::InvalidGroupIdentifier(m) => "Invalid group identifier format: "@ + m@,
    }
}

impl Error {
    /// Render the error as a human-readable line.
    pub fn message(&self) -> (r: String)
        ensures
            r@ == error_message(*self),
    {
        match self {
            Error::InvalidGroupId(m) => String::from_str("Invalid group ID: ").concat(m.as_str()),
            Error::InvalidPrivacy(m) => String::from_str("Invalid privacy value: ").concat(
                m.as_str(),
            ),
            Error::InvalidAccessModel(m) => String::from_str("Invalid access model value: ").concat(
                m.as_str(),
            ),
            Error::MissingRequiredTag(m) => String::from_str("Missing required tag: ").concat(
                m.as_str(),
            ),
            Error::InvalidGroupIdentifier(m) => String::from_str(
                "Invalid group identifier format: ",
            ).concat(m.as_str()),
        }
    }
}

} // verus!
