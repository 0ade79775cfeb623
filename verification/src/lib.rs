pub mod parse;
pub mod render;
pub mod request;
pub mod text;

use vstd::prelude::*;

verus! {

/// Why a raw command-line argument was rejected.
#[derive(Debug, PartialEq, Eq)]
pub enum ValidationError {
    /// The argument could not be parsed as an absolute URL.
    MalformedUrl(String),
    /// The argument held no `=` separator.
    MalformedKeyValue(String),
}

impl ValidationError {
    /// A printable description of the rejected argument.
    pub fn describe(&self) -> (s: String)
        ensures
            self matches ValidationError::MalformedUrl(u) ==> s@ == "invalid URL: "@ + u@,
            self matches ValidationError::MalformedKeyValue(kv)
                ==> s@ == "invalid key-value pair: "@ + kv@,
    {
        match self {
            ValidationError::MalformedUrl(u) => {
                let mut s = String::from_str("invalid URL: ");
                s.append(u.as_str());
                s
            },
            ValidationError::MalformedKeyValue(kv) => {
                let mut s = String::from_str("invalid key-value pair: ");
                s.append(kv.as_str());
                s
            },
        }
    }
}

/// The fixed notice printed when the command line names no verb; that
/// run does nothing else and still counts as a success.
pub fn no_method_notice() -> (s: String)
    ensures
        s@ == "No HTTP method specified."@,
{
    String::from_str("No HTTP method specified.")
}

} // verus!
