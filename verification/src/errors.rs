//! The failures the library surfaces to its callers.

use vstd::prelude::*;
use vstd::string::StringExecFns;

verus! {

/// Why a parser could not be built or a scan could not finish.
#[derive(Debug)]
pub enum RssError {
    /// The advisory pre-check found no XML and RSS markers in the text.
    FormatRejected,
    /// The token source reported a decode or well-formedness failure
    /// mid-scan; the payload is its diagnostic message.
    Parse(String),
}

impl RssError {
    /// A short description of the failure, usable in messages.
    pub fn message(&self) -> (r: String)
        ensures
            self is Parse ==> r@ == self->Parse_0@,
            self is FormatRejected ==> r@ == "document lacks xml/rss markers"@,
    {
        match self {
            RssError::FormatRejected => String::from_str("document lacks xml/rss markers"),
            RssError::Parse(m) => m.clone(),
        }
    }
}

} // verus!
