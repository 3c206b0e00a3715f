use vstd::prelude::*;

verus! {

/// Failures of the name resolution map.
///
/// Every operation is synchronous and local; an error is an explicit result,
/// never a silent fallback.
#[derive(Debug, Clone, PartialEq, Eq)]
pub enum Error {
    /// The requested subname path has no entry in the map.
    NotFound(String),
    /// The locator targets versionable content but carries no version anchor.
    ValidationError(String),
}

impl Error {
    /// The message carried by the error, whichever variant it is.
    pub open spec fn spec_message(&self) -> Seq<char> {
        match self {
            Error::NotFound(msg) => msg@,
            Error::ValidationError(msg) => msg@,
        }
    }

    /// The human-readable message carried by the error.
    pub fn message(&self) -> (msg: &String)
        ensures
            msg@ == self.spec_message(),
    {
        match self {
            Error::NotFound(msg) => msg,
            Error::ValidationError(msg) => msg,
        }
    }
}

} // verus!
