//! The error reported when a text holds no ads.txt data at all.

use vstd::prelude::*;

verus! {

/// Represents an error that occur during parsing.
#[derive(Debug, Clone, Copy, PartialEq, Eq)]
pub struct Error(pub &'static str);

impl Error {
    /// The message carried by this error.
    pub fn message(&self) -> (r: &'static str)
        ensures
            r == self.0,
    {
        self.0
    }
}

/// Wrapper for the `Result` type with an [`Error`].
pub type Result<T> = core::result::Result<T, Error>;

} // verus!
