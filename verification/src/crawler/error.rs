//! The errors a crawl can report. Each carries the text of what went wrong;
//! the transport's own error values stay outside the library.

use vstd::prelude::*;

verus! {

/// Represents an error that occur during crawling.
#[derive(Debug, PartialEq, Clone)]
pub enum Error {
    /// A request could not be built.
    Request(String),
    /// A `Location` header could not be read as text.
    HeaderEncoding(String),
    /// A response body was not valid UTF-8.
    BodyEncoding(String),
    /// The transport failed after connecting.
    Crawle(String),
    /// A concurrency task could not be run or joined; this one is fatal to
    /// the batch.
    Task(String),
}

impl Error {
    /// The text carried by this error.
    pub fn message(&self) -> (r: &str)
        ensures
            match *self {
                Error::Request(ref m) => r@ == m@,
                Error::HeaderEncoding(ref m) => r@ == m@,
                Error::BodyEncoding(ref m) => r@ == m@,
                Error::Crawle(ref m) => r@ == m@,
                Error::Task(ref m) => r@ == m@,
            },
    {
        match self {
            Error::Request(m) => m.as_str(),
            Error::HeaderEncoding(m) => m.as_str(),
            Error::BodyEncoding(m) => m.as_str(),
            Error::Crawle(m) => m.as_str(),
            Error::Task(m) => m.as_str(),
        }
    }
}

/// Wrapper for the `Result` type with an [`Error`].
pub type Result<T> = core::result::Result<T, Error>;

} // verus!
