//! The library's boxed-error stand-in: an error carried as text.

use vstd::prelude::*;

verus! {

/// An opaque error value, carried as its message.
#[derive(Debug)]
pub struct Error {
    pub inner: String,
}

impl Error {
    /// Wraps a message.
    pub fn new(error: String) -> (r: Self)
        ensures
            r.inner@ == error@,
    {
        Error { inner: error }
    }

    /// Unwraps the message.
    pub fn into_inner(self) -> (r: String)
        ensures
            r@ == self.inner@,
    {
        self.inner
    }
}

} // verus!
