//! The form body carrier.

use vstd::prelude::*;

verus! {

/// A value to be read from, or written as, a form-encoded body.
#[derive(Debug, Clone, Copy)]
pub struct Form<T>(pub T);

} // verus!
