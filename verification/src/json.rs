//! The JSON body carrier.

use vstd::prelude::*;

verus! {

/// A value to be read from, or written as, a JSON body.
#[derive(Debug, Clone, Copy)]
pub struct Json<T>(pub T);

} // verus!
