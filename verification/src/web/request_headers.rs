//! The plain view of a web request's headers.

use vstd::prelude::*;

verus! {

/// All headers of a request: each name with the values it appeared with.
pub struct RequestHeaders {
    pub headers: Vec<(String, Vec<String>)>,
}

} // verus!
