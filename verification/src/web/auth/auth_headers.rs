//! The authentication header a web request carries.

use vstd::prelude::*;

verus! {

/// The bearer token of a request; empty when the request carried none.
pub struct AuthHeaders {
    pub token: String,
}

} // verus!
