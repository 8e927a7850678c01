//! The request correlation identifier carried by an incoming request.

use vstd::prelude::*;

verus! {

/// The value of a request's `x-request-id` header, if one was present.
/// The web layer fills it in; it is carried through for correlation only.
#[derive(Debug, Clone)]
pub struct RequestId(pub Option<String>);

} // verus!
