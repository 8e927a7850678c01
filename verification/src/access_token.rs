//! The bearer token optionally carried by an incoming request.

use vstd::prelude::*;

verus! {

/// The access token extracted from a request's `Authorization` header, if
/// one was present. The web layer fills it in; resolvers read it.
#[derive(Debug, Clone)]
pub struct AccessToken(pub Option<String>);

} // verus!
