//! The RPC service's state.
use vstd::prelude::*;

verus! {

/// The RPC network service. The bus handle it serves requests with travels
/// with each request, so the service itself holds nothing.
pub struct NetworkService {}

} // verus!
