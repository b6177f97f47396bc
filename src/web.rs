//! Settings of the web front end.
use vstd::prelude::*;

verus! {

/// Where the web front end finds the RPC server.
pub struct GrpcInfo {
    address: String,
}

impl GrpcInfo {
    pub closed spec fn view_address(&self) -> Seq<char> {
        self.address@
    }

    pub fn new(address: &str) -> (r: GrpcInfo)
        ensures
            r.view_address() == address@,
    {
        let address = address.to_owned();
        GrpcInfo { address }
    }

    pub fn address(&self) -> (r: String)
        ensures
            r@ == self.view_address(),
    {
        self.address.clone()
    }
}

} // verus!
