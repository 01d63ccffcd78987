//! Where the coordinator reaches a service.
use vstd::prelude::*;
use crate::service_kind::{ServiceKind, kind_address, spec_kind_address};
use crate::text::{append_i32, int_text, text};

verus! {

/// The address of a service to which the coordinator connects.
#[derive(Clone, Debug)]
pub struct ServiceStream {
    pub addr: String,
}

impl ServiceStream {
    pub fn new(addr: String) -> (res: ServiceStream)
        ensures
            res.addr == addr,
    {
        ServiceStream { addr }
    }
}

/// The address of a service on this machine: `localhost:port`.
pub open spec fn local_address(kind: ServiceKind) -> Seq<char> {
    "localhost:"@ + int_text(spec_kind_address(kind) as int)
}

/// The stream through which the coordinator reaches a service on this
/// machine.
pub fn local_stream(kind: ServiceKind) -> (res: ServiceStream)
    ensures
        res.addr@ == local_address(kind),
{
    let mut addr = text("localhost:");
    append_i32(&mut addr, kind_address(kind));
    ServiceStream::new(addr)
}

} // verus!
