//! Access requests as they travel from a client to the server.

use crate::addr::IpAddr;
use vstd::prelude::*;

verus! {

/// UDP port on which the server listens for requests.
pub const REQ_PORT: u16 = 7387;

/// Tag of the timed-access request kind.
pub const TIMED_ACCESS: u8 = 1;

/// What a request asks for.
#[derive(Clone, Copy, Debug, PartialEq, Eq, Structural)]
pub enum ReqData {
    /// Access for the given address for the server's configured time. The
    /// unspecified address stands for the one the request is sent from.
    TimedAccess(IpAddr),
}

/// One request.
#[derive(Clone, Copy, Debug, PartialEq, Eq, Structural)]
pub struct SessReq {
    /// The request's number, which grows with every request of a client.
    pub req_id: u64,
    /// What is asked for.
    pub req_data: ReqData,
}

impl ReqData {
    /// The address that access is asked for.
    pub open spec fn spec_addr(&self) -> IpAddr {
        match *self {
            ReqData::TimedAccess(addr) => addr,
        }
    }

    /// The address that access is asked for.
    #[verifier::when_used_as_spec(spec_addr)]
    pub fn addr(&self) -> (addr: IpAddr)
        ensures
            addr == self.spec_addr(),
    {
        match *self {
            ReqData::TimedAccess(addr) => addr,
        }
    }
}

impl SessReq {
    /// The request numbered `req_id` for `req_data`.
    pub fn new(req_id: u64, req_data: ReqData) -> (req: SessReq)
        ensures
            req == (SessReq { req_id, req_data }),
    {
        SessReq { req_id, req_data }
    }
}

} // verus!
