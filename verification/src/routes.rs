//! What the server answers, as plain values: the requests it takes apart and
//! the responses it puts together. Sending them is left to the caller.

pub mod get_devices_list;
pub mod get_items_list;
pub mod write_tags;

use crate::text::same_text;
use vstd::prelude::*;

verus! {

/// The status that a response goes out with.
#[derive(Debug, Clone, Copy, PartialEq, Eq, Structural)]
pub enum RfidStatus {
    /// 200: the request was served.
    Ok200,
    /// 400: the request does not hold what it has to.
    Err400,
    /// 403: the request does not come from this machine.
    Err403,
    /// 404: there is nothing to serve the request with.
    Err404,
}

/// Whether an address is one of those that stand for this machine.
pub open spec fn is_local(address: Seq<char>) -> bool {
    address == "127.0.0.1"@ || address == "0.0.0.0"@ || address == "127.0.0.0"@
}

/// Lets a request pass if it comes from this machine. A request from
/// elsewhere, or without a known IPv4 address, is forbidden.
pub fn check_if_addr_local(address: Option<&str>) -> (res: Result<(), RfidStatus>)
    ensures
        res is Ok <==> (address matches Some(a) && is_local(a@)),
        res matches Err(status) ==> status == RfidStatus::Err403,
{
    if let Some(addr) = address {
        if same_text(addr, "127.0.0.1") || same_text(addr, "0.0.0.0") || same_text(
            addr,
            "127.0.0.0",
        ) {
            return Ok(());
        }
    }
    Err(RfidStatus::Err403)
}

} // verus!
