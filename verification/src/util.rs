//! Status codes of a response header.

use vstd::prelude::*;

verus! {

/// The code of a header that reports success.
pub const OK_CODE: u32 = 200;

/// The code by which an endpoint says that it does not own the table asked
/// for. No other code counts as a stale route.
pub const INVALID_ROUTE_CODE: u32 = 302;

pub open spec fn spec_is_ok(code: u32) -> bool {
    code == OK_CODE
}

pub open spec fn spec_is_stale_route(code: u32) -> bool {
    code == INVALID_ROUTE_CODE
}

/// Whether a header with this code reports success.
#[verifier::when_used_as_spec(spec_is_ok)]
pub fn is_ok(code: u32) -> (r: bool)
    ensures
        r == spec_is_ok(code),
{
    code == OK_CODE
}

/// Whether a header with this code says that the endpoint asked does not own
/// the table: the one failure that a fresh route lookup can mend.
#[verifier::when_used_as_spec(spec_is_stale_route)]
pub fn is_stale_route(code: u32) -> (r: bool)
    ensures
        r == spec_is_stale_route(code),
{
    code == INVALID_ROUTE_CODE
}

} // verus!
