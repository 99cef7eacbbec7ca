//! Principals, errors, and what it means for an operation to commit.
use vstd::prelude::*;

verus! {

/// An opaque principal: an account or a contract that can be authenticated.
pub type Principal = u64;

/// Why an operation was refused. A refused operation changes nothing.
#[derive(PartialEq, Eq, Structural, Clone, Copy, Debug)]
pub enum Error {
    AlreadyInitialized,
    NotInitialized,
    Unauthorized,
    NotFound,
    AlreadyExists,
    AlreadyListed,
    AlreadyInAuction,
    InvalidPrice,
    InvalidParameter,
    NotListed,
    NotActive,
    TooEarly,
    AuctionEnded,
    BidTooLow,
    SelfPurchase,
    HasBids,
}

/// `r` is the observable result of a state transition whose mathematical
/// outcome is `step`: on success the new state is the one `step` gives, on
/// failure the error is the one `step` gives and the state is unchanged.
pub open spec fn commits<V>(step: Result<V, Error>, before: V, after: V, r: Result<(), Error>) -> bool {
    match step {
        Ok(v) => r is Ok && after == v,
        Err(e) => r == Err::<(), Error>(e) && after == before,
    }
}

} // verus!
