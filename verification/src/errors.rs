use vstd::prelude::*;

verus! {

/// Failures of the listing-side operations (create, edit, close).
///
/// `UpdateError`, `Expired` and `InvalidChoice` are reserved for future rules
/// (store write failures and time-based expiry) and are never produced by the
/// engine as it stands; they remain part of the taxonomy for forward
/// compatibility.
#[derive(Clone, Copy, PartialEq, Eq, Structural, Debug)]
pub enum AuctionError {
    UpdateError,
    NoSuchAuction,
    AuctionIsNotActive,
    Expired,
    AccessRejected,
    InvalidChoice,
    DuplicateItem,
}

/// Failures of the bidding operation.
///
/// `UpdateError`, `Expired`, `ReachMaxBid` and `InvalidChoice` are reserved
/// and never produced by the engine as it stands.
#[derive(Clone, Copy, PartialEq, Eq, Structural, Debug)]
pub enum BidError {
    BidAmountLessThanCurrent,
    UpdateError,
    NoSuchItem,
    AuctionIsNotActive,
    Expired,
    ReachMaxBid,
    InvalidChoice,
    OwnerIsNotValid,
}

} // verus!
