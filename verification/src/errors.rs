use vstd::prelude::*;

verus! {

/// Every way a ledger operation can refuse a call. A refused call leaves the
/// ledger exactly as it was.
#[derive(Clone, Copy, Debug, PartialEq, Eq, Structural)]
pub enum Error {
    /// The caller is not the privileged owner (bulk reservation only).
    Unauthorized,
    /// The reservation quota has already been consumed.
    AlreadyReserved,
    /// The asset already has an owner, so it cannot be claimed.
    AssetAlreadyAssigned,
    /// No assets remain to be assigned.
    SupplyExhausted,
    /// The asset has no owner yet, so it cannot be transferred.
    AssetUnassigned,
    /// The caller does not own the asset.
    NotOwner,
    /// The asset has no active sale offer.
    OfferNotForSale,
    /// The offer is restricted to a different buyer.
    BuyerRestricted,
    /// The payment is below the offer's minimum price.
    InsufficientPayment,
    /// The offer's seller no longer owns the asset (the offer is stale).
    SellerMismatch,
    /// The caller has no pending-withdrawal entry at all.
    NoPendingWithdrawal,
    /// The caller's pending-withdrawal entry holds zero.
    ZeroWithdrawal,
}

} // verus!
