use vstd::prelude::*;

verus! {

/// An opaque account identity, supplied by the host environment and compared
/// only for equality.
pub type AccountId = u64;

/// A currency amount.
pub type Balance = u128;

/// Notification: the sale offer for asset `punk_index` was cleared.
#[derive(Clone, Copy, Debug, PartialEq, Eq)]
pub struct PunkNoLongerForSale {
    pub punk_index: u32,
}

/// Notification: asset `punk_index` was offered for sale at `min_sale_price`,
/// optionally restricted to the buyer in `address`.
#[derive(Clone, Copy, Debug, PartialEq, Eq)]
pub struct PunkOffered {
    pub punk_index: u32,
    pub min_sale_price: Balance,
    pub address: Option<AccountId>,
}

/// Notification: `value` moved from `from` to `to`. Emitted with `value == 1`
/// for a direct transfer (count accounting) and with the payment amount for a
/// settled sale.
#[derive(Clone, Copy, Debug, PartialEq, Eq)]
pub struct Transfer {
    pub from: AccountId,
    pub to: AccountId,
    pub value: Balance,
}

/// Notification: ownership of asset `punk_index` moved from `from` to `to`.
#[derive(Clone, Copy, Debug, PartialEq, Eq)]
pub struct PunkTransfer {
    pub from: AccountId,
    pub to: AccountId,
    pub punk_index: u32,
}

/// Notification: asset `punk_index` was assigned to `to` during initial
/// distribution.
#[derive(Clone, Copy, Debug, PartialEq, Eq)]
pub struct Assign {
    pub to: AccountId,
    pub punk_index: u32,
}

} // verus!
