//! A fixed-supply digital-collectible ledger with initial distribution,
//! direct ownership transfer, an offer/escrow marketplace, and withdrawal of
//! sale proceeds.
//!
//! The ledger is one explicit state value, [`ledger::Cryptopunks`]; every
//! operation takes the caller's identity as a plain argument and returns the
//! notifications it would emit, so the host environment around it only has to
//! resolve identities, persist the state, deliver notifications, and release
//! withdrawn funds.

pub mod errors;
pub mod events;
pub mod tables;
pub mod owners;
pub mod ledger;
pub mod laws;

pub use crate::errors::Error;
pub use crate::events::{AccountId, Assign, Balance, PunkNoLongerForSale, PunkOffered, PunkTransfer, Transfer};
pub use crate::ledger::{Cryptopunks, Offer};
