use vstd::prelude::*;

use crate::errors::Error;
use crate::events::{AccountId, Assign, Balance, PunkNoLongerForSale, PunkOffered, Transfer,
    PunkTransfer};
use crate::ledger::{Cryptopunks, Offer};
use crate::tables::sum_of;

verus! {

/// Supply conservation: in every well-formed ledger state the recorded
/// balances add up to exactly the number of assets assigned so far,
/// `totalSupply - remainingToAssign`. Every operation returns the ledger
/// well-formed, so this holds in every reachable state.
pub proof fn lemma_balance_sum_invariant(s: Cryptopunks)
    requires
        s.wf(),
    ensures
        sum_of(s.balance_of.entries@) == s.total_supply as int
            - s.punks_remaining_to_assign as int,
{
}

/// Claiming the same asset twice in a row: the second claim is refused as
/// already assigned, whoever makes it, and the refused call leaves the
/// ledger exactly as the first claim left it.
pub proof fn lemma_claim_twice_fails(
    pre: Cryptopunks,
    mid: Cryptopunks,
    post: Cryptopunks,
    first_caller: AccountId,
    second_caller: AccountId,
    punk_index: u32,
    ev: Assign,
    r2: Result<Assign, Error>,
)
    requires
        pre.wf(),
        punk_index < pre.total_supply,
        Cryptopunks::claim_transition(pre, mid, first_caller, punk_index, Ok(ev)),
        Cryptopunks::claim_transition(mid, post, second_caller, punk_index, r2),
    ensures
        r2 == Err::<Assign, Error>(Error::AssetAlreadyAssigned),
        post == mid,
{
}

/// A transfer attempted by anyone but the asset's current owner is refused
/// — as not-owner when the asset is assigned to someone else, as unassigned
/// when it has no owner — and leaves the whole ledger unchanged.
pub proof fn lemma_transfer_non_owner_fails(
    pre: Cryptopunks,
    post: Cryptopunks,
    caller: AccountId,
    to: AccountId,
    punk_index: u32,
    r: Result<(Transfer, PunkTransfer), Error>,
)
    requires
        pre.wf(),
        punk_index < pre.total_supply,
        pre.owners()[punk_index as int] != Some(caller),
        Cryptopunks::transfer_transition(pre, post, caller, to, punk_index, r),
    ensures
        pre.owners()[punk_index as int] is Some ==> r == Err::<(Transfer, PunkTransfer), Error>(
            Error::NotOwner,
        ),
        pre.owners()[punk_index as int] is None ==> r == Err::<(Transfer, PunkTransfer), Error>(
            Error::AssetUnassigned,
        ),
        post == pre,
{
}

/// Offering an asset and then buying it at exactly the minimum price, by an
/// eligible buyer, succeeds: the whole payment lands in the seller's escrow,
/// the offer is cleared, and ownership stays with the seller until a
/// separate transfer.
pub proof fn lemma_offer_then_buy_at_min_price(
    pre: Cryptopunks,
    mid: Cryptopunks,
    post: Cryptopunks,
    seller: AccountId,
    buyer: AccountId,
    punk_index: u32,
    price: Balance,
    restrict: Option<AccountId>,
    ev: PunkOffered,
    r: Result<(Transfer, PunkNoLongerForSale), Error>,
)
    requires
        pre.wf(),
        punk_index < pre.total_supply,
        Cryptopunks::offer_transition(pre, mid, seller, punk_index, price, restrict, Ok(ev)),
        restrict matches Some(b) ==> b == buyer,
        Cryptopunks::buy_transition(mid, post, buyer, punk_index, price, r),
    ensures
        r is Ok,
        post.pending(seller) == Some(price),
        post.offers()[punk_index as int] is NotForSale,
        post.owners() == mid.owners(),
{
}

/// A purchase offering less than the minimum price is refused as
/// insufficient payment and leaves the ledger — the standing offer included
/// — exactly as it was.
pub proof fn lemma_buy_underpayment_fails(
    pre: Cryptopunks,
    post: Cryptopunks,
    buyer: AccountId,
    seller: AccountId,
    punk_index: u32,
    min_value: Balance,
    only_sell_to: Option<AccountId>,
    payment: Balance,
    r: Result<(Transfer, PunkNoLongerForSale), Error>,
)
    requires
        pre.wf(),
        punk_index < pre.total_supply,
        pre.offers()[punk_index as int] == (Offer::ForSale { seller, min_value, only_sell_to }),
        payment < min_value,
        only_sell_to matches Some(b) ==> b == buyer,
        Cryptopunks::buy_transition(pre, post, buyer, punk_index, payment, r),
    ensures
        r == Err::<(Transfer, PunkNoLongerForSale), Error>(Error::InsufficientPayment),
        post == pre,
        post.offers()[punk_index as int] == (Offer::ForSale { seller, min_value, only_sell_to }),
{
}

/// A settled purchase leaves exactly the payment in the seller's escrow,
/// whatever the escrow held before: settlement overwrites, it does not
/// accumulate. A purchase, settled or refused, never moves ownership and
/// never changes any balance.
pub proof fn lemma_buy_credits_escrow(
    pre: Cryptopunks,
    post: Cryptopunks,
    buyer: AccountId,
    seller: AccountId,
    punk_index: u32,
    min_value: Balance,
    only_sell_to: Option<AccountId>,
    payment: Balance,
    r: Result<(Transfer, PunkNoLongerForSale), Error>,
)
    requires
        pre.wf(),
        punk_index < pre.total_supply,
        pre.offers()[punk_index as int] == (Offer::ForSale { seller, min_value, only_sell_to }),
        Cryptopunks::buy_transition(pre, post, buyer, punk_index, payment, r),
    ensures
        r is Ok ==> post.pending(seller) == Some(payment),
        post.owners() == pre.owners(),
        Cryptopunks::same_balances(pre, post),
{
}

/// Two settled sales of the same asset by the same seller, with no
/// withdrawal in between: the second settlement replaces the escrow entry
/// with its own payment. The first payment is not added — it is lost unless
/// withdrawn before the second sale settles.
pub proof fn lemma_second_sale_overwrites_escrow(
    s0: Cryptopunks,
    s1: Cryptopunks,
    s2: Cryptopunks,
    s3: Cryptopunks,
    seller: AccountId,
    first_buyer: AccountId,
    second_buyer: AccountId,
    punk_index: u32,
    first_min: Balance,
    first_restrict: Option<AccountId>,
    first_payment: Balance,
    second_min: Balance,
    second_restrict: Option<AccountId>,
    second_payment: Balance,
    evs1: (Transfer, PunkNoLongerForSale),
    ev2: PunkOffered,
    evs3: (Transfer, PunkNoLongerForSale),
)
    requires
        s0.wf(),
        punk_index < s0.total_supply,
        s0.offers()[punk_index as int] == (Offer::ForSale { seller, min_value: first_min,
            only_sell_to: first_restrict }),
        Cryptopunks::buy_transition(s0, s1, first_buyer, punk_index, first_payment, Ok(evs1)),
        Cryptopunks::offer_transition(s1, s2, seller, punk_index, second_min, second_restrict,
            Ok(ev2)),
        Cryptopunks::buy_transition(s2, s3, second_buyer, punk_index, second_payment, Ok(evs3)),
    ensures
        s1.pending(seller) == Some(first_payment),
        s3.pending(seller) == Some(second_payment),
{
}

/// Withdrawing resets the caller's escrow entry to zero and hands back
/// exactly the amount that was escrowed; an immediate second withdrawal is
/// refused as a zero withdrawal and changes nothing.
pub proof fn lemma_withdraw_resets_then_second_fails(
    pre: Cryptopunks,
    mid: Cryptopunks,
    post: Cryptopunks,
    caller: AccountId,
    amount: Balance,
    r2: Result<Balance, Error>,
)
    requires
        pre.wf(),
        Cryptopunks::withdraw_transition(pre, mid, caller, Ok(amount)),
        Cryptopunks::withdraw_transition(mid, post, caller, r2),
    ensures
        pre.pending(caller) == Some(amount),
        amount > 0,
        mid.pending(caller) == Some(0 as Balance),
        r2 == Err::<Balance, Error>(Error::ZeroWithdrawal),
        post == mid,
{
}

} // verus!
