use vstd::prelude::*;

use crate::errors::Error;
use crate::events::{AccountId, Assign, Balance, PunkNoLongerForSale, PunkOffered, PunkTransfer,
    Transfer};
use crate::owners::{assigned_count, count_owned, lemma_assigned_skip, lemma_assigned_update,
    lemma_assigned_absent, lemma_count_absent, lemma_count_present, lemma_count_skip,
    lemma_count_update};
use crate::tables::{sum_of, BalanceTable, PendingTable};

verus! {

/// What one bulk-reservation run does to the owner table, starting at slot
/// `next` with `count` assets already granted this run: walk the indices
/// upward, granting each still-unowned slot to `caller` and skipping owned
/// ones, until the run's grant count reaches the full reservation quota or
/// the caller's per-run cap, or the indices run out. Yields the owner table
/// and next-index pointer left behind, and the granted indices in order.
/// The count is compared against the whole quota, not the unconsumed part of
/// it; repeated runs are instead cut off by the consumed-quota check before
/// the walk starts.
pub open spec fn reserve_scan(
    owners: Seq<Option<AccountId>>,
    next: int,
    count: int,
    quota: int,
    cap: int,
    caller: AccountId,
) -> (Seq<Option<AccountId>>, int, Seq<u32>)
    decreases owners.len() - next,
    when 0 <= next <= owners.len()
{
    if count >= quota || count >= cap || next >= owners.len() {
        (owners, next, Seq::<u32>::empty())
    } else if owners[next] is None {
        let step = reserve_scan(
            owners.update(next, Some(caller)),
            next + 1,
            count + 1,
            quota,
            cap,
            caller,
        );
        (step.0, step.1, seq![next as u32] + step.2)
    } else {
        reserve_scan(owners, next + 1, count, quota, cap, caller)
    }
}

/// The asset indices named by a run of assignment notifications.
pub open spec fn granted_indices(evs: Seq<Assign>) -> Seq<u32>
    decreases evs.len(),
{
    if evs.len() == 0 {
        Seq::<u32>::empty()
    } else {
        granted_indices(evs.drop_last()).push(evs.last().punk_index)
    }
}

pub proof fn lemma_granted_indices_len(evs: Seq<Assign>)
    ensures
        granted_indices(evs).len() == evs.len(),
    decreases evs.len(),
{
    if evs.len() > 0 {
        lemma_granted_indices_len(evs.drop_last());
    }
}

/// The standing sale state of one asset.
#[derive(Clone, Copy, Debug, PartialEq, Eq)]
pub enum Offer {
    /// No active offer.
    NotForSale,
    /// Offered by `seller` at `min_value` or more, optionally restricted to
    /// the single buyer in `only_sell_to`.
    ForSale { seller: AccountId, min_value: Balance, only_sell_to: Option<AccountId> },
}

/// The whole ledger: a fixed supply of assets, their owners, per-owner
/// counts, the distribution counters, the per-asset sale offers and the
/// per-account escrowed proceeds.
pub struct Cryptopunks {
    /// The privileged deployer, sole authorized caller of bulk reservation.
    pub owner: AccountId,
    /// Number of assets, fixed at construction; indices run below it.
    pub total_supply: u32,
    /// How many assets still have no owner.
    pub punks_remaining_to_assign: u32,
    /// Quota for the privileged owner's bulk self-allocation.
    pub number_of_punks_to_reserve: u32,
    /// How many assets bulk reservation has granted so far.
    pub number_of_punks_reserved: u32,
    /// Where the next bulk reservation starts scanning.
    pub next_punk_index_to_assign: u32,
    /// Asset index to current owner; `None` means unassigned.
    pub punk_index_to_address: Vec<Option<AccountId>>,
    /// Asset index to its standing sale state.
    pub punks_offered_for_sale: Vec<Offer>,
    /// Escrowed sale proceeds, awaiting withdrawal.
    pub pending_withdrawals: PendingTable,
    /// Per-account owned-asset counts.
    pub balance_of: BalanceTable,
}

impl Cryptopunks {
    /// Asset index to current owner, as a sequence over the fixed index range.
    pub open spec fn owners(self) -> Seq<Option<AccountId>> {
        self.punk_index_to_address@
    }

    /// Asset index to standing sale state.
    pub open spec fn offers(self) -> Seq<Offer> {
        self.punks_offered_for_sale@
    }

    /// The owned-asset count recorded for `a` (zero when never recorded).
    pub open spec fn bal(self, a: AccountId) -> u32 {
        self.balance_of.bal(a)
    }

    /// The escrow entry recorded for `a`, if any.
    pub open spec fn pending(self, a: AccountId) -> Option<Balance> {
        self.pending_withdrawals.pend(a)
    }

    /// The accounting invariants that every completed call preserves:
    /// both index tables span exactly the fixed supply; the two account
    /// tables have distinct keys; each recorded balance counts exactly the
    /// assets its account owns; assigned assets and assets remaining to
    /// assign partition the supply; the recorded balances add up to the
    /// number of assigned assets; and the reservation counters stay within
    /// the index range.
    pub open spec fn wf(self) -> bool {
        &&& self.punk_index_to_address@.len() == self.total_supply as int
        &&& self.punks_offered_for_sale@.len() == self.total_supply as int
        &&& self.balance_of.wf()
        &&& self.pending_withdrawals.wf()
        &&& forall|a: AccountId| (#[trigger] self.bal(a)) as int == count_owned(self.owners(), a)
        &&& assigned_count(self.owners()) + self.punks_remaining_to_assign as int
            == self.total_supply as int
        &&& sum_of(self.balance_of.entries@) == self.total_supply as int
            - self.punks_remaining_to_assign as int
        &&& self.number_of_punks_reserved <= self.next_punk_index_to_assign
        &&& self.next_punk_index_to_assign <= self.total_supply
    }

    /// True when `post` keeps every escrow entry of `pre`.
    pub open spec fn same_pending(pre: Cryptopunks, post: Cryptopunks) -> bool {
        forall|a: AccountId| #[trigger] post.pending(a) == pre.pending(a)
    }

    /// True when `post` keeps every recorded balance of `pre`.
    pub open spec fn same_balances(pre: Cryptopunks, post: Cryptopunks) -> bool {
        forall|a: AccountId| #[trigger] post.bal(a) == pre.bal(a)
    }

    /// Exactly what a `get_punk` call does: claiming an already-owned asset
    /// is refused, claiming with nothing left to assign is refused, and
    /// otherwise the asset becomes the caller's, with the remaining-to-assign
    /// counter and the caller's balance moved in lockstep and everything else
    /// untouched.
    pub open spec fn claim_transition(
        pre: Cryptopunks,
        post: Cryptopunks,
        caller: AccountId,
        punk_index: u32,
        r: Result<Assign, Error>,
    ) -> bool {
        if pre.owners()[punk_index as int] is Some {
            r == Err::<Assign, Error>(Error::AssetAlreadyAssigned) && post == pre
        } else if pre.punks_remaining_to_assign == 0 {
            r == Err::<Assign, Error>(Error::SupplyExhausted) && post == pre
        } else {
            &&& r == Ok::<Assign, Error>(Assign { to: caller, punk_index })
            &&& post.owners() == pre.owners().update(punk_index as int, Some(caller))
            &&& post.punks_remaining_to_assign == pre.punks_remaining_to_assign - 1
            &&& post.bal(caller) as int == pre.bal(caller) as int + 1
            &&& forall|a: AccountId| a != caller ==> #[trigger] post.bal(a) == pre.bal(a)
            &&& post.offers() == pre.offers()
            &&& Self::same_pending(pre, post)
            &&& post.owner == pre.owner
            &&& post.total_supply == pre.total_supply
            &&& post.number_of_punks_to_reserve == pre.number_of_punks_to_reserve
            &&& post.number_of_punks_reserved == pre.number_of_punks_reserved
            &&& post.next_punk_index_to_assign == pre.next_punk_index_to_assign
        }
    }

    /// Exactly what a `reserve_punks_for_owner` call does: refused for
    /// anyone but the privileged owner, and refused once the consumed
    /// reservation quota has reached its bound; otherwise the run grants
    /// assets as [`reserve_scan`] describes, moving the distribution
    /// counters and the caller's balance in lockstep with the grant count
    /// and touching nothing else.
    pub open spec fn reserve_transition(
        pre: Cryptopunks,
        post: Cryptopunks,
        caller: AccountId,
        max_for_this_run: u32,
        r: Result<Vec<Assign>, Error>,
    ) -> bool {
        if caller != pre.owner {
            r == Err::<Vec<Assign>, Error>(Error::Unauthorized) && post == pre
        } else if pre.number_of_punks_reserved >= pre.number_of_punks_to_reserve {
            r == Err::<Vec<Assign>, Error>(Error::AlreadyReserved) && post == pre
        } else {
            let step = reserve_scan(
                pre.owners(),
                pre.next_punk_index_to_assign as int,
                0,
                pre.number_of_punks_to_reserve as int,
                max_for_this_run as int,
                caller,
            );
            &&& r matches Ok(evs)
            &&& granted_indices(evs@) == step.2
            &&& evs@.len() == step.2.len()
            &&& forall|j: int| 0 <= j < evs@.len() ==> (#[trigger] evs@[j]).to == caller
            &&& post.owners() == step.0
            &&& post.next_punk_index_to_assign as int == step.1
            &&& post.punks_remaining_to_assign as int == pre.punks_remaining_to_assign as int
                - step.2.len()
            &&& post.number_of_punks_reserved as int == pre.number_of_punks_reserved as int
                + step.2.len()
            &&& post.bal(caller) as int == pre.bal(caller) as int + step.2.len()
            &&& forall|a: AccountId| a != caller ==> #[trigger] post.bal(a) == pre.bal(a)
            &&& post.offers() == pre.offers()
            &&& Self::same_pending(pre, post)
            &&& post.owner == pre.owner
            &&& post.total_supply == pre.total_supply
            &&& post.number_of_punks_to_reserve == pre.number_of_punks_to_reserve
        }
    }

    /// Exactly what a `transfer_punk` call does: an unassigned asset or a
    /// caller who is not its owner is refused; otherwise ownership moves to
    /// `to` and the two balances move in lockstep. The asset's standing sale
    /// offer is deliberately left as it was, so an offer can go stale.
    pub open spec fn transfer_transition(
        pre: Cryptopunks,
        post: Cryptopunks,
        caller: AccountId,
        to: AccountId,
        punk_index: u32,
        r: Result<(Transfer, PunkTransfer), Error>,
    ) -> bool {
        if pre.owners()[punk_index as int] is None {
            r == Err::<(Transfer, PunkTransfer), Error>(Error::AssetUnassigned) && post == pre
        } else if pre.owners()[punk_index as int] != Some(caller) {
            r == Err::<(Transfer, PunkTransfer), Error>(Error::NotOwner) && post == pre
        } else {
            &&& r == Ok::<(Transfer, PunkTransfer), Error>(
                ((Transfer { from: caller, to, value: 1 }),
                (PunkTransfer { from: caller, to, punk_index })),
            )
            &&& post.owners() == pre.owners().update(punk_index as int, Some(to))
            &&& (to == caller ==> Self::same_balances(pre, post))
            &&& (to != caller ==> post.bal(caller) as int == pre.bal(caller) as int - 1)
            &&& (to != caller ==> post.bal(to) as int == pre.bal(to) as int + 1)
            &&& forall|a: AccountId|
                a != caller && a != to ==> #[trigger] post.bal(a) == pre.bal(a)
            &&& post.offers() == pre.offers()
            &&& Self::same_pending(pre, post)
            &&& post.owner == pre.owner
            &&& post.total_supply == pre.total_supply
            &&& post.punks_remaining_to_assign == pre.punks_remaining_to_assign
            &&& post.number_of_punks_to_reserve == pre.number_of_punks_to_reserve
            &&& post.number_of_punks_reserved == pre.number_of_punks_reserved
            &&& post.next_punk_index_to_assign == pre.next_punk_index_to_assign
        }
    }

    /// Exactly what an `offer_punk_for_sale` call does: refused unless the
    /// caller currently owns the asset; otherwise any standing offer for the
    /// asset is overwritten and nothing else changes.
    pub open spec fn offer_transition(
        pre: Cryptopunks,
        post: Cryptopunks,
        caller: AccountId,
        punk_index: u32,
        min_sale_price: Balance,
        address: Option<AccountId>,
        r: Result<PunkOffered, Error>,
    ) -> bool {
        if pre.owners()[punk_index as int] != Some(caller) {
            r == Err::<PunkOffered, Error>(Error::NotOwner) && post == pre
        } else {
            &&& r == Ok::<PunkOffered, Error>(PunkOffered { punk_index, min_sale_price, address })
            &&& post.offers() == pre.offers().update(
                punk_index as int,
                (Offer::ForSale { seller: caller, min_value: min_sale_price,
                    only_sell_to: address }),
            )
            &&& post.owners() == pre.owners()
            &&& Self::same_balances(pre, post)
            &&& Self::same_pending(pre, post)
            &&& post.owner == pre.owner
            &&& post.total_supply == pre.total_supply
            &&& post.punks_remaining_to_assign == pre.punks_remaining_to_assign
            &&& post.number_of_punks_to_reserve == pre.number_of_punks_to_reserve
            &&& post.number_of_punks_reserved == pre.number_of_punks_reserved
            &&& post.next_punk_index_to_assign == pre.next_punk_index_to_assign
        }
    }

    /// Exactly what a `buy_punk` call does. Settlement is deliberately
    /// two-phase: a successful purchase credits the seller's escrow with the
    /// whole payment (overwriting, not adding to, any earlier credit) and
    /// clears the offer, but never moves ownership — that takes a later
    /// `transfer_punk` by the seller.
    pub open spec fn buy_transition(
        pre: Cryptopunks,
        post: Cryptopunks,
        caller: AccountId,
        punk_index: u32,
        payment: Balance,
        r: Result<(Transfer, PunkNoLongerForSale), Error>,
    ) -> bool {
        match pre.offers()[punk_index as int] {
            Offer::NotForSale => r == Err::<(Transfer, PunkNoLongerForSale), Error>(
                Error::OfferNotForSale,
            ) && post == pre,
            Offer::ForSale { seller, min_value, only_sell_to } => {
                if only_sell_to matches Some(b) && b != caller {
                    r == Err::<(Transfer, PunkNoLongerForSale), Error>(Error::BuyerRestricted)
                        && post == pre
                } else if payment < min_value {
                    r == Err::<(Transfer, PunkNoLongerForSale), Error>(Error::InsufficientPayment)
                        && post == pre
                } else if pre.owners()[punk_index as int] != Some(seller) {
                    r == Err::<(Transfer, PunkNoLongerForSale), Error>(Error::SellerMismatch)
                        && post == pre
                } else {
                    &&& r == Ok::<(Transfer, PunkNoLongerForSale), Error>(
                        ((Transfer { from: seller, to: caller, value: payment }),
                        (PunkNoLongerForSale { punk_index })),
                    )
                    &&& post.pending(seller) == Some(payment)
                    &&& forall|a: AccountId|
                        a != seller ==> #[trigger] post.pending(a) == pre.pending(a)
                    &&& post.offers() == pre.offers().update(
                        punk_index as int,
                        Offer::NotForSale,
                    )
                    &&& post.owners() == pre.owners()
                    &&& Self::same_balances(pre, post)
                    &&& post.owner == pre.owner
                    &&& post.total_supply == pre.total_supply
                    &&& post.punks_remaining_to_assign == pre.punks_remaining_to_assign
                    &&& post.number_of_punks_to_reserve == pre.number_of_punks_to_reserve
                    &&& post.number_of_punks_reserved == pre.number_of_punks_reserved
                    &&& post.next_punk_index_to_assign == pre.next_punk_index_to_assign
                }
            },
        }
    }

    /// Exactly what a `withdraw` call does: refused when the caller has no
    /// escrow entry or an entry of zero; otherwise the entry is reset to zero
    /// and the amount is handed back for the host to release. Zeroing happens
    /// before any release, so no re-entrant observer can withdraw twice.
    pub open spec fn withdraw_transition(
        pre: Cryptopunks,
        post: Cryptopunks,
        caller: AccountId,
        r: Result<Balance, Error>,
    ) -> bool {
        match pre.pending(caller) {
            None => r == Err::<Balance, Error>(Error::NoPendingWithdrawal) && post == pre,
            Some(amount) => {
                if amount == 0 {
                    r == Err::<Balance, Error>(Error::ZeroWithdrawal) && post == pre
                } else {
                    &&& r == Ok::<Balance, Error>(amount)
                    &&& post.pending(caller) == Some(0 as Balance)
                    &&& forall|a: AccountId|
                        a != caller ==> #[trigger] post.pending(a) == pre.pending(a)
                    &&& post.owners() == pre.owners()
                    &&& post.offers() == pre.offers()
                    &&& Self::same_balances(pre, post)
                    &&& post.owner == pre.owner
                    &&& post.total_supply == pre.total_supply
                    &&& post.punks_remaining_to_assign == pre.punks_remaining_to_assign
                    &&& post.number_of_punks_to_reserve == pre.number_of_punks_to_reserve
                    &&& post.number_of_punks_reserved == pre.number_of_punks_reserved
                    &&& post.next_punk_index_to_assign == pre.next_punk_index_to_assign
                }
            },
        }
    }

    /// Build a fresh ledger. The deploying caller becomes the privileged
    /// owner; the supply and the reservation quota are fixed at 1000 assets,
    /// all unassigned and not for sale, with no balances and no escrow.
    pub fn new(caller: AccountId) -> (s: Cryptopunks)
        ensures
            s.wf(),
            s.owner == caller,
            s.total_supply == 1000,
            s.punks_remaining_to_assign == 1000,
            s.number_of_punks_to_reserve == 1000,
            s.number_of_punks_reserved == 0,
            s.next_punk_index_to_assign == 0,
            forall|i: int| 0 <= i < 1000 ==> (#[trigger] s.owners()[i]) is None,
            forall|i: int| 0 <= i < 1000 ==> (#[trigger] s.offers()[i]) is NotForSale,
            forall|a: AccountId| #[trigger] s.bal(a) == 0,
            forall|a: AccountId| #[trigger] s.pending(a) is None,
    {
        let mut owner_slots: Vec<Option<AccountId>> = Vec::new();
        let mut i: u32 = 0;
        while i < 1000
            invariant
                i <= 1000,
                owner_slots@.len() == i as int,
                forall|j: int| 0 <= j < i as int ==> (#[trigger] owner_slots@[j]) is None,
            decreases 1000 - i,
        {
            owner_slots.push(None);
            i = i + 1;
        }
        let mut offer_slots: Vec<Offer> = Vec::new();
        let mut k: u32 = 0;
        while k < 1000
            invariant
                k <= 1000,
                offer_slots@.len() == k as int,
                forall|j: int| 0 <= j < k as int ==> (#[trigger] offer_slots@[j]) is NotForSale,
            decreases 1000 - k,
        {
            offer_slots.push(Offer::NotForSale);
            k = k + 1;
        }
        let s = Cryptopunks {
            owner: caller,
            total_supply: 1000,
            punks_remaining_to_assign: 1000,
            number_of_punks_to_reserve: 1000,
            number_of_punks_reserved: 0,
            next_punk_index_to_assign: 0,
            punk_index_to_address: owner_slots,
            punks_offered_for_sale: offer_slots,
            pending_withdrawals: PendingTable::new(),
            balance_of: BalanceTable::new(),
        };
        proof {
            assert forall|a: AccountId| (#[trigger] s.bal(a)) as int == count_owned(s.owners(), a)
                by {
                lemma_count_absent(s.owners(), a);
            }
            lemma_assigned_absent(s.owners());
        }
        s
    }

    /// Bulk-reserve still-unowned assets for the privileged owner, walking
    /// the indices upward from the next-to-assign pointer, up to the
    /// reservation quota and the caller's per-run cap.
    pub fn reserve_punks_for_owner(&mut self, caller: AccountId, max_for_this_run: u32) -> (r:
        Result<Vec<Assign>, Error>)
        requires
            old(self).wf(),
        ensures
            final(self).wf(),
            Self::reserve_transition(*old(self), *final(self), caller, max_for_this_run, r),
    {
        if caller != self.owner {
            return Err(Error::Unauthorized);
        }
        if self.number_of_punks_reserved >= self.number_of_punks_to_reserve {
            return Err(Error::AlreadyReserved);
        }
        let ghost q = self.number_of_punks_to_reserve as int;
        let ghost m = max_for_this_run as int;
        let mut granted: Vec<Assign> = Vec::new();
        let mut count: u32 = 0;
        while count < self.number_of_punks_to_reserve && count < max_for_this_run
            && self.next_punk_index_to_assign < self.total_supply
            invariant
                self.wf(),
                q == old(self).number_of_punks_to_reserve as int,
                m == max_for_this_run as int,
                caller == old(self).owner,
                old(self).number_of_punks_reserved < old(self).number_of_punks_to_reserve,
                self.owner == old(self).owner,
                self.total_supply == old(self).total_supply,
                self.number_of_punks_to_reserve == old(self).number_of_punks_to_reserve,
                self.punks_offered_for_sale@ == old(self).punks_offered_for_sale@,
                self.pending_withdrawals == old(self).pending_withdrawals,
                count as int == granted@.len(),
                self.punks_remaining_to_assign as int
                    == old(self).punks_remaining_to_assign as int - count as int,
                self.number_of_punks_reserved as int
                    == old(self).number_of_punks_reserved as int + count as int,
                self.bal(caller) as int == old(self).bal(caller) as int + count as int,
                forall|a: AccountId| a != caller ==> #[trigger] self.bal(a) == old(self).bal(a),
                forall|j: int|
                    0 <= j < granted@.len() ==> (#[trigger] granted@[j]).to == caller,
                count <= self.number_of_punks_to_reserve,
                count <= max_for_this_run,
                old(self).next_punk_index_to_assign <= self.next_punk_index_to_assign,
                reserve_scan(old(self).owners(), old(self).next_punk_index_to_assign as int, 0,
                    q, m, caller).0 == reserve_scan(self.owners(),
                    self.next_punk_index_to_assign as int, count as int, q, m, caller).0,
                reserve_scan(old(self).owners(), old(self).next_punk_index_to_assign as int, 0,
                    q, m, caller).1 == reserve_scan(self.owners(),
                    self.next_punk_index_to_assign as int, count as int, q, m, caller).1,
                reserve_scan(old(self).owners(), old(self).next_punk_index_to_assign as int, 0,
                    q, m, caller).2 == granted_indices(granted@) + reserve_scan(self.owners(),
                    self.next_punk_index_to_assign as int, count as int, q, m, caller).2,
            decreases self.total_supply as int - self.next_punk_index_to_assign as int,
        {
            let idx = self.next_punk_index_to_assign;
            let ghost prev = *self;
            let ghost g0 = granted@;
            let ghost c0 = count as int;
            if self.punk_index_to_address[idx as usize].is_none() {
                proof {
                    lemma_count_skip(prev.owners(), caller, idx as int);
                    lemma_assigned_skip(prev.owners(), idx as int);
                    assert((prev.bal(caller)) as int == count_owned(prev.owners(), caller));
                }
                self.punk_index_to_address[idx as usize] = Some(caller);
                let b = self.balance_of.get(caller);
                self.balance_of.set(caller, b + 1);
                self.punks_remaining_to_assign = self.punks_remaining_to_assign - 1;
                self.number_of_punks_reserved = self.number_of_punks_reserved + 1;
                granted.push(Assign { to: caller, punk_index: idx });
                count = count + 1;
                self.next_punk_index_to_assign = idx + 1;
                proof {
                    let s_o = prev.owners();
                    let nxt = idx as int;
                    assert(self.owners() == s_o.update(nxt, Some(caller)));
                    assert forall|a: AccountId| (#[trigger] self.bal(a)) as int
                        == count_owned(self.owners(), a) by {
                        assert((prev.bal(a)) as int == count_owned(s_o, a));
                        lemma_count_update(s_o, nxt, Some(caller), a);
                    }
                    lemma_assigned_update(s_o, nxt, Some(caller));
                    assert forall|a: AccountId| a != caller implies #[trigger] self.bal(a)
                        == old(self).bal(a) by {
                        assert(prev.bal(a) == old(self).bal(a));
                    }
                    let stepped = reserve_scan(self.owners(), nxt + 1, c0 + 1, q, m, caller);
                    assert(reserve_scan(s_o, nxt, c0, q, m, caller) == (stepped.0, stepped.1,
                        seq![idx] + stepped.2));
                    assert(granted@ == g0.push(Assign { to: caller, punk_index: idx }));
                    assert(granted@.drop_last() =~= g0);
                    assert(granted_indices(granted@) == granted_indices(g0).push(idx));
                    lemma_granted_indices_len(granted@);
                    assert(granted_indices(g0) + (seq![idx] + stepped.2) =~= granted_indices(
                        granted@) + stepped.2);
                }
            } else {
                self.next_punk_index_to_assign = idx + 1;
                proof {
                    assert forall|a: AccountId| (#[trigger] self.bal(a)) as int
                        == count_owned(self.owners(), a) by {
                        assert((prev.bal(a)) as int == count_owned(prev.owners(), a));
                    }
                    assert forall|a: AccountId| a != caller implies #[trigger] self.bal(a)
                        == old(self).bal(a) by {
                        assert(prev.bal(a) == old(self).bal(a));
                    }
                    assert(reserve_scan(prev.owners(), idx as int, c0, q, m, caller)
                        == reserve_scan(self.owners(), idx as int + 1, c0, q, m, caller));
                }
            }
        }
        proof {
            assert(reserve_scan(self.owners(), self.next_punk_index_to_assign as int,
                count as int, q, m, caller) == (self.owners(),
                self.next_punk_index_to_assign as int, Seq::<u32>::empty()));
            lemma_granted_indices_len(granted@);
            assert(granted_indices(granted@) + Seq::<u32>::empty() =~= granted_indices(granted@));
        }
        Ok(granted)
    }

    /// Claim one still-unassigned asset for the caller (the public
    /// self-service side of initial distribution).
    pub fn get_punk(&mut self, caller: AccountId, punk_index: u32) -> (r: Result<Assign, Error>)
        requires
            old(self).wf(),
            punk_index < old(self).total_supply,
        ensures
            final(self).wf(),
            Self::claim_transition(*old(self), *final(self), caller, punk_index, r),
    {
        if self.punk_index_to_address[punk_index as usize].is_some() {
            return Err(Error::AssetAlreadyAssigned);
        }
        if self.punks_remaining_to_assign == 0 {
            return Err(Error::SupplyExhausted);
        }
        proof {
            lemma_count_skip(self.owners(), caller, punk_index as int);
        }
        self.punk_index_to_address[punk_index as usize] = Some(caller);
        let b = self.balance_of.get(caller);
        proof {
            assert(b == old(self).bal(caller));
            assert((old(self).bal(caller)) as int == count_owned(old(self).owners(), caller));
        }
        self.balance_of.set(caller, b + 1);
        self.punks_remaining_to_assign = self.punks_remaining_to_assign - 1;
        proof {
            let s0 = old(self).owners();
            let i = punk_index as int;
            assert(self.owners() == s0.update(i, Some(caller)));
            assert forall|a: AccountId| (#[trigger] self.bal(a)) as int
                == count_owned(self.owners(), a) by {
                assert((old(self).bal(a)) as int == count_owned(s0, a));
                lemma_count_update(s0, i, Some(caller), a);
                if a == caller {
                    assert(self.bal(a) == b + 1);
                } else {
                    assert(self.bal(a) == old(self).bal(a));
                }
            }
            lemma_assigned_update(s0, i, Some(caller));
        }
        Ok(Assign { to: caller, punk_index })
    }

    /// Move ownership of an assigned asset from the caller to `to`. Any
    /// standing sale offer for the asset is left untouched (it goes stale and
    /// is guarded against at purchase time by the seller-mismatch check).
    pub fn transfer_punk(&mut self, caller: AccountId, to: AccountId, punk_index: u32) -> (r:
        Result<(Transfer, PunkTransfer), Error>)
        requires
            old(self).wf(),
            punk_index < old(self).total_supply,
        ensures
            final(self).wf(),
            Self::transfer_transition(*old(self), *final(self), caller, to, punk_index, r),
    {
        let cur = self.punk_index_to_address[punk_index as usize];
        let holder = match cur {
            Some(h) => h,
            None => {
                return Err(Error::AssetUnassigned);
            },
        };
        if holder != caller {
            return Err(Error::NotOwner);
        }
        proof {
            lemma_count_present(self.owners(), caller, punk_index as int);
            if to != caller {
                lemma_count_skip(self.owners(), to, punk_index as int);
            }
        }
        self.punk_index_to_address[punk_index as usize] = Some(to);
        let hb = self.balance_of.get(caller);
        proof {
            assert(hb == old(self).bal(caller));
            assert((old(self).bal(caller)) as int == count_owned(old(self).owners(), caller));
            assert((old(self).bal(to)) as int == count_owned(old(self).owners(), to));
        }
        self.balance_of.set(caller, hb - 1);
        let rb = self.balance_of.get(to);
        self.balance_of.set(to, rb + 1);
        proof {
            let s0 = old(self).owners();
            let i = punk_index as int;
            assert(self.owners() == s0.update(i, Some(to)));
            assert forall|a: AccountId| (#[trigger] self.bal(a)) as int
                == count_owned(self.owners(), a) by {
                assert((old(self).bal(a)) as int == count_owned(s0, a));
                lemma_count_update(s0, i, Some(to), a);
            }
            lemma_assigned_update(s0, i, Some(to));
        }
        Ok((Transfer { from: caller, to, value: 1 }, PunkTransfer { from: caller, to, punk_index }))
    }

    /// Put an asset the caller owns up for sale at `min_sale_price` or more,
    /// optionally restricted to the single buyer in `address`. Overwrites any
    /// standing offer for the asset.
    pub fn offer_punk_for_sale(
        &mut self,
        caller: AccountId,
        punk_index: u32,
        min_sale_price: Balance,
        address: Option<AccountId>,
    ) -> (r: Result<PunkOffered, Error>)
        requires
            old(self).wf(),
            punk_index < old(self).total_supply,
        ensures
            final(self).wf(),
            Self::offer_transition(
                *old(self),
                *final(self),
                caller,
                punk_index,
                min_sale_price,
                address,
                r,
            ),
    {
        let cur = self.punk_index_to_address[punk_index as usize];
        let is_owner = match cur {
            Some(h) => h == caller,
            None => false,
        };
        if !is_owner {
            return Err(Error::NotOwner);
        }
        self.punks_offered_for_sale[punk_index as usize] = Offer::ForSale {
            seller: caller,
            min_value: min_sale_price,
            only_sell_to: address,
        };
        proof {
            assert forall|a: AccountId| (#[trigger] self.bal(a)) as int
                == count_owned(self.owners(), a) by {
                assert((old(self).bal(a)) as int == count_owned(old(self).owners(), a));
            }
        }
        Ok(PunkOffered { punk_index, min_sale_price, address })
    }

    /// Clear the asset's standing offer. Shared tail of purchase settlement.
    fn no_longer_for_sale(&mut self, punk_index: u32) -> (ev: PunkNoLongerForSale)
        requires
            old(self).wf(),
            punk_index < old(self).total_supply,
        ensures
            final(self).wf(),
            final(self).offers() == old(self).offers().update(punk_index as int, Offer::NotForSale),
            final(self).punk_index_to_address == old(self).punk_index_to_address,
            final(self).pending_withdrawals == old(self).pending_withdrawals,
            final(self).balance_of == old(self).balance_of,
            final(self).owner == old(self).owner,
            final(self).total_supply == old(self).total_supply,
            final(self).punks_remaining_to_assign == old(self).punks_remaining_to_assign,
            final(self).number_of_punks_to_reserve == old(self).number_of_punks_to_reserve,
            final(self).number_of_punks_reserved == old(self).number_of_punks_reserved,
            final(self).next_punk_index_to_assign == old(self).next_punk_index_to_assign,
            ev == (PunkNoLongerForSale { punk_index }),
    {
        self.punks_offered_for_sale[punk_index as usize] = Offer::NotForSale;
        proof {
            assert forall|a: AccountId| (#[trigger] self.bal(a)) as int
                == count_owned(self.owners(), a) by {
                assert((old(self).bal(a)) as int == count_owned(old(self).owners(), a));
            }
        }
        PunkNoLongerForSale { punk_index }
    }

    /// Settle a purchase of an asset with an active offer: check eligibility
    /// and price, credit the whole payment to the seller's escrow
    /// (overwriting any earlier credit) and clear the offer. Ownership does
    /// not move here; the seller must follow up with `transfer_punk`.
    pub fn buy_punk(&mut self, caller: AccountId, punk_index: u32, payment: Balance) -> (r: Result<
        (Transfer, PunkNoLongerForSale),
        Error,
    >)
        requires
            old(self).wf(),
            punk_index < old(self).total_supply,
        ensures
            final(self).wf(),
            Self::buy_transition(*old(self), *final(self), caller, punk_index, payment, r),
    {
        let offer = self.punks_offered_for_sale[punk_index as usize];
        match offer {
            Offer::NotForSale => Err(Error::OfferNotForSale),
            Offer::ForSale { seller, min_value, only_sell_to } => {
                match only_sell_to {
                    Some(b) => {
                        if b != caller {
                            return Err(Error::BuyerRestricted);
                        }
                    },
                    None => {},
                }
                if payment < min_value {
                    return Err(Error::InsufficientPayment);
                }
                let cur = self.punk_index_to_address[punk_index as usize];
                let seller_owns = match cur {
                    Some(h) => h == seller,
                    None => false,
                };
                if !seller_owns {
                    return Err(Error::SellerMismatch);
                }
                self.pending_withdrawals.set(seller, payment);
                proof {
                    assert forall|a: AccountId| (#[trigger] self.bal(a)) as int
                        == count_owned(self.owners(), a) by {
                        assert((old(self).bal(a)) as int == count_owned(old(self).owners(), a));
                    }
                }
                let cleared = self.no_longer_for_sale(punk_index);
                Ok((Transfer { from: seller, to: caller, value: payment }, cleared))
            },
        }
    }

    /// Withdraw the caller's escrowed proceeds: the entry is reset to zero
    /// and the amount is returned for the host environment to release to the
    /// caller. The reset happens before any release.
    pub fn withdraw(&mut self, caller: AccountId) -> (r: Result<Balance, Error>)
        requires
            old(self).wf(),
        ensures
            final(self).wf(),
            Self::withdraw_transition(*old(self), *final(self), caller, r),
    {
        let amount = match self.pending_withdrawals.get(caller) {
            Some(a) => a,
            None => {
                return Err(Error::NoPendingWithdrawal);
            },
        };
        if amount == 0 {
            return Err(Error::ZeroWithdrawal);
        }
        self.pending_withdrawals.set(caller, 0);
        proof {
            assert forall|a: AccountId| (#[trigger] self.bal(a)) as int
                == count_owned(self.owners(), a) by {
                assert((old(self).bal(a)) as int == count_owned(old(self).owners(), a));
            }
        }
        Ok(amount)
    }
}

} // verus!
