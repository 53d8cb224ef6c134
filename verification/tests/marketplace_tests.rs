use cryptopunks::{Cryptopunks, Error, Offer};

const OWNER: u64 = 0;
const ALICE: u64 = 1;
const BOB: u64 = 2;
const CHARLIE: u64 = 3;

#[test]
fn offer_requires_ownership() {
    let mut c = Cryptopunks::new(OWNER);
    c.get_punk(ALICE, 0).unwrap();
    let r = c.offer_punk_for_sale(BOB, 0, 500, None);
    assert_eq!(r, Err(Error::NotOwner));
    assert!(matches!(c.punks_offered_for_sale[0], Offer::NotForSale));
    let r2 = c.offer_punk_for_sale(CHARLIE, 1, 500, None);
    assert_eq!(r2, Err(Error::NotOwner));
}

#[test]
fn offer_records_terms() {
    let mut c = Cryptopunks::new(OWNER);
    c.get_punk(ALICE, 0).unwrap();
    let ev = c.offer_punk_for_sale(ALICE, 0, 100000, Some(BOB)).unwrap();
    assert_eq!(ev.punk_index, 0);
    assert_eq!(ev.min_sale_price, 100000);
    assert_eq!(ev.address, Some(BOB));
    match c.punks_offered_for_sale[0] {
        Offer::ForSale { seller, min_value, only_sell_to } => {
            assert_eq!(seller, ALICE);
            assert_eq!(min_value, 100000);
            assert_eq!(only_sell_to, Some(BOB));
        },
        Offer::NotForSale => panic!("offer was not recorded"),
    }
}

#[test]
fn buy_without_offer_fails() {
    let mut c = Cryptopunks::new(OWNER);
    c.get_punk(ALICE, 0).unwrap();
    let r = c.buy_punk(BOB, 0, 100000);
    assert_eq!(r, Err(Error::OfferNotForSale));
}

#[test]
fn buy_at_min_price_succeeds_and_underpayment_fails() {
    let mut c = Cryptopunks::new(OWNER);
    c.get_punk(ALICE, 0).unwrap();
    c.offer_punk_for_sale(ALICE, 0, 100000, None).unwrap();
    let refused = c.buy_punk(BOB, 0, 99999);
    assert_eq!(refused, Err(Error::InsufficientPayment));
    // the refused purchase leaves the offer active and unchanged
    match c.punks_offered_for_sale[0] {
        Offer::ForSale { seller, min_value, only_sell_to } => {
            assert_eq!(seller, ALICE);
            assert_eq!(min_value, 100000);
            assert_eq!(only_sell_to, None);
        },
        Offer::NotForSale => panic!("offer should still be active"),
    }
    let (paid_ev, cleared_ev) = c.buy_punk(BOB, 0, 100000).unwrap();
    assert_eq!(paid_ev.from, ALICE);
    assert_eq!(paid_ev.to, BOB);
    assert_eq!(paid_ev.value, 100000);
    assert_eq!(cleared_ev.punk_index, 0);
    assert!(matches!(c.punks_offered_for_sale[0], Offer::NotForSale));
    assert_eq!(c.pending_withdrawals.get(ALICE), Some(100000));
}

#[test]
fn second_sale_overwrites_escrow() {
    // Settlement overwrites the seller's escrow entry instead of adding to
    // it: proceeds of an unwithdrawn earlier sale are replaced.
    let mut c = Cryptopunks::new(OWNER);
    c.get_punk(ALICE, 0).unwrap();
    c.offer_punk_for_sale(ALICE, 0, 100, None).unwrap();
    c.buy_punk(BOB, 0, 100).unwrap();
    assert_eq!(c.pending_withdrawals.get(ALICE), Some(100));
    c.offer_punk_for_sale(ALICE, 0, 250, None).unwrap();
    c.buy_punk(CHARLIE, 0, 250).unwrap();
    assert_eq!(c.pending_withdrawals.get(ALICE), Some(250));
}

#[test]
fn stale_offer_is_guarded_by_seller_mismatch() {
    // A transfer does not clear the asset's offer; the stale offer is only
    // refused at purchase time.
    let mut c = Cryptopunks::new(OWNER);
    c.get_punk(ALICE, 0).unwrap();
    c.offer_punk_for_sale(ALICE, 0, 100000, None).unwrap();
    c.transfer_punk(ALICE, BOB, 0).unwrap();
    match c.punks_offered_for_sale[0] {
        Offer::ForSale { seller, .. } => assert_eq!(seller, ALICE),
        Offer::NotForSale => panic!("transfer must not clear the offer"),
    }
    let r = c.buy_punk(CHARLIE, 0, 100000);
    assert_eq!(r, Err(Error::SellerMismatch));
    assert_eq!(c.pending_withdrawals.get(ALICE), None);
}

#[test]
fn withdraw_resets_then_second_fails() {
    let mut c = Cryptopunks::new(OWNER);
    c.get_punk(ALICE, 0).unwrap();
    c.offer_punk_for_sale(ALICE, 0, 100000, None).unwrap();
    c.buy_punk(BOB, 0, 100000).unwrap();
    let amount: u128 = c.withdraw(ALICE).unwrap();
    assert_eq!(amount, 100000);
    assert_eq!(c.pending_withdrawals.get(ALICE), Some(0));
    let again = c.withdraw(ALICE);
    assert_eq!(again, Err(Error::ZeroWithdrawal));
    assert_eq!(c.pending_withdrawals.get(ALICE), Some(0));
}

#[test]
fn withdraw_without_entry_fails() {
    let mut c = Cryptopunks::new(OWNER);
    let r = c.withdraw(ALICE);
    assert_eq!(r, Err(Error::NoPendingWithdrawal));
}

#[test]
fn restricted_sale_scenario() {
    // Alice claims asset 5 and offers it to Bob alone; Charlie is refused,
    // Bob's purchase settles the payment and clears the offer, and ownership
    // stays with Alice until she transfers.
    let mut c = Cryptopunks::new(OWNER);
    c.get_punk(ALICE, 5).unwrap();
    c.offer_punk_for_sale(ALICE, 5, 100000, Some(BOB)).unwrap();
    let refused = c.buy_punk(CHARLIE, 5, 100000);
    assert_eq!(refused, Err(Error::BuyerRestricted));
    c.buy_punk(BOB, 5, 100000).unwrap();
    assert!(matches!(c.punks_offered_for_sale[5], Offer::NotForSale));
    assert_eq!(c.pending_withdrawals.get(ALICE), Some(100000));
    assert_eq!(c.punk_index_to_address[5], Some(ALICE));
    c.transfer_punk(ALICE, BOB, 5).unwrap();
    assert_eq!(c.punk_index_to_address[5], Some(BOB));
}

#[test]
fn restricted_offer_allows_named_buyer_only() {
    let mut c = Cryptopunks::new(OWNER);
    c.get_punk(ALICE, 1).unwrap();
    c.offer_punk_for_sale(ALICE, 1, 10, Some(CHARLIE)).unwrap();
    assert_eq!(c.buy_punk(BOB, 1, 10), Err(Error::BuyerRestricted));
    assert!(c.buy_punk(CHARLIE, 1, 10).is_ok());
}
