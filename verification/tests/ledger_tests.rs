use cryptopunks::{Cryptopunks, Error};

const OWNER: u64 = 0;
const ALICE: u64 = 1;
const BOB: u64 = 2;
const CHARLIE: u64 = 3;

#[test]
fn new_works() {
    let _cryptopunks = Cryptopunks::new(ALICE);
}

#[test]
fn get_works() {
    let mut cryptopunks = Cryptopunks::new(ALICE);
    let r = cryptopunks.get_punk(ALICE, 0);
    assert!(r.is_ok());
}

#[test]
fn sale_works() {
    let mut cryptopunks = Cryptopunks::new(ALICE);
    cryptopunks.get_punk(ALICE, 0).unwrap();
    cryptopunks.offer_punk_for_sale(ALICE, 0, 100000, None).unwrap();
    cryptopunks.buy_punk(CHARLIE, 0, 100000).unwrap();
    let withdrawn: u128 = cryptopunks.withdraw(ALICE).unwrap();
    assert_eq!(withdrawn, 100000);
}

#[test]
fn new_starts_empty() {
    let c = Cryptopunks::new(OWNER);
    assert_eq!(c.owner, OWNER);
    assert_eq!(c.total_supply, 1000);
    assert_eq!(c.punks_remaining_to_assign, 1000);
    assert_eq!(c.number_of_punks_to_reserve, 1000);
    assert_eq!(c.number_of_punks_reserved, 0);
    assert_eq!(c.next_punk_index_to_assign, 0);
    assert_eq!(c.punk_index_to_address.len(), 1000);
    assert_eq!(c.punk_index_to_address[0], None);
    assert_eq!(c.punk_index_to_address[999], None);
    assert_eq!(c.balance_of.get(OWNER), 0);
    assert_eq!(c.pending_withdrawals.get(OWNER), None);
}

#[test]
fn claim_assigns_and_counts() {
    let mut c = Cryptopunks::new(OWNER);
    let ev = c.get_punk(ALICE, 5).unwrap();
    assert_eq!(ev.to, ALICE);
    assert_eq!(ev.punk_index, 5);
    assert_eq!(c.punk_index_to_address[5], Some(ALICE));
    assert_eq!(c.balance_of.get(ALICE), 1);
    assert_eq!(c.punks_remaining_to_assign, 999);
}

#[test]
fn claim_twice_fails_and_changes_nothing() {
    let mut c = Cryptopunks::new(OWNER);
    c.get_punk(ALICE, 5).unwrap();
    let r = c.get_punk(BOB, 5);
    assert_eq!(r, Err(Error::AssetAlreadyAssigned));
    assert_eq!(c.punk_index_to_address[5], Some(ALICE));
    assert_eq!(c.balance_of.get(ALICE), 1);
    assert_eq!(c.balance_of.get(BOB), 0);
    assert_eq!(c.punks_remaining_to_assign, 999);
}

#[test]
fn transfer_moves_ownership_and_balances() {
    let mut c = Cryptopunks::new(OWNER);
    c.get_punk(ALICE, 7).unwrap();
    let (value_ev, punk_ev) = c.transfer_punk(ALICE, BOB, 7).unwrap();
    assert_eq!(value_ev.from, ALICE);
    assert_eq!(value_ev.to, BOB);
    assert_eq!(value_ev.value, 1);
    assert_eq!(punk_ev.from, ALICE);
    assert_eq!(punk_ev.to, BOB);
    assert_eq!(punk_ev.punk_index, 7);
    assert_eq!(c.punk_index_to_address[7], Some(BOB));
    assert_eq!(c.balance_of.get(ALICE), 0);
    assert_eq!(c.balance_of.get(BOB), 1);
}

#[test]
fn transfer_by_non_owner_fails_and_changes_nothing() {
    let mut c = Cryptopunks::new(OWNER);
    c.get_punk(ALICE, 7).unwrap();
    let r = c.transfer_punk(BOB, CHARLIE, 7);
    assert_eq!(r, Err(Error::NotOwner));
    assert_eq!(c.punk_index_to_address[7], Some(ALICE));
    assert_eq!(c.balance_of.get(ALICE), 1);
    assert_eq!(c.balance_of.get(BOB), 0);
    assert_eq!(c.balance_of.get(CHARLIE), 0);
}

#[test]
fn transfer_unassigned_fails() {
    let mut c = Cryptopunks::new(OWNER);
    let r = c.transfer_punk(ALICE, BOB, 7);
    assert_eq!(r, Err(Error::AssetUnassigned));
}

#[test]
fn transfer_to_self_keeps_balance() {
    let mut c = Cryptopunks::new(OWNER);
    c.get_punk(ALICE, 4).unwrap();
    c.transfer_punk(ALICE, ALICE, 4).unwrap();
    assert_eq!(c.punk_index_to_address[4], Some(ALICE));
    assert_eq!(c.balance_of.get(ALICE), 1);
}

#[test]
fn reserve_scenario_two_runs_of_five_hundred() {
    let mut c = Cryptopunks::new(OWNER);
    let first = c.reserve_punks_for_owner(OWNER, 500).unwrap();
    assert_eq!(first.len(), 500);
    assert_eq!(first[0].to, OWNER);
    assert_eq!(first[0].punk_index, 0);
    assert_eq!(first[499].punk_index, 499);
    let second = c.reserve_punks_for_owner(OWNER, 500).unwrap();
    assert_eq!(second.len(), 500);
    assert_eq!(second[0].punk_index, 500);
    assert_eq!(c.punks_remaining_to_assign, 0);
    assert_eq!(c.balance_of.get(OWNER), 1000);
    assert_eq!(c.number_of_punks_reserved, 1000);
    let third = c.reserve_punks_for_owner(OWNER, 500);
    assert_eq!(third, Err(Error::AlreadyReserved));
}

#[test]
fn reserve_by_non_owner_fails() {
    let mut c = Cryptopunks::new(OWNER);
    let r = c.reserve_punks_for_owner(BOB, 10);
    assert_eq!(r, Err(Error::Unauthorized));
    assert_eq!(c.punks_remaining_to_assign, 1000);
}

#[test]
fn reserve_skips_claimed_assets() {
    let mut c = Cryptopunks::new(OWNER);
    c.get_punk(ALICE, 0).unwrap();
    c.get_punk(ALICE, 2).unwrap();
    let granted = c.reserve_punks_for_owner(OWNER, 3).unwrap();
    let indices: Vec<u32> = granted.iter().map(|e| e.punk_index).collect();
    assert_eq!(indices, vec![1, 3, 4]);
    assert_eq!(c.punk_index_to_address[0], Some(ALICE));
    assert_eq!(c.punk_index_to_address[1], Some(OWNER));
    assert_eq!(c.balance_of.get(OWNER), 3);
    assert_eq!(c.balance_of.get(ALICE), 2);
    assert_eq!(c.punks_remaining_to_assign, 995);
    assert_eq!(c.next_punk_index_to_assign, 5);
}

#[test]
fn reserve_cap_larger_than_quota_takes_whole_supply() {
    let mut c = Cryptopunks::new(OWNER);
    let granted = c.reserve_punks_for_owner(OWNER, 2000).unwrap();
    assert_eq!(granted.len(), 1000);
    assert_eq!(c.punks_remaining_to_assign, 0);
    assert_eq!(c.balance_of.get(OWNER), 1000);
}

#[test]
fn balance_sum_matches_assigned_count() {
    // Supply conservation, checked on concrete states: the recorded balances
    // always add up to totalSupply - remainingToAssign.
    let mut c = Cryptopunks::new(OWNER);
    c.get_punk(ALICE, 10).unwrap();
    c.get_punk(BOB, 11).unwrap();
    c.transfer_punk(ALICE, BOB, 10).unwrap();
    c.reserve_punks_for_owner(OWNER, 7).unwrap();
    let sum: u64 = [OWNER, ALICE, BOB, CHARLIE]
        .iter()
        .map(|a| c.balance_of.get(*a) as u64)
        .sum();
    assert_eq!(sum, (c.total_supply - c.punks_remaining_to_assign) as u64);
    assert_eq!(c.punks_remaining_to_assign, 991);
}
