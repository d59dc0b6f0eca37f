use real_estate_ledger::Error;
use real_estate_ledger::RealEstateNFT;

fn register_plain(ledger: &mut RealEstateNFT, total_shares: u64, now: u64) -> u64 {
    ledger.register_property(
        String::from("X"),
        String::from("Somewhere"),
        String::from("A property"),
        total_shares,
        1,
        String::from("http://img"),
        now,
    )
}

#[test]
fn register_twice_yields_sequential_ids() {
    let mut ledger = RealEstateNFT::new();
    ledger.initialize(7).unwrap();
    let id1 = register_plain(&mut ledger, 100, 1);
    let id2 = register_plain(&mut ledger, 50, 2);
    assert_eq!(id1, 1);
    assert_eq!(id2, 2);
    assert_eq!(ledger.get_property_stats().total_properties, 2);
}

#[test]
fn register_needs_no_initialization() {
    let mut ledger = RealEstateNFT::new();
    let id = register_plain(&mut ledger, 100, 1);
    assert_eq!(id, 1);
    assert_eq!(ledger.get_property_stats().total_properties, 1);
}

#[test]
fn initialize_twice_fails() {
    let mut ledger = RealEstateNFT::new();
    assert_eq!(ledger.initialize(7), Ok(()));
    assert_eq!(ledger.initialize(8), Err(Error::AlreadyInitialized));
}

#[test]
fn verify_marks_property_and_counts_it() {
    let mut ledger = RealEstateNFT::new();
    ledger.initialize(7).unwrap();
    register_plain(&mut ledger, 100, 1);
    assert!(!ledger.get_property(1).unwrap().is_verified);
    assert_eq!(ledger.verify_property(1, 7), Ok(()));
    assert!(ledger.get_property(1).unwrap().is_verified);
    assert_eq!(ledger.get_property_stats().verified_properties, 1);
}

#[test]
fn verify_twice_fails_with_already_verified() {
    let mut ledger = RealEstateNFT::new();
    ledger.initialize(7).unwrap();
    register_plain(&mut ledger, 100, 1);
    assert_eq!(ledger.verify_property(1, 7), Ok(()));
    assert_eq!(ledger.verify_property(1, 7), Err(Error::AlreadyVerified));
    assert_eq!(ledger.get_property_stats().verified_properties, 1);
}

#[test]
fn verify_before_initialize_fails() {
    let mut ledger = RealEstateNFT::new();
    register_plain(&mut ledger, 100, 1);
    assert_eq!(ledger.verify_property(1, 7), Err(Error::NotInitialized));
}

#[test]
fn verify_by_non_admin_fails() {
    let mut ledger = RealEstateNFT::new();
    ledger.initialize(7).unwrap();
    register_plain(&mut ledger, 100, 1);
    assert_eq!(ledger.verify_property(1, 8), Err(Error::NotAuthorized));
    assert!(!ledger.get_property(1).unwrap().is_verified);
}

#[test]
fn verify_unknown_property_fails() {
    let mut ledger = RealEstateNFT::new();
    ledger.initialize(7).unwrap();
    assert_eq!(ledger.verify_property(1, 7), Err(Error::NotFound));
    assert_eq!(ledger.verify_property(0, 7), Err(Error::NotFound));
}

#[test]
fn purchase_unverified_fails_without_state_change() {
    let mut ledger = RealEstateNFT::new();
    ledger.initialize(7).unwrap();
    register_plain(&mut ledger, 100, 1);
    let stats_before = ledger.get_property_stats();
    assert_eq!(ledger.purchase_shares(1, 30, 100, 5), Err(Error::NotVerified));
    assert_eq!(ledger.get_property_stats(), stats_before);
    let own = ledger.get_ownership(1, 100);
    assert_eq!(own.shares, 0);
    assert_eq!(own.purchase_time, 0);
}

#[test]
fn purchase_unknown_property_fails() {
    let mut ledger = RealEstateNFT::new();
    ledger.initialize(7).unwrap();
    assert_eq!(ledger.purchase_shares(1, 30, 100, 5), Err(Error::NotFound));
    assert_eq!(ledger.purchase_shares(0, 30, 100, 5), Err(Error::NotFound));
}

#[test]
fn repeat_purchase_accumulates_and_counts_one_owner_event() {
    let mut ledger = RealEstateNFT::new();
    ledger.initialize(7).unwrap();
    register_plain(&mut ledger, 100, 1);
    ledger.verify_property(1, 7).unwrap();
    let stats0 = ledger.get_property_stats();
    assert_eq!(ledger.purchase_shares(1, 10, 100, 5), Ok(()));
    assert_eq!(ledger.purchase_shares(1, 5, 100, 6), Ok(()));
    let own = ledger.get_ownership(1, 100);
    assert_eq!(own.shares, 15);
    assert_eq!(own.purchase_time, 6);
    let stats = ledger.get_property_stats();
    assert_eq!(stats.total_owners, stats0.total_owners + 1);
    assert_eq!(stats.total_transactions, stats0.total_transactions + 2);
}

#[test]
fn transfer_moves_shares_and_conserves_the_sum() {
    let mut ledger = RealEstateNFT::new();
    ledger.initialize(7).unwrap();
    register_plain(&mut ledger, 100, 1);
    ledger.verify_property(1, 7).unwrap();
    ledger.purchase_shares(1, 30, 100, 5).unwrap();
    ledger.purchase_shares(1, 4, 200, 5).unwrap();
    let before_a = ledger.get_ownership(1, 100).shares;
    let before_b = ledger.get_ownership(1, 200).shares;
    assert_eq!(ledger.transfer_shares(1, 100, 200, 10, 6), Ok(()));
    let after_a = ledger.get_ownership(1, 100).shares;
    let after_b = ledger.get_ownership(1, 200).shares;
    assert_eq!(after_a, before_a - 10);
    assert_eq!(after_b, before_b + 10);
    assert_eq!(after_a + after_b, before_a + before_b);
}

#[test]
fn transfer_more_than_balance_fails_and_changes_nothing() {
    let mut ledger = RealEstateNFT::new();
    ledger.initialize(7).unwrap();
    register_plain(&mut ledger, 100, 1);
    ledger.verify_property(1, 7).unwrap();
    ledger.purchase_shares(1, 30, 100, 5).unwrap();
    let stats_before = ledger.get_property_stats();
    assert_eq!(ledger.transfer_shares(1, 100, 200, 31, 6), Err(Error::InsufficientShares));
    assert_eq!(ledger.get_ownership(1, 100).shares, 30);
    assert_eq!(ledger.get_ownership(1, 200).shares, 0);
    assert_eq!(ledger.get_property_stats(), stats_before);
}

#[test]
fn transfer_without_record_fails_with_no_balance() {
    let mut ledger = RealEstateNFT::new();
    ledger.initialize(7).unwrap();
    register_plain(&mut ledger, 100, 1);
    ledger.verify_property(1, 7).unwrap();
    assert_eq!(ledger.transfer_shares(1, 100, 200, 1, 6), Err(Error::NoBalance));
}

#[test]
fn transfer_whole_balance_keeps_the_record_at_zero() {
    let mut ledger = RealEstateNFT::new();
    ledger.initialize(7).unwrap();
    register_plain(&mut ledger, 100, 1);
    ledger.verify_property(1, 7).unwrap();
    ledger.purchase_shares(1, 30, 100, 5).unwrap();
    assert_eq!(ledger.transfer_shares(1, 100, 200, 30, 6), Ok(()));
    assert_eq!(ledger.get_ownership(1, 100).shares, 0);
    assert_eq!(ledger.get_ownership(1, 200).shares, 30);
    // the sender's emptied record stays in their property index
    assert_eq!(ledger.get_user_properties(100), vec![1]);
}

#[test]
fn transfer_to_self_applies_the_recipient_write_last() {
    // The recipient's balance is read before the sender's decrement is
    // written back, and the recipient's record is written last, so a
    // self-transfer grows the one record.
    let mut ledger = RealEstateNFT::new();
    ledger.initialize(7).unwrap();
    register_plain(&mut ledger, 100, 1);
    ledger.verify_property(1, 7).unwrap();
    ledger.purchase_shares(1, 30, 100, 5).unwrap();
    assert_eq!(ledger.transfer_shares(1, 100, 100, 10, 6), Ok(()));
    assert_eq!(ledger.get_ownership(1, 100).shares, 40);
}

#[test]
fn end_to_end_scenario() {
    let mut ledger = RealEstateNFT::new();
    ledger.initialize(7).unwrap();
    let id = ledger.register_property(
        String::from("X"),
        String::from("Loc"),
        String::from("Desc"),
        100,
        1,
        String::from("http://img"),
        1,
    );
    assert_eq!(id, 1);
    assert_eq!(ledger.verify_property(1, 7), Ok(()));
    assert_eq!(ledger.purchase_shares(1, 30, 100, 2), Ok(()));
    assert_eq!(ledger.get_ownership(1, 100).shares, 30);
    assert_eq!(ledger.transfer_shares(1, 100, 200, 10, 3), Ok(()));
    assert_eq!(ledger.get_ownership(1, 100).shares, 20);
    assert_eq!(ledger.get_ownership(1, 200).shares, 10);
    let stats = ledger.get_property_stats();
    assert_eq!(stats.total_transactions, 2);
    assert_eq!(stats.total_owners, 2);
    assert_eq!(stats.total_properties, 1);
    assert_eq!(stats.verified_properties, 1);
}
