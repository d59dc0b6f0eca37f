use real_estate_ledger::Error;
use real_estate_ledger::RealEstateNFT;

fn ledger_with_properties(n: u64) -> RealEstateNFT {
    let mut ledger = RealEstateNFT::new();
    ledger.initialize(7).unwrap();
    for k in 0..n {
        ledger.register_property(
            format!("Property {}", k + 1),
            String::from("Somewhere"),
            String::from("A property"),
            100,
            2,
            String::from("http://img"),
            k + 1,
        );
    }
    ledger
}

#[test]
fn get_property_returns_the_registered_fields() {
    let ledger = ledger_with_properties(2);
    let p = ledger.get_property(2).unwrap();
    assert_eq!(p.property_id, 2);
    assert_eq!(p.title, "Property 2");
    assert_eq!(p.location, "Somewhere");
    assert_eq!(p.description, "A property");
    assert_eq!(p.total_shares, 100);
    assert_eq!(p.price_per_share, 2);
    assert_eq!(p.image_url, "http://img");
    assert_eq!(p.registration_time, 2);
    assert!(!p.is_verified);
}

#[test]
fn get_property_unknown_id_fails() {
    let ledger = ledger_with_properties(2);
    assert_eq!(ledger.get_property(0).unwrap_err(), Error::NotFound);
    assert_eq!(ledger.get_property(3).unwrap_err(), Error::NotFound);
}

#[test]
fn get_ownership_defaults_to_a_zero_record() {
    let ledger = ledger_with_properties(1);
    let own = ledger.get_ownership(1, 55);
    assert_eq!(own.property_id, 1);
    assert_eq!(own.owner, 55);
    assert_eq!(own.shares, 0);
    assert_eq!(own.purchase_time, 0);
}

#[test]
fn get_ownership_records_the_purchase_timestamp() {
    let mut ledger = ledger_with_properties(1);
    ledger.verify_property(1, 7).unwrap();
    ledger.purchase_shares(1, 12, 55, 99).unwrap();
    let own = ledger.get_ownership(1, 55);
    assert_eq!(own.shares, 12);
    assert_eq!(own.purchase_time, 99);
}

#[test]
fn user_properties_lists_first_acquisitions_in_order() {
    let mut ledger = ledger_with_properties(3);
    ledger.verify_property(1, 7).unwrap();
    ledger.verify_property(2, 7).unwrap();
    ledger.verify_property(3, 7).unwrap();
    ledger.purchase_shares(2, 5, 100, 1).unwrap();
    ledger.purchase_shares(1, 5, 100, 2).unwrap();
    // a second purchase in a known property appends nothing
    ledger.purchase_shares(2, 5, 100, 3).unwrap();
    assert_eq!(ledger.get_user_properties(100), vec![2, 1]);
    // a transfer-in appends for the recipient
    ledger.transfer_shares(1, 100, 200, 3, 4).unwrap();
    assert_eq!(ledger.get_user_properties(200), vec![1]);
    assert_eq!(ledger.get_user_properties(300), Vec::<u64>::new());
}

#[test]
fn total_shares_owned_sums_over_all_properties() {
    let mut ledger = ledger_with_properties(3);
    ledger.verify_property(1, 7).unwrap();
    ledger.verify_property(2, 7).unwrap();
    ledger.purchase_shares(1, 10, 100, 1).unwrap();
    ledger.purchase_shares(2, 32, 100, 2).unwrap();
    ledger.purchase_shares(2, 8, 200, 3).unwrap();
    assert_eq!(ledger.get_total_shares_owned(100), 42);
    assert_eq!(ledger.get_total_shares_owned(200), 8);
    assert_eq!(ledger.get_total_shares_owned(300), 0);
    // an emptied record contributes zero but keeps the sum correct
    ledger.transfer_shares(1, 100, 200, 10, 4).unwrap();
    assert_eq!(ledger.get_total_shares_owned(100), 32);
    assert_eq!(ledger.get_total_shares_owned(200), 18);
}

#[test]
fn list_from_zero_returns_at_most_limit_entries() {
    let ledger = ledger_with_properties(5);
    let page = ledger.list_properties(0, 3);
    assert_eq!(page.len(), 3);
    assert_eq!(page[0].property_id, 1);
    assert_eq!(page[1].property_id, 2);
    assert_eq!(page[2].property_id, 3);
    for p in &page {
        assert!(p.property_id >= 1 && p.property_id <= 5);
    }
}

#[test]
fn list_page_is_inclusive_on_both_ends() {
    let ledger = ledger_with_properties(5);
    let page = ledger.list_properties(2, 2);
    assert_eq!(page.len(), 3);
    assert_eq!(page[0].property_id, 2);
    assert_eq!(page[1].property_id, 3);
    assert_eq!(page[2].property_id, 4);
}

#[test]
fn list_clamps_to_the_counter() {
    let ledger = ledger_with_properties(3);
    let page = ledger.list_properties(2, 10);
    assert_eq!(page.len(), 2);
    assert_eq!(page[0].property_id, 2);
    assert_eq!(page[1].property_id, 3);
    assert!(ledger.list_properties(4, 10).is_empty());
    assert!(ledger.list_properties(0, 0).is_empty());
}

#[test]
fn list_on_an_empty_catalog_is_empty() {
    let ledger = RealEstateNFT::new();
    assert!(ledger.list_properties(0, 10).is_empty());
}

#[test]
fn stats_start_at_zero() {
    let ledger = RealEstateNFT::new();
    let stats = ledger.get_property_stats();
    assert_eq!(stats.total_properties, 0);
    assert_eq!(stats.verified_properties, 0);
    assert_eq!(stats.total_owners, 0);
    assert_eq!(stats.total_transactions, 0);
}
