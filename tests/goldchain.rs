use goldchain_contract::contract::{validate_string_length, AccountId, Error, GoldchainSc};
use goldchain_contract::key::{make_key, same_key};
use goldchain_contract::store::{Ledger, LedgerStore};

fn alice() -> AccountId {
    AccountId([1u8; 32])
}

fn bob() -> AccountId {
    AccountId([2u8; 32])
}

#[test]
fn test_initialize() {
    let mut contract = GoldchainSc::new();
    let result = contract.initialize(alice());
    assert!(result.is_ok());

    let result2 = contract.initialize(alice());
    assert_eq!(result2, Err(Error::AlreadyInitialized));
}

#[test]
fn test_add_ledger() {
    let mut contract = GoldchainSc::new();
    contract.initialize(alice()).unwrap();

    let result = contract.add_ledger(alice(), 0, String::from("TRACK001"), String::from("LOT001"));
    assert!(result.is_ok());
}

#[test]
fn test_duplicate_ledger() {
    let mut contract = GoldchainSc::new();
    contract.initialize(alice()).unwrap();

    contract
        .add_ledger(alice(), 0, String::from("TRACK001"), String::from("LOT001"))
        .unwrap();

    let result = contract.add_ledger(alice(), 0, String::from("TRACK001"), String::from("LOT001"));
    assert_eq!(result, Err(Error::LedgerAlreadyExists));
}

#[test]
fn test_unauthorized() {
    let mut contract = GoldchainSc::new();
    contract.initialize(alice()).unwrap();

    let result = contract.add_ledger(bob(), 0, String::from("TRACK001"), String::from("LOT001"));
    assert_eq!(result, Err(Error::UnauthorizedAuthority));
}

#[test]
fn test_string_length_limit() {
    let mut contract = GoldchainSc::new();
    contract.initialize(alice()).unwrap();

    let long_string = "a".repeat(257);

    let result = contract.add_ledger(alice(), 0, long_string, String::from("LOT001"));
    assert_eq!(result, Err(Error::StringTooLong));
}

#[test]
fn test_get_ledger() {
    let mut contract = GoldchainSc::new();
    contract.initialize(alice()).unwrap();

    contract
        .add_ledger(alice(), 0, String::from("TRACK001"), String::from("LOT001"))
        .unwrap();

    let ledger = contract.get_ledger(String::from("TRACK001"), String::from("LOT001"));
    assert!(ledger.is_some());

    let ledger = ledger.unwrap();
    assert_eq!(ledger.tracking_id, "TRACK001");
    assert_eq!(ledger.lot_id, "LOT001");
}

#[test]
fn initialize_twice_keeps_first_admin() {
    let mut contract = GoldchainSc::new();
    assert_eq!(contract.get_config(), None);
    assert_eq!(contract.initialize(alice()), Ok(()));
    assert_eq!(contract.initialize(bob()), Err(Error::AlreadyInitialized));
    assert_eq!(contract.initialize(alice()), Err(Error::AlreadyInitialized));
    assert_eq!(contract.get_config().unwrap().admin, alice());
}

#[test]
fn add_before_initialize_fails_for_anyone() {
    let mut contract = GoldchainSc::new();
    for caller in [alice(), bob()] {
        let r = contract.add_ledger(caller, 5, String::from("TRACK001"), String::from("LOT001"));
        assert_eq!(r, Err(Error::NotInitialized));
    }
    assert!(contract.get_all_ledgers().is_empty());
    assert!(contract.get_ledger(String::from("TRACK001"), String::from("LOT001")).is_none());
}

#[test]
fn non_admin_stores_nothing() {
    let mut contract = GoldchainSc::new();
    contract.initialize(alice()).unwrap();
    let r = contract.add_ledger(bob(), 5, String::from("TRACK002"), String::from("LOT002"));
    assert_eq!(r, Err(Error::UnauthorizedAuthority));
    assert!(contract.get_all_ledgers().is_empty());
    assert!(contract.get_ledger(String::from("TRACK002"), String::from("LOT002")).is_none());
}

#[test]
fn long_text_is_refused_whoever_calls() {
    let mut contract = GoldchainSc::new();
    contract.initialize(alice()).unwrap();
    let r = contract.add_ledger(bob(), 5, "a".repeat(257), String::from("LOT002"));
    assert_eq!(r, Err(Error::StringTooLong));
    let r = contract.add_ledger(bob(), 5, String::from("TRACK002"), "b".repeat(257));
    assert_eq!(r, Err(Error::StringTooLong));
    assert!(contract.get_all_ledgers().is_empty());
}

#[test]
fn long_lot_id_is_refused() {
    let mut contract = GoldchainSc::new();
    contract.initialize(alice()).unwrap();
    let r = contract.add_ledger(alice(), 5, String::from("TRACK001"), "b".repeat(300));
    assert_eq!(r, Err(Error::StringTooLong));
    assert!(contract.get_all_ledgers().is_empty());
}

#[test]
fn length_limit_counts_bytes() {
    assert_eq!(validate_string_length(&"a".repeat(256)), Ok(()));
    assert_eq!(validate_string_length(&"a".repeat(257)), Err(Error::StringTooLong));
    assert_eq!(validate_string_length(""), Ok(()));
    // 129 characters of two bytes each: 258 bytes.
    assert_eq!(validate_string_length(&"\u{e9}".repeat(129)), Err(Error::StringTooLong));
    assert_eq!(validate_string_length(&"\u{e9}".repeat(128)), Ok(()));
}

#[test]
fn text_of_exactly_the_limit_is_stored() {
    let mut contract = GoldchainSc::new();
    contract.initialize(alice()).unwrap();
    let t = "t".repeat(256);
    let l = "l".repeat(256);
    assert_eq!(contract.add_ledger(alice(), 9, t.clone(), l.clone()), Ok(()));
    let got = contract.get_ledger(t.clone(), l.clone()).unwrap();
    assert_eq!(got.tracking_id, t);
    assert_eq!(got.lot_id, l);
}

#[test]
fn duplicate_keeps_first_timestamp() {
    let mut contract = GoldchainSc::new();
    contract.initialize(alice()).unwrap();
    assert_eq!(contract.add_ledger(alice(), 100, String::from("T"), String::from("L")), Ok(()));
    assert_eq!(
        contract.add_ledger(alice(), 200, String::from("T"), String::from("L")),
        Err(Error::LedgerAlreadyExists)
    );
    let got = contract.get_ledger(String::from("T"), String::from("L")).unwrap();
    assert_eq!(got.recorded_at, 100);
    assert_eq!(contract.get_all_ledgers().len(), 1);
}

#[test]
fn get_ledger_only_for_stored_pairs() {
    let mut contract = GoldchainSc::new();
    contract.initialize(alice()).unwrap();
    contract.add_ledger(alice(), 1, String::from("TRACK001"), String::from("LOT001")).unwrap();
    assert!(contract.get_ledger(String::from("TRACK001"), String::from("LOT001")).is_some());
    assert!(contract.get_ledger(String::from("TRACK001"), String::from("LOT002")).is_none());
    assert!(contract.get_ledger(String::from("LOT001"), String::from("TRACK001")).is_none());
}

#[test]
fn key_input_has_no_separator_between_ids() {
    let mut contract = GoldchainSc::new();
    contract.initialize(alice()).unwrap();
    contract.add_ledger(alice(), 1, String::from("TRACK001"), String::from("LOT001")).unwrap();
    assert_eq!(make_key("TRACK00", "1LOT001"), make_key("TRACK001", "LOT001"));
    let got = contract.get_ledger(String::from("TRACK00"), String::from("1LOT001")).unwrap();
    assert_eq!(got.tracking_id, "TRACK001");
    assert_eq!(
        contract.add_ledger(alice(), 2, String::from("TRACK00"), String::from("1LOT001")),
        Err(Error::LedgerAlreadyExists)
    );
}

#[test]
fn listing_follows_insertion_order() {
    let mut contract = GoldchainSc::new();
    contract.initialize(alice()).unwrap();
    let pairs = [("T3", "L3", 30u64), ("T1", "L1", 10u64), ("T2", "L2", 20u64)];
    for (t, l, now) in pairs {
        contract.add_ledger(alice(), now, String::from(t), String::from(l)).unwrap();
    }
    let all = contract.get_all_ledgers();
    assert_eq!(all.len(), 3);
    for (i, (t, l, now)) in pairs.iter().enumerate() {
        assert_eq!(all[i].tracking_id, *t);
        assert_eq!(all[i].lot_id, *l);
        assert_eq!(all[i].recorded_at, *now);
    }
}

#[test]
fn admin_scenario() {
    let mut contract = GoldchainSc::new();
    assert_eq!(contract.initialize(alice()), Ok(()));
    assert_eq!(
        contract.add_ledger(alice(), 1000, String::from("TRACK001"), String::from("LOT001")),
        Ok(())
    );
    let got = contract.get_ledger(String::from("TRACK001"), String::from("LOT001")).unwrap();
    assert_eq!(
        got,
        Ledger { tracking_id: String::from("TRACK001"), lot_id: String::from("LOT001"), recorded_at: 1000 }
    );
    assert_eq!(
        contract.add_ledger(alice(), 1001, String::from("TRACK001"), String::from("LOT001")),
        Err(Error::LedgerAlreadyExists)
    );
    assert_eq!(
        contract.add_ledger(bob(), 1002, String::from("TRACK002"), String::from("LOT002")),
        Err(Error::UnauthorizedAuthority)
    );
    assert_eq!(
        contract.add_ledger(alice(), 1003, "a".repeat(257), String::from("LOT003")),
        Err(Error::StringTooLong)
    );
    assert_eq!(contract.get_all_ledgers().len(), 1);
}

#[test]
fn key_is_blake2b_256_of_tagged_input() {
    let expected: [u8; 32] = [
        102, 15, 117, 66, 165, 33, 103, 169, 40, 181, 188, 225, 7, 63, 118, 100, 58, 46, 37, 150,
        180, 207, 118, 172, 207, 114, 212, 73, 78, 87, 66, 94,
    ];
    assert_eq!(make_key("TRACK001", "LOT001"), expected);
    assert_eq!(make_key("TRACK001", "LOT001"), make_key("TRACK001", "LOT001"));
    assert_ne!(make_key("TRACK001", "LOT001"), make_key("TRACK001", "LOT002"));
}

#[test]
fn same_key_compares_every_byte() {
    let a = [7u8; 32];
    let mut b = [7u8; 32];
    assert!(same_key(&a, &b));
    b[31] = 8;
    assert!(!same_key(&a, &b));
}

#[test]
fn store_refuses_a_key_twice() {
    let mut store = LedgerStore::new();
    let key = make_key("T", "L");
    let first = Ledger { tracking_id: String::from("T"), lot_id: String::from("L"), recorded_at: 1 };
    let second = Ledger { tracking_id: String::from("T"), lot_id: String::from("L"), recorded_at: 2 };
    assert_eq!(store.insert(key, first.clone()), Ok(()));
    assert!(store.contains(&key));
    assert_eq!(store.insert(key, second), Err(Error::LedgerAlreadyExists));
    assert_eq!(store.get(&key), Some(first.clone()));
    assert_eq!(store.get_all(), vec![first]);
    assert_eq!(store.get(&make_key("T", "M")), None);
}

#[test]
fn interleaved_run_keeps_first_admin_and_successful_records() {
    let mut contract = GoldchainSc::new();
    let s = String::from;
    assert_eq!(contract.add_ledger(alice(), 1, s("T0"), s("L0")), Err(Error::NotInitialized));
    assert_eq!(contract.initialize(bob()), Ok(()));
    assert_eq!(contract.add_ledger(alice(), 2, s("T1"), s("L1")), Err(Error::UnauthorizedAuthority));
    assert_eq!(contract.add_ledger(bob(), 3, s("T1"), s("L1")), Ok(()));
    assert_eq!(contract.initialize(alice()), Err(Error::AlreadyInitialized));
    assert_eq!(contract.add_ledger(bob(), 4, s("T1"), s("L1")), Err(Error::LedgerAlreadyExists));
    assert_eq!(contract.add_ledger(bob(), 5, "x".repeat(257), s("L2")), Err(Error::StringTooLong));
    assert_eq!(contract.add_ledger(bob(), 6, s("T2"), s("L2")), Ok(()));
    assert_eq!(contract.initialize(bob()), Err(Error::AlreadyInitialized));
    assert_eq!(contract.get_config().unwrap().admin, bob());
    let all = contract.get_all_ledgers();
    assert_eq!(
        all,
        vec![
            Ledger { tracking_id: s("T1"), lot_id: s("L1"), recorded_at: 3 },
            Ledger { tracking_id: s("T2"), lot_id: s("L2"), recorded_at: 6 },
        ]
    );
}
