use casp_backend::account_restrictions::{validate_client, AccountRestrictionError, AccountRestrictionReader, AccountRestrictionRegister};
use casp_backend::blacklist::{normalize, AddressBlacklist, AddressBlacklistRegister, BlacklistError};
use casp_backend::chain::checksummed;
use casp_backend::external_withdrawals::{check_withdrawal, client_display_name, ExternalWithdrawalError};
use casp_backend::ledger::RetailLedger;

fn ledger() -> RetailLedger {
    RetailLedger::new(
        "0x1111111111111111111111111111111111111111".to_string(),
        "0x2222222222222222222222222222222222222222".to_string(),
        "0x3333333333333333333333333333333333333333".to_string(),
    )
}

#[test]
fn matching_is_case_insensitive_and_removal_restores_access() {
    let mut list = AddressBlacklistRegister::new();
    list.add("0xAbC", "test", 1).unwrap();
    assert!(list.is_blocked("0xaBc").unwrap());
    assert!(list.remove("0xABC").unwrap());
    assert!(!list.is_blocked("0xabc").unwrap());
}

#[test]
fn blacklist_checks_addresses_and_reasons() {
    let mut list = AddressBlacklistRegister::new();
    assert!(matches!(list.add("   ", "r", 1), Err(BlacklistError::Invalid(_))));
    assert!(matches!(list.add("0xabc", " ", 1), Err(BlacklistError::Invalid(_))));
    assert!(matches!(list.add(&"a".repeat(257), "r", 1), Err(BlacklistError::Invalid(_))));
    assert!(matches!(list.add("0xabc", &"r".repeat(501), 1), Err(BlacklistError::Invalid(_))));
    let entry = list.add("  0xDEF  ", "  sanctions  ", 7).unwrap();
    assert_eq!(entry.address, "0xDEF");
    assert_eq!(entry.reason, "sanctions");
    assert_eq!(normalize(" 0xDEF ").unwrap(), "0xdef");
    assert!(!list.remove("0x123").unwrap());
    assert!(matches!(list.is_blocked(""), Err(BlacklistError::Invalid(_))));
}

#[test]
fn blacklist_lists_newest_first_and_keeps_first_date() {
    let mut list = AddressBlacklistRegister::new();
    list.add("0xaaa", "first", 10).unwrap();
    list.add("0xbbb", "second", 20).unwrap();
    list.add("0xAAA", "again", 30).unwrap();
    let entries = list.list();
    assert_eq!(entries.len(), 2);
    assert_eq!(entries[0].address, "0xbbb");
    assert_eq!(entries[1].address, "0xAAA");
    assert_eq!(entries[1].reason, "again");
    assert_eq!(entries[1].created_at_unix_ms, 10);
    assert_eq!(
        BlacklistError::Invalid("x".into()).message(),
        "invalid blacklist entry: x"
    );
}

#[test]
fn block_is_persistent_and_unblock_restores_access() {
    let ledger = ledger();
    let mut store = AccountRestrictionRegister::new();
    store.block(&ledger, "alice", "polecenie organu", 1).unwrap();
    assert!(store.is_restricted("alice").unwrap());
    assert_eq!(store.list()[0].reason, "polecenie organu");
    assert!(store.unblock("alice", 2).unwrap());
    assert!(!store.is_restricted("alice").unwrap());
}

#[test]
fn restrictions_check_clients_and_reasons() {
    let ledger = ledger();
    let mut store = AccountRestrictionRegister::new();
    assert!(matches!(store.block(&ledger, " ", "r", 1), Err(AccountRestrictionError::Invalid(_))));
    assert!(matches!(store.block(&ledger, "alice", "", 1), Err(AccountRestrictionError::Invalid(_))));
    assert!(matches!(store.block(&ledger, "dave", "r", 1), Err(AccountRestrictionError::Invalid(_))));
    assert!(validate_client(&"c".repeat(129)).is_err());
    assert!(!store.unblock("alice", 2).unwrap());
    store.block(&ledger, "bob", "first", 3).unwrap();
    store.block(&ledger, "carol", "second", 4).unwrap();
    store.block(&ledger, "bob", " renewed ", 5).unwrap();
    let active = store.list();
    assert_eq!(active.len(), 2);
    assert_eq!(active[0].client_id, "bob");
    assert_eq!(active[0].reason, "renewed");
    assert!(store.unblock("carol", 6).unwrap());
    assert_eq!(store.list().len(), 1);
    assert!(!store.restricted_now("carol"));
}

#[test]
fn display_names_of_demo_clients() {
    assert_eq!(client_display_name("alice"), "Alicja");
    assert_eq!(client_display_name("bob"), "Bartosz");
    assert_eq!(client_display_name("carol"), "Karolina");
    assert_eq!(client_display_name("eve"), "eve");
}

#[test]
fn checksummed_addresses_follow_eip55() {
    assert_eq!(
        checksummed("0xd8da6bf26964af9d7eed9e03e53415d37aa96045").as_deref(),
        Some("0xd8dA6BF26964aF9D7eEd9e03E53415D37aA96045")
    );
    assert_eq!(
        checksummed("D8DA6BF26964AF9D7EED9E03E53415D37AA96045").as_deref(),
        Some("0xd8dA6BF26964aF9D7eEd9e03E53415D37aA96045")
    );
    assert_eq!(checksummed("0x1234"), None);
    assert_eq!(checksummed("0xzz8da6bf26964af9d7eed9e03e53415d37aa9604"), None);
}

#[test]
fn withdrawal_checks_run_in_order() {
    let ledger = ledger();
    let mut restrictions = AccountRestrictionRegister::new();
    let mut blacklist = AddressBlacklistRegister::new();
    let destination = "0xd8da6bf26964af9d7eed9e03e53415d37aa96045";

    let ok = check_withdrawal(&restrictions, &blacklist, &ledger, "alice", "w1", destination, 1_000_000).unwrap();
    assert_eq!(ok.destination, "0xd8dA6BF26964aF9D7eEd9e03E53415D37aA96045");
    assert_eq!(ok.source, "0x1111111111111111111111111111111111111111");
    assert_eq!(ok.fee_raw, 10_000);

    assert!(matches!(
        check_withdrawal(&restrictions, &blacklist, &ledger, "dave", "w1", destination, 1_000_000),
        Err(ExternalWithdrawalError::Invalid(m)) if m == "unknown demo client"
    ));
    assert!(matches!(
        check_withdrawal(&restrictions, &blacklist, &ledger, "alice", " ", destination, 1_000_000),
        Err(ExternalWithdrawalError::Invalid(m)) if m == "operationId must contain 1-128 characters"
    ));
    assert!(matches!(
        check_withdrawal(&restrictions, &blacklist, &ledger, "alice", "w1", destination, 1_000_001),
        Err(ExternalWithdrawalError::Invalid(m)) if m == "tokenAmountRaw must represent positive whole USD cents"
    ));
    assert!(matches!(
        check_withdrawal(&restrictions, &blacklist, &ledger, "alice", "w1", "nowhere", 1_000_000),
        Err(ExternalWithdrawalError::Invalid(m)) if m == "destinationAddress must be a valid Ethereum address"
    ));

    blacklist.add("0xD8DA6BF26964AF9D7EED9E03E53415D37AA96045", "stolen funds", 1).unwrap();
    match check_withdrawal(&restrictions, &blacklist, &ledger, "alice", "w1", destination, 1_000_000) {
        Err(ExternalWithdrawalError::BlacklistedAddress(a)) => {
            assert_eq!(a, "0xd8dA6BF26964aF9D7eEd9e03E53415D37aA96045")
        },
        other => panic!("unexpected {other:?}"),
    }
    blacklist.add("0x1111111111111111111111111111111111111111", "client wallet", 2).unwrap();
    match check_withdrawal(&restrictions, &blacklist, &ledger, "alice", "w1", destination, 1_000_000) {
        Err(ExternalWithdrawalError::BlacklistedAddress(a)) => assert_eq!(a, "0x1111111111111111111111111111111111111111"),
        other => panic!("unexpected {other:?}"),
    }

    restrictions.block(&ledger, "alice", "court order", 3).unwrap();
    match check_withdrawal(&restrictions, &blacklist, &ledger, "alice", "w1", destination, 1_000_000) {
        Err(ExternalWithdrawalError::AccountRestricted(name)) => assert_eq!(name, "Alicja"),
        other => panic!("unexpected {other:?}"),
    }
    assert_eq!(
        ExternalWithdrawalError::AccountRestricted("Alicja".into()).message(),
        "konto klienta jest zablokowane: Alicja"
    );
}

#[test]
fn ascii_lowercase_leaves_other_characters_alone() {
    for text in ["", "0xD8DA6BF26964AF9D7EED9E03E53415D37AA96045", "ÄbC-Ωx Z@[`{", "  MiXeD  "] {
        assert_eq!(casp_backend::text::to_ascii_lowercase(text), text.to_ascii_lowercase());
    }
}
