use proof_of_timestamp::{gen_account, Contract, RegistryError};

const SIGNER: &str = "bob_near";

#[test]
fn reg_account() {
    let mut contract = Contract::default();
    assert_eq!(contract.reg_account(SIGNER, 0), Ok(()));
}

#[test]
fn deactivate_account() {
    let mut contract = Contract::default();
    assert_eq!(contract.deactivate_account(SIGNER), Err(RegistryError::NotFound));
}

#[test]
fn record() {
    let mut contract = Contract::default();
    contract.reg_account(SIGNER, 0).unwrap();
    let file_hash = "sample file hash".to_string();
    assert_eq!(contract.record(SIGNER, file_hash, 0), Ok(()));
}

#[test]
fn get_record() {
    let block_timestamp: u64 = 1_600_000_000;
    let mut contract = Contract::default();
    contract.reg_account(SIGNER, block_timestamp).unwrap();
    let file_hash = "sample file hash".to_string();
    contract.record(SIGNER, file_hash.clone(), block_timestamp).unwrap();
    assert_eq!(contract.get_record(file_hash), block_timestamp);
}

#[test]
fn get_lists() {
    let mut contract = Contract::default();
    let file_hash = "sample file hash".to_string();
    contract.reg_account("howdy", 0).unwrap();
    contract.record("howdy", file_hash.clone(), 0).unwrap();
    assert_eq!(vec![file_hash], contract.get_lists("howdy").unwrap());
}

#[test]
fn account_key_has_prefix() {
    assert_eq!(gen_account("bob"), "books:bob");
    assert_eq!(gen_account(""), "books:");
}

#[test]
fn register_twice_fails() {
    let mut contract = Contract::new();
    assert_eq!(contract.reg_account("alice", 5), Ok(()));
    assert_eq!(contract.reg_account("alice", 6), Err(RegistryError::AlreadyExists));
    assert_eq!(contract.reg_account("carol", 7), Ok(()));
}

#[test]
fn deactivate_twice_succeeds() {
    let mut contract = Contract::new();
    contract.reg_account("alice", 5).unwrap();
    assert_eq!(contract.deactivate_account("alice"), Ok(()));
    assert_eq!(contract.deactivate_account("alice"), Ok(()));
}

#[test]
fn deactivated_account_cannot_register_again() {
    let mut contract = Contract::new();
    contract.reg_account("alice", 5).unwrap();
    contract.deactivate_account("alice").unwrap();
    assert_eq!(contract.reg_account("alice", 9), Err(RegistryError::AlreadyExists));
}

#[test]
fn record_without_registration_fails() {
    let mut contract = Contract::new();
    assert_eq!(
        contract.record("ghost", "h".to_string(), 1),
        Err(RegistryError::InvalidAccountState)
    );
    assert_eq!(contract.get_record("h".to_string()), 0);
}

#[test]
fn record_after_deactivation_fails() {
    let mut contract = Contract::new();
    contract.reg_account("alice", 1).unwrap();
    contract.deactivate_account("alice").unwrap();
    assert_eq!(
        contract.record("alice", "h".to_string(), 2),
        Err(RegistryError::InvalidAccountState)
    );
    assert_eq!(contract.get_record("h".to_string()), 0);
}

#[test]
fn duplicate_record_is_refused() {
    let mut contract = Contract::new();
    contract.reg_account("alice", 1).unwrap();
    assert_eq!(contract.record("alice", "h".to_string(), 2), Ok(()));
    assert_eq!(
        contract.record("alice", "h".to_string(), 3),
        Err(RegistryError::DuplicateRecord)
    );
    assert_eq!(contract.get_lists("alice").unwrap().len(), 1);
    assert_eq!(contract.get_record("h".to_string()), 2);
}

#[test]
fn timestamp_zero_until_recorded() {
    let mut contract = Contract::new();
    assert_eq!(contract.get_record("h".to_string()), 0);
    contract.reg_account("alice", 1).unwrap();
    contract.record("alice", "other".to_string(), 4).unwrap();
    assert_eq!(contract.get_record("h".to_string()), 0);
    contract.record("alice", "h".to_string(), 8).unwrap();
    assert_eq!(contract.get_record("h".to_string()), 8);
}

#[test]
fn same_hash_from_another_account_overwrites_time() {
    let mut contract = Contract::new();
    contract.reg_account("alice", 1).unwrap();
    contract.reg_account("carol", 1).unwrap();
    contract.record("alice", "h".to_string(), 100).unwrap();
    contract.record("carol", "h".to_string(), 200).unwrap();
    assert_eq!(contract.get_record("h".to_string()), 200);
    assert_eq!(contract.get_lists("alice").unwrap(), vec!["h".to_string()]);
    assert_eq!(contract.get_lists("carol").unwrap(), vec!["h".to_string()]);
}

#[test]
fn lists_keep_insertion_order() {
    let mut contract = Contract::new();
    contract.reg_account("alice", 1).unwrap();
    contract.record("alice", "h1".to_string(), 2).unwrap();
    contract.record("alice", "h2".to_string(), 3).unwrap();
    assert_eq!(
        contract.get_lists("alice").unwrap(),
        vec!["h1".to_string(), "h2".to_string()]
    );
}

#[test]
fn lists_empty_for_new_account() {
    let mut contract = Contract::new();
    contract.reg_account("alice", 1).unwrap();
    assert_eq!(contract.get_lists("alice").unwrap(), Vec::<String>::new());
}

#[test]
fn lists_refused_for_unknown_account() {
    let contract = Contract::new();
    assert_eq!(contract.get_lists("nobody"), Err(RegistryError::InvalidAccountState));
}

#[test]
fn identities_are_separate() {
    let mut contract = Contract::new();
    contract.reg_account("alice", 1).unwrap();
    assert_eq!(
        contract.record("carol", "h".to_string(), 2),
        Err(RegistryError::InvalidAccountState)
    );
    assert_eq!(contract.deactivate_account("carol"), Err(RegistryError::NotFound));
}

#[test]
fn end_to_end_bob() {
    let mut contract = Contract::new();
    assert_eq!(contract.reg_account("bob", 50), Ok(()));
    assert_eq!(contract.record("bob", "f1".to_string(), 100), Ok(()));
    assert_eq!(contract.record("bob", "f2".to_string(), 200), Ok(()));
    assert_eq!(
        contract.get_lists("bob").unwrap(),
        vec!["f1".to_string(), "f2".to_string()]
    );
    assert_eq!(contract.get_record("f1".to_string()), 100);
    assert_eq!(contract.get_record("f2".to_string()), 200);
    assert_eq!(contract.deactivate_account("bob"), Ok(()));
    assert_eq!(contract.get_lists("bob"), Err(RegistryError::InvalidAccountState));
    assert_eq!(contract.get_record("f1".to_string()), 100);
}
