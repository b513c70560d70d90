use hoyolink::model::StoreError;
use hoyolink::store::{CredentialFields, CredentialStore};

fn cred(tag: &str) -> CredentialFields {
    CredentialFields {
        ltuid: format!("{}-ltuid", tag),
        ltoken: format!("{}-ltoken", tag),
        cookie_token: format!("{}-cookie-token", tag),
        account_id: format!("{}-account-id", tag),
        lang: "en-us".to_string(),
    }
}

#[test]
fn new_store_is_empty() {
    let store = CredentialStore::new();
    let a = "100".to_string();
    assert_eq!(store.count_mappings(&a), 0);
    assert!(store.list_accounts(&a).is_empty());
    assert!(!store.contains_code(&"ABC123".to_string()));
}

#[test]
fn link_creates_mapping_and_account() {
    let mut store = CredentialStore::new();
    let a = "100".to_string();
    let uid = "700000001".to_string();
    assert_eq!(store.link_account(&a, &uid, &cred("x")), Ok(()));
    assert!(store.contains_mapping(&a, &uid));
    assert_eq!(store.count_mappings(&a), 1);
    assert_eq!(store.list_accounts(&a), vec!["700000001".to_string()]);
    // The account row exists: its configuration can be toggled.
    assert_eq!(store.set_auto_claim(&uid, true), Ok(()));
}

#[test]
fn link_twice_reports_duplicate_and_changes_nothing() {
    let mut store = CredentialStore::new();
    let a = "100".to_string();
    let uid = "700000001".to_string();
    assert_eq!(store.link_account(&a, &uid, &cred("x")), Ok(()));
    assert_eq!(
        store.link_account(&a, &uid, &cred("x")),
        Err(StoreError::DuplicateMapping)
    );
    assert_eq!(store.count_mappings(&a), 1);
    assert_eq!(store.list_accounts(&a), vec!["700000001".to_string()]);
}

#[test]
fn unlink_without_mapping_reports_not_linked() {
    let mut store = CredentialStore::new();
    let a = "100".to_string();
    let uid = "700000001".to_string();
    assert_eq!(store.unlink_account(&a, &uid), Err(StoreError::NotLinked));
    assert_eq!(store.count_mappings(&a), 0);

    // Also when the account exists but belongs to someone else.
    let b = "200".to_string();
    assert_eq!(store.link_account(&b, &uid, &cred("x")), Ok(()));
    assert_eq!(store.unlink_account(&a, &uid), Err(StoreError::NotLinked));
    assert_eq!(store.count_mappings(&b), 1);
    assert_eq!(store.list_accounts(&b), vec!["700000001".to_string()]);
}

#[test]
fn shared_credential_survives_first_unlink_and_dies_with_last() {
    let mut store = CredentialStore::new();
    let a = "100".to_string();
    let b = "200".to_string();
    let uid = "700000002".to_string();
    assert_eq!(store.link_account(&a, &uid, &cred("x")), Ok(()));
    assert_eq!(store.link_account(&b, &uid, &cred("x")), Ok(()));

    assert_eq!(store.unlink_account(&a, &uid), Ok(()));
    // Reference count is one: the account (and credential) still exist.
    assert!(!store.contains_mapping(&a, &uid));
    assert!(store.contains_mapping(&b, &uid));
    assert_eq!(store.set_auto_claim(&uid, false), Ok(()));
    let targets = store.linked_credentials(&b);
    assert_eq!(targets.len(), 1);
    assert_eq!(targets[0].uid, "700000002");
    assert_eq!(targets[0].credential.ltuid, "x-ltuid");

    assert_eq!(store.unlink_account(&b, &uid), Ok(()));
    // Both rows are gone: the flag of a missing account cannot be set.
    assert_eq!(store.set_auto_claim(&uid, true), Err(StoreError::NotLinked));
    assert!(!store.contains_mapping(&b, &uid));
}

#[test]
fn refcount_invariant_over_interleaved_calls() {
    let mut store = CredentialStore::new();
    let a = "100".to_string();
    let b = "200".to_string();
    let u1 = "700000001".to_string();
    let u2 = "700000002".to_string();

    // At every quiescent point: the account exists (set_auto_claim
    // answers Ok) exactly while some mapping references the UID.
    assert_eq!(store.set_auto_claim(&u1, true), Err(StoreError::NotLinked));
    store.link_account(&a, &u1, &cred("x")).unwrap();
    assert_eq!(store.set_auto_claim(&u1, true), Ok(()));
    store.link_account(&b, &u1, &cred("y")).unwrap();
    store.link_account(&b, &u2, &cred("z")).unwrap();
    assert_eq!(store.set_auto_claim(&u2, true), Ok(()));
    store.unlink_account(&b, &u1).unwrap();
    assert_eq!(store.set_auto_claim(&u1, true), Ok(()));
    store.unlink_account(&a, &u1).unwrap();
    assert_eq!(store.set_auto_claim(&u1, true), Err(StoreError::NotLinked));
    assert_eq!(store.set_auto_claim(&u2, true), Ok(()));
    store.unlink_account(&b, &u2).unwrap();
    assert_eq!(store.set_auto_claim(&u2, true), Err(StoreError::NotLinked));
    assert_eq!(store.count_mappings(&a), 0);
    assert_eq!(store.count_mappings(&b), 0);
}

#[test]
fn first_link_keeps_first_credential() {
    let mut store = CredentialStore::new();
    let a = "100".to_string();
    let b = "200".to_string();
    let uid = "700000002".to_string();
    store.link_account(&a, &uid, &cred("first")).unwrap();
    // The credential is created once; a second link of the same UID
    // never replaces it.
    store.link_account(&b, &uid, &cred("second")).unwrap();
    let targets = store.linked_credentials(&b);
    assert_eq!(targets.len(), 1);
    assert_eq!(targets[0].credential.ltuid, "first-ltuid");
}

#[test]
fn submit_code_twice_keeps_one_row() {
    let mut store = CredentialStore::new();
    let code = "ABC123".to_string();
    assert_eq!(store.submit_code(&code), Ok(()));
    assert_eq!(store.submit_code(&code), Err(StoreError::DuplicateCode));
    assert!(store.contains_code(&code));
    assert_eq!(store.code_rows(&code), 1);
}

#[test]
fn codes_are_never_destroyed() {
    let mut store = CredentialStore::new();
    let one = "ONE".to_string();
    let two = "TWO".to_string();
    store.submit_code(&one).unwrap();
    store.submit_code(&two).unwrap();
    assert!(store.contains_code(&one));
    assert!(store.contains_code(&two));
    assert_eq!(store.code_rows(&one), 1);
    assert_eq!(store.code_rows(&two), 1);
}

#[test]
fn opted_accounts_carry_credential_and_identities() {
    let mut store = CredentialStore::new();
    let a = "100".to_string();
    let b = "200".to_string();
    let u1 = "700000001".to_string();
    let u2 = "700000002".to_string();
    store.link_account(&a, &u1, &cred("x")).unwrap();
    store.link_account(&a, &u2, &cred("y")).unwrap();
    store.link_account(&b, &u2, &cred("z")).unwrap();
    store.set_auto_claim(&u2, true).unwrap();

    let opted = store.accounts_opted_for_auto_claim();
    assert_eq!(opted.len(), 1);
    assert_eq!(opted[0].uid, "700000002");
    assert_eq!(opted[0].credential.ltuid, "y-ltuid");
    assert_eq!(
        opted[0].identities,
        vec!["100".to_string(), "200".to_string()]
    );
}

#[test]
fn linked_credentials_follow_mapping_order() {
    let mut store = CredentialStore::new();
    let a = "100".to_string();
    let u1 = "700000001".to_string();
    let u2 = "700000002".to_string();
    store.link_account(&a, &u1, &cred("x")).unwrap();
    store.link_account(&a, &u2, &cred("y")).unwrap();
    let targets = store.linked_credentials(&a);
    assert_eq!(targets.len(), 2);
    assert_eq!(targets[0].uid, "700000001");
    assert_eq!(targets[1].uid, "700000002");
    assert_eq!(targets[1].credential.cookie_token, "y-cookie-token");
}
