use hoyolink::broadcast::{
    begin_code_broadcast, broadcast_notifications, RemoteOutcome, SubmitRefusal,
};
use hoyolink::claim_flow::{claim_plan, code_claim_report, daily_claim_report};
use hoyolink::store::{CredentialFields, CredentialStore};

fn cred(tag: &str) -> CredentialFields {
    CredentialFields {
        ltuid: format!("{}-ltuid", tag),
        ltoken: format!("{}-ltoken", tag),
        cookie_token: format!("{}-ct", tag),
        account_id: format!("{}-aid", tag),
        lang: "en-us".to_string(),
    }
}

#[test]
fn submission_requires_a_linked_account() {
    let mut store = CredentialStore::new();
    let a = "100".to_string();
    assert!(matches!(
        begin_code_broadcast(&mut store, &a, &"ABC123".to_string()),
        Err(SubmitRefusal::NoLinkedAccounts)
    ));
    assert!(!store.contains_code(&"ABC123".to_string()));
}

#[test]
fn duplicate_code_is_refused() {
    let mut store = CredentialStore::new();
    let a = "100".to_string();
    let uid = "700000001".to_string();
    store.link_account(&a, &uid, &cred("x")).unwrap();
    let code = "ABC123".to_string();
    assert!(begin_code_broadcast(&mut store, &a, &code).is_ok());
    assert!(matches!(
        begin_code_broadcast(&mut store, &a, &code),
        Err(SubmitRefusal::DuplicateCode)
    ));
    assert_eq!(store.code_rows(&code), 1);
}

#[test]
fn shared_account_gets_one_task_and_two_identical_notifications() {
    let mut store = CredentialStore::new();
    let a = "100".to_string();
    let b = "200".to_string();
    let uid = "700000002".to_string();
    store.link_account(&a, &uid, &cred("x")).unwrap();
    store.link_account(&b, &uid, &cred("x")).unwrap();
    store.set_auto_claim(&uid, true).unwrap();

    let code = "ABC123".to_string();
    let tasks = begin_code_broadcast(&mut store, &a, &code).unwrap();
    // One redeem call for the shared UID.
    assert_eq!(tasks.len(), 1);
    assert_eq!(tasks[0].uid, "700000002");
    assert_eq!(tasks[0].identities, vec!["100".to_string(), "200".to_string()]);

    let outcomes = vec![RemoteOutcome::Claimed];
    let notes = broadcast_notifications(&code, &tasks, &outcomes);
    // Exactly two notifications, one per identity, identical text.
    assert_eq!(notes.len(), 2);
    assert_eq!(notes[0].identity, "100");
    assert_eq!(notes[1].identity, "200");
    assert_eq!(notes[0].text, notes[1].text);
    assert_eq!(
        notes[0].text,
        "Successfully auto-claimed code `ABC123` on 700000002"
    );
}

#[test]
fn one_failure_does_not_suppress_the_next_account() {
    let mut store = CredentialStore::new();
    let a = "100".to_string();
    let b = "200".to_string();
    let u1 = "700000003".to_string();
    let u2 = "700000004".to_string();
    store.link_account(&a, &u1, &cred("x")).unwrap();
    store.link_account(&b, &u2, &cred("y")).unwrap();
    store.set_auto_claim(&u1, true).unwrap();
    store.set_auto_claim(&u2, true).unwrap();

    let code = "XYZ789".to_string();
    let tasks = begin_code_broadcast(&mut store, &a, &code).unwrap();
    assert_eq!(tasks.len(), 2);
    assert_eq!(tasks[0].uid, "700000003");
    assert_eq!(tasks[1].uid, "700000004");

    let outcomes = vec![
        RemoteOutcome::Failed {
            reason: "expired credential".to_string(),
        },
        RemoteOutcome::Claimed,
    ];
    let notes = broadcast_notifications(&code, &tasks, &outcomes);
    // Both accounts' notifications are delivered.
    assert_eq!(notes.len(), 2);
    assert_eq!(notes[0].identity, "100");
    assert_eq!(
        notes[0].text,
        "Error auto-claiming code `XYZ789` on 700000003: `expired credential`"
    );
    assert_eq!(notes[1].identity, "200");
    assert_eq!(
        notes[1].text,
        "Successfully auto-claimed code `XYZ789` on 700000004"
    );
}

#[test]
fn claim_plan_gates_on_linked_accounts() {
    let mut store = CredentialStore::new();
    let a = "100".to_string();
    assert!(claim_plan(&store, &a).is_none());
    store
        .link_account(&a, &"700000001".to_string(), &cred("x"))
        .unwrap();
    let targets = claim_plan(&store, &a).unwrap();
    assert_eq!(targets.len(), 1);
    assert_eq!(targets[0].uid, "700000001");
    assert_eq!(targets[0].credential.ltoken, "x-ltoken");
}

#[test]
fn claim_reports_cover_every_target() {
    let mut store = CredentialStore::new();
    let a = "100".to_string();
    store
        .link_account(&a, &"700000001".to_string(), &cred("x"))
        .unwrap();
    store
        .link_account(&a, &"700000002".to_string(), &cred("y"))
        .unwrap();
    let targets = claim_plan(&store, &a).unwrap();
    let outcomes = vec![
        RemoteOutcome::Claimed,
        RemoteOutcome::Failed {
            reason: "already claimed".to_string(),
        },
    ];
    let code = "ABC123".to_string();
    let lines = code_claim_report(&code, &targets, &outcomes);
    assert_eq!(
        lines,
        vec![
            "Successfully claimed code `ABC123` on 700000001".to_string(),
            "Error claiming code `ABC123` on 700000002: `already claimed`".to_string(),
        ]
    );
    let daily = daily_claim_report(&targets, &outcomes);
    assert_eq!(
        daily,
        vec![
            "Successfully claimed daily on 700000001".to_string(),
            "Error claiming daily on 700000002: `already claimed`".to_string(),
        ]
    );
}
