use hoyolink::cookie::CookieError;
use hoyolink::messages::{
    already_linked_message, auto_claim_failure_message, auto_claim_success_message,
    code_exists_message, code_failure_message, code_submitted_message, code_success_message,
    cookie_error_message, credential_display, daily_failure_message, daily_success_message,
    link_rejected_message, linked_message, no_accounts_message, store_error_message,
    submit_gate_message, unlinked_message,
};
use hoyolink::model::StoreError;
use hoyolink::store::CredentialFields;

#[test]
fn claim_messages_are_exact() {
    let code = "ABC123".to_string();
    let uid = "700000001".to_string();
    let reason = "no such code".to_string();
    assert_eq!(
        code_success_message(&code, &uid),
        "Successfully claimed code `ABC123` on 700000001"
    );
    assert_eq!(
        code_failure_message(&code, &uid, &reason),
        "Error claiming code `ABC123` on 700000001: `no such code`"
    );
    assert_eq!(
        auto_claim_success_message(&code, &uid),
        "Successfully auto-claimed code `ABC123` on 700000001"
    );
    assert_eq!(
        auto_claim_failure_message(&code, &uid, &reason),
        "Error auto-claiming code `ABC123` on 700000001: `no such code`"
    );
    assert_eq!(
        daily_success_message(&uid),
        "Successfully claimed daily on 700000001"
    );
    assert_eq!(
        daily_failure_message(&uid, &reason),
        "Error claiming daily on 700000001: `no such code`"
    );
}

#[test]
fn workflow_messages_are_exact() {
    assert_eq!(no_accounts_message(), "You have no linked accounts");
    assert_eq!(
        submit_gate_message(),
        "You may only submit redemption codes if you have at least one linked account."
    );
    assert_eq!(
        code_exists_message(&"ABC123".to_string()),
        "Code ABC123 already exists in the system."
    );
    assert_eq!(
        code_submitted_message(&"ABC123".to_string()),
        "Submitted code ABC123!"
    );
    assert_eq!(linked_message(), "Successfully linked account!");
    assert_eq!(already_linked_message(), "This account is already linked.");
    assert_eq!(unlinked_message(), "Successfully unlinked account!");
    assert_eq!(
        link_rejected_message(&"bad token".to_string()),
        "Could not link account:\nbad token"
    );
}

#[test]
fn error_messages_are_exact() {
    assert_eq!(
        cookie_error_message(&CookieError::NotAscii),
        "the credential text must be plain ASCII"
    );
    assert_eq!(
        cookie_error_message(&CookieError::MissingLtuid),
        "the credential text holds no ltuid token"
    );
    assert_eq!(
        cookie_error_message(&CookieError::MissingLtoken),
        "the credential text holds no ltoken token"
    );
    assert_eq!(
        cookie_error_message(&CookieError::MissingCookieToken),
        "the credential text holds no cookie_token token"
    );
    assert_eq!(
        cookie_error_message(&CookieError::MissingAccountId),
        "the credential text holds no account_id token"
    );
    assert_eq!(
        store_error_message(&StoreError::DuplicateMapping),
        "This account is already linked."
    );
    assert_eq!(
        store_error_message(&StoreError::NotLinked),
        "No such linked account."
    );
    assert_eq!(
        store_error_message(&StoreError::DuplicateCode),
        "This code was already submitted."
    );
    assert_eq!(
        store_error_message(&StoreError::Conflict),
        "Could not update the account store."
    );
}

#[test]
fn credential_display_shows_every_field() {
    let c = CredentialFields {
        ltuid: "42".to_string(),
        ltoken: "tok".to_string(),
        cookie_token: "ct".to_string(),
        account_id: "42".to_string(),
        lang: "en-us".to_string(),
    };
    assert_eq!(
        credential_display(&c),
        "ltuid = 42\nltoken = tok\ncookie_token = ct\naccount_id = 42\nlang = en-us"
    );
}
