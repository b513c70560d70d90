use hoyolink::command::{
    accounts_choice, command_description, command_name, dispatch, AccountsChoice, Command,
};
use hoyolink::cookie::CookieError;
use hoyolink::link_flow::{run_link_session, LinkEvent, LinkOutcome};
use hoyolink::session::{DialogSession, SessionState, STEP_TIMEOUT_SECS};
use hoyolink::store::CredentialStore;
use hoyolink::unlink_flow::{run_unlink_session, UnlinkEvent, UnlinkOutcome};

const GOOD_COOKIE: &str = "ltuid=42; ltoken=tok; cookie_token=ct; account_id=42";

fn form(uid: &str, cookie: &str) -> LinkEvent {
    LinkEvent::Form {
        uid: uid.to_string(),
        cookie: cookie.to_string(),
    }
}

#[test]
fn completed_link_session_lists_the_account() {
    let mut store = CredentialStore::new();
    let a = "100".to_string();
    let events = vec![
        LinkEvent::Proceed,
        LinkEvent::Proceed,
        form("700000001", GOOD_COOKIE),
        LinkEvent::Proceed,
    ];
    match run_link_session(&mut store, &a, &events) {
        LinkOutcome::Linked { uid } => assert_eq!(uid, "700000001"),
        _ => panic!("expected the session to complete"),
    }
    assert_eq!(store.list_accounts(&a), vec!["700000001".to_string()]);
}

#[test]
fn timeout_at_confirmation_leaves_accounts_unchanged() {
    let mut store = CredentialStore::new();
    let a = "100".to_string();
    let events = vec![
        LinkEvent::Proceed,
        LinkEvent::Proceed,
        form("700000001", GOOD_COOKIE),
        LinkEvent::Proceed,
    ];
    run_link_session(&mut store, &a, &events);
    assert_eq!(store.list_accounts(&a), vec!["700000001".to_string()]);

    // A fresh attempt that times out at the first confirmation step.
    let timed_out = vec![LinkEvent::Timeout];
    match run_link_session(&mut store, &a, &timed_out) {
        LinkOutcome::TimedOut => {}
        _ => panic!("expected a timeout"),
    }
    assert_eq!(store.list_accounts(&a), vec!["700000001".to_string()]);

    // Running out of interactions mid-way is a timeout too.
    let mut empty_store = CredentialStore::new();
    let exhausted = vec![LinkEvent::Proceed, LinkEvent::Proceed];
    match run_link_session(&mut empty_store, &a, &exhausted) {
        LinkOutcome::TimedOut => {}
        _ => panic!("expected a timeout"),
    }
    assert!(empty_store.list_accounts(&a).is_empty());
}

#[test]
fn cancelled_link_session_writes_nothing() {
    let mut store = CredentialStore::new();
    let a = "100".to_string();
    let events = vec![
        LinkEvent::Proceed,
        LinkEvent::Cancel,
        form("700000001", GOOD_COOKIE),
        LinkEvent::Proceed,
    ];
    match run_link_session(&mut store, &a, &events) {
        LinkOutcome::Cancelled => {}
        _ => panic!("expected a cancellation"),
    }
    assert!(store.list_accounts(&a).is_empty());
}

#[test]
fn rejected_credential_ends_the_link_session() {
    let mut store = CredentialStore::new();
    let a = "100".to_string();
    let events = vec![
        LinkEvent::Proceed,
        LinkEvent::Proceed,
        form("700000001", "ltoken=only"),
        LinkEvent::Proceed,
    ];
    match run_link_session(&mut store, &a, &events) {
        LinkOutcome::RejectedCredential { error } => {
            assert_eq!(error, CookieError::MissingLtuid)
        }
        _ => panic!("expected the credential to be rejected"),
    }
    assert!(store.list_accounts(&a).is_empty());
}

#[test]
fn linking_twice_is_reported_as_already_linked() {
    let mut store = CredentialStore::new();
    let a = "100".to_string();
    let events = vec![
        LinkEvent::Proceed,
        LinkEvent::Proceed,
        form("700000001", GOOD_COOKIE),
        LinkEvent::Proceed,
    ];
    run_link_session(&mut store, &a, &events);
    match run_link_session(&mut store, &a, &events) {
        LinkOutcome::AlreadyLinked { uid } => assert_eq!(uid, "700000001"),
        _ => panic!("expected the duplicate to be benign"),
    }
    assert_eq!(store.count_mappings(&a), 1);
}

#[test]
fn unlink_session_with_no_accounts_stops() {
    let mut store = CredentialStore::new();
    let a = "100".to_string();
    match run_unlink_session(&mut store, &a, &vec![UnlinkEvent::Proceed]) {
        UnlinkOutcome::NoAccounts => {}
        _ => panic!("expected the no-accounts gate"),
    }
}

#[test]
fn completed_unlink_session_removes_the_mapping() {
    let mut store = CredentialStore::new();
    let a = "100".to_string();
    let link_events = vec![
        LinkEvent::Proceed,
        LinkEvent::Proceed,
        form("700000001", GOOD_COOKIE),
        LinkEvent::Proceed,
    ];
    run_link_session(&mut store, &a, &link_events);

    let events = vec![
        UnlinkEvent::Proceed,
        UnlinkEvent::Select {
            uid: "700000001".to_string(),
        },
        UnlinkEvent::Proceed,
    ];
    match run_unlink_session(&mut store, &a, &events) {
        UnlinkOutcome::Unlinked { uid } => assert_eq!(uid, "700000001"),
        _ => panic!("expected the session to complete"),
    }
    assert!(store.list_accounts(&a).is_empty());
}

#[test]
fn foreign_selection_cancels_the_unlink_session() {
    let mut store = CredentialStore::new();
    let a = "100".to_string();
    let b = "200".to_string();
    let link_events = vec![
        LinkEvent::Proceed,
        LinkEvent::Proceed,
        form("700000001", GOOD_COOKIE),
        LinkEvent::Proceed,
    ];
    run_link_session(&mut store, &a, &link_events);
    let link_events_b = vec![
        LinkEvent::Proceed,
        LinkEvent::Proceed,
        form("700000002", GOOD_COOKIE),
        LinkEvent::Proceed,
    ];
    run_link_session(&mut store, &b, &link_events_b);

    // B's account is not in A's list: a forged selection cancels.
    let events = vec![
        UnlinkEvent::Proceed,
        UnlinkEvent::Select {
            uid: "700000002".to_string(),
        },
        UnlinkEvent::Proceed,
    ];
    match run_unlink_session(&mut store, &a, &events) {
        UnlinkOutcome::Cancelled => {}
        _ => panic!("expected a cancellation"),
    }
    assert_eq!(store.count_mappings(&a), 1);
    assert_eq!(store.count_mappings(&b), 1);
}

#[test]
fn dialog_session_transitions() {
    let options = vec!["cancel".to_string(), "proceed".to_string()];
    let mut s = DialogSession::present(options.clone());
    assert_eq!(s.state, SessionState::AwaitingChoice);
    assert!(s.deliver_choice(&"proceed".to_string()));
    assert_eq!(s.state, SessionState::Confirmed);
    assert_eq!(s.chosen, Some("proceed".to_string()));

    s.begin_input();
    assert_eq!(s.state, SessionState::AwaitingInput);
    s.deliver_input(vec!["700000001".to_string()]);
    assert_eq!(s.state, SessionState::Submitted);
    s.mark_invalid();
    assert_eq!(s.state, SessionState::Invalid);

    let mut cancelled = DialogSession::present(options.clone());
    assert!(!cancelled.deliver_choice(&"cancel".to_string()));
    assert_eq!(cancelled.state, SessionState::Cancelled);

    // A stale or forged choice value is a cancellation, not an error.
    let mut forged = DialogSession::present(options.clone());
    assert!(!forged.deliver_choice(&"out-of-date-button".to_string()));
    assert_eq!(forged.state, SessionState::Cancelled);

    let mut timed = DialogSession::present(options);
    timed.deliver_timeout();
    assert_eq!(timed.state, SessionState::TimedOut);
}

#[test]
fn every_step_shares_the_two_minute_timeout() {
    assert_eq!(STEP_TIMEOUT_SECS, 120);
}

#[test]
fn command_names_route_to_their_workflows() {
    assert_eq!(dispatch(&"claimcode".to_string()), Some(Command::ClaimCode));
    assert_eq!(
        dispatch(&"claimdaily".to_string()),
        Some(Command::ClaimDaily)
    );
    assert_eq!(dispatch(&"accounts".to_string()), Some(Command::Accounts));
    assert_eq!(dispatch(&"link".to_string()), Some(Command::Link));
    assert_eq!(dispatch(&"unlink".to_string()), Some(Command::Unlink));
    assert_eq!(
        dispatch(&"submitcode".to_string()),
        Some(Command::SubmitCode)
    );
    assert_eq!(dispatch(&"unknown".to_string()), None);
}

#[test]
fn registered_names_route_back_to_their_commands() {
    let all = [
        Command::ClaimCode,
        Command::ClaimDaily,
        Command::Accounts,
        Command::Link,
        Command::Unlink,
        Command::SubmitCode,
    ];
    for c in all {
        assert_eq!(dispatch(&command_name(&c)), Some(c));
    }
    assert_eq!(command_name(&Command::Link), "link");
    assert_eq!(command_description(&Command::Link), "Link your HoYoLab account");
    assert_eq!(
        command_description(&Command::Accounts),
        "List your linked accounts and (un)link accounts."
    );
    assert_eq!(
        command_description(&Command::ClaimDaily),
        "Claim daily login reward"
    );
    assert_eq!(command_description(&Command::ClaimCode), "Claim code");
    assert_eq!(
        command_description(&Command::Unlink),
        "Unlink your HoYoLab account"
    );
    assert_eq!(
        command_description(&Command::SubmitCode),
        "Submit a redemption code"
    );
}

#[test]
fn accounts_overview_routes_its_two_buttons() {
    assert_eq!(
        accounts_choice(&"link_account_button".to_string()),
        Some(AccountsChoice::StartLink)
    );
    assert_eq!(
        accounts_choice(&"unlink_account_button".to_string()),
        Some(AccountsChoice::StartUnlink)
    );
    assert_eq!(accounts_choice(&"stale".to_string()), None);
}
