//! The linking workflow: confirm intent, show the extraction
//! instructions, collect the UID and the raw credential text, validate
//! and decompose the credential, confirm the decomposed fields, then
//! commit to the store.
//!
//! The dialog transport delivers the user's interactions as a sequence
//! of events; a timeout or a cancellation (an explicit cancel, a stale
//! or forged choice, or running out of interactions) at any step ends
//! the workflow with no store mutation.

use vstd::prelude::*;

use crate::cookie::{decompose, decompose_spec, CookieError};
use crate::model::{link_model, link_result, StoreModel};
use crate::store::CredentialStore;

verus! {

/// One inbound interaction of the linking dialog.
pub enum LinkEvent {
    /// The confirm button of the current step.
    Proceed,
    /// The explicit cancel button.
    Cancel,
    /// The step's timeout fired; the prompt was retracted.
    Timeout,
    /// The form submission: the game UID and the raw credential text.
    Form { uid: String, cookie: String },
}

/// Spec-level image of a linking event.
pub enum LinkEventModel {
    Proceed,
    Cancel,
    Timeout,
    Form { uid: Seq<char>, cookie: Seq<char> },
}

impl View for LinkEvent {
    type V = LinkEventModel;

    open spec fn view(&self) -> LinkEventModel {
        match self {
            LinkEvent::Proceed => LinkEventModel::Proceed,
            LinkEvent::Cancel => LinkEventModel::Cancel,
            LinkEvent::Timeout => LinkEventModel::Timeout,
            LinkEvent::Form { uid, cookie } => LinkEventModel::Form {
                uid: uid@,
                cookie: cookie@,
            },
        }
    }
}

pub open spec fn link_event_views(v: Seq<LinkEvent>) -> Seq<LinkEventModel> {
    v.map_values(|e: LinkEvent| e@)
}

/// How a linking workflow ended.
pub enum LinkOutcome {
    /// The mapping was created (and the account and credential rows with
    /// it, on a first link).
    Linked { uid: String },
    /// The (identity, uid) mapping already existed; reported as benign.
    AlreadyLinked { uid: String },
    /// The credential text was rejected; reported verbatim.
    RejectedCredential { error: CookieError },
    /// The user cancelled, or supplied a stale or forged choice.
    Cancelled,
    /// A step's timeout fired.
    TimedOut,
}

/// Spec-level image of a linking outcome.
pub enum LinkOutcomeModel {
    Linked { uid: Seq<char> },
    AlreadyLinked { uid: Seq<char> },
    RejectedCredential { error: CookieError },
    Cancelled,
    TimedOut,
}

impl View for LinkOutcome {
    type V = LinkOutcomeModel;

    open spec fn view(&self) -> LinkOutcomeModel {
        match self {
            LinkOutcome::Linked { uid } => LinkOutcomeModel::Linked { uid: uid@ },
            LinkOutcome::AlreadyLinked { uid } => LinkOutcomeModel::AlreadyLinked { uid: uid@ },
            LinkOutcome::RejectedCredential { error } => LinkOutcomeModel::RejectedCredential {
                error: *error,
            },
            LinkOutcome::Cancelled => LinkOutcomeModel::Cancelled,
            LinkOutcome::TimedOut => LinkOutcomeModel::TimedOut,
        }
    }
}

/// What a linking session does to the store and reports, given the
/// inbound events in order: the four gates of the workflow, with the
/// store written at most once, by the last one. Running out of events
/// is a timeout; an unrecognized interaction at a choice step is a
/// cancellation.
pub open spec fn link_session_spec(
    m: StoreModel,
    identity: Seq<char>,
    events: Seq<LinkEventModel>,
) -> (StoreModel, LinkOutcomeModel) {
    if events.len() < 1 {
        (m, LinkOutcomeModel::TimedOut)
    } else {
        match events[0] {
            LinkEventModel::Proceed => if events.len() < 2 {
                (m, LinkOutcomeModel::TimedOut)
            } else {
                match events[1] {
                    LinkEventModel::Proceed => if events.len() < 3 {
                        (m, LinkOutcomeModel::TimedOut)
                    } else {
                        match events[2] {
                            LinkEventModel::Form { uid, cookie } => match decompose_spec(cookie) {
                                Err(e) => (m, LinkOutcomeModel::RejectedCredential { error: e }),
                                Ok(c) => if events.len() < 4 {
                                    (m, LinkOutcomeModel::TimedOut)
                                } else {
                                    match events[3] {
                                        LinkEventModel::Proceed => match link_result(
                                            m,
                                            identity,
                                            uid,
                                        ) {
                                            Ok(u) => (
                                                link_model(m, identity, uid, c),
                                                LinkOutcomeModel::Linked { uid },
                                            ),
                                            Err(e) => (
                                                m,
                                                LinkOutcomeModel::AlreadyLinked { uid },
                                            ),
                                        },
                                        LinkEventModel::Timeout => (
                                            m,
                                            LinkOutcomeModel::TimedOut,
                                        ),
                                        _ => (m, LinkOutcomeModel::Cancelled),
                                    }
                                },
                            },
                            LinkEventModel::Timeout => (m, LinkOutcomeModel::TimedOut),
                            _ => (m, LinkOutcomeModel::Cancelled),
                        }
                    },
                    LinkEventModel::Timeout => (m, LinkOutcomeModel::TimedOut),
                    _ => (m, LinkOutcomeModel::Cancelled),
                }
            },
            LinkEventModel::Timeout => (m, LinkOutcomeModel::TimedOut),
            _ => (m, LinkOutcomeModel::Cancelled),
        }
    }
}

/// Runs one linking session over the inbound events. The store changes
/// exactly as the session transition says, and only a completed
/// workflow writes it: every cancelled, timed-out or rejected session
/// leaves the store as it was.
pub fn run_link_session(
    store: &mut CredentialStore,
    identity: &String,
    events: &Vec<LinkEvent>,
) -> (out: LinkOutcome)
    requires
        old(store).wf(),
    ensures
        final(store).wf(),
        final(store)@ == link_session_spec(old(store)@, identity@, link_event_views(events@)).0,
        out@ == link_session_spec(old(store)@, identity@, link_event_views(events@)).1,
        !(out@ is Linked) ==> final(store)@ == old(store)@,
{
    let ghost evs = link_event_views(events@);
    if events.len() < 1 {
        return LinkOutcome::TimedOut;
    }
    match &events[0] {
        LinkEvent::Proceed => {},
        LinkEvent::Timeout => {
            return LinkOutcome::TimedOut;
        },
        _ => {
            return LinkOutcome::Cancelled;
        },
    }
    if events.len() < 2 {
        return LinkOutcome::TimedOut;
    }
    match &events[1] {
        LinkEvent::Proceed => {},
        LinkEvent::Timeout => {
            return LinkOutcome::TimedOut;
        },
        _ => {
            return LinkOutcome::Cancelled;
        },
    }
    if events.len() < 3 {
        return LinkOutcome::TimedOut;
    }
    let (uid, cookie) = match &events[2] {
        LinkEvent::Form { uid, cookie } => (uid, cookie),
        LinkEvent::Timeout => {
            return LinkOutcome::TimedOut;
        },
        _ => {
            return LinkOutcome::Cancelled;
        },
    };
    let fields = match decompose(cookie.as_str()) {
        Ok(c) => c,
        Err(e) => {
            return LinkOutcome::RejectedCredential { error: e };
        },
    };
    if events.len() < 4 {
        return LinkOutcome::TimedOut;
    }
    match &events[3] {
        LinkEvent::Proceed => {},
        LinkEvent::Timeout => {
            return LinkOutcome::TimedOut;
        },
        _ => {
            return LinkOutcome::Cancelled;
        },
    }
    match store.link_account(identity, uid, &fields) {
        Ok(_) => LinkOutcome::Linked { uid: uid.clone() },
        Err(_) => LinkOutcome::AlreadyLinked { uid: uid.clone() },
    }
}

} // verus!
