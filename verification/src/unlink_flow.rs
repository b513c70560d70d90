//! The unlinking workflow: gate on the caller having linked accounts,
//! confirm intent, select the UID from the caller's own list, confirm
//! the selection, then commit to the store.
//!
//! A selected UID outside the caller's list (a stale or forged
//! interaction) is treated as a cancellation, never as an error. A
//! session that reaches the commit always succeeds: the selection came
//! from the caller's mappings, so the mapping to delete exists.

use vstd::prelude::*;

use crate::model::{
    has_mapping, identity_mappings, is_identity_mapping, linked_uids, mapping_of, unlink_model,
    unlink_result, MappingModel, StoreModel,
};
use crate::seq_facts::lemma_filter_membership;
use crate::store::{string_views, CredentialStore};

verus! {

/// One inbound interaction of the unlinking dialog.
pub enum UnlinkEvent {
    /// The confirm button of the current step.
    Proceed,
    /// The explicit cancel button.
    Cancel,
    /// The step's timeout fired; the prompt was retracted.
    Timeout,
    /// The single-select choice of the account to unlink.
    Select { uid: String },
}

/// Spec-level image of an unlinking event.
pub enum UnlinkEventModel {
    Proceed,
    Cancel,
    Timeout,
    Select { uid: Seq<char> },
}

impl View for UnlinkEvent {
    type V = UnlinkEventModel;

    open spec fn view(&self) -> UnlinkEventModel {
        match self {
            UnlinkEvent::Proceed => UnlinkEventModel::Proceed,
            UnlinkEvent::Cancel => UnlinkEventModel::Cancel,
            UnlinkEvent::Timeout => UnlinkEventModel::Timeout,
            UnlinkEvent::Select { uid } => UnlinkEventModel::Select { uid: uid@ },
        }
    }
}

pub open spec fn unlink_event_views(v: Seq<UnlinkEvent>) -> Seq<UnlinkEventModel> {
    v.map_values(|e: UnlinkEvent| e@)
}

/// How an unlinking workflow ended.
pub enum UnlinkOutcome {
    /// The mapping was deleted (and the account and credential rows with
    /// it, when it was the last reference).
    Unlinked { uid: String },
    /// The caller has no linked accounts; reported and stopped.
    NoAccounts,
    /// The user cancelled, or supplied a stale or forged choice.
    Cancelled,
    /// A step's timeout fired.
    TimedOut,
}

/// Spec-level image of an unlinking outcome.
pub enum UnlinkOutcomeModel {
    Unlinked { uid: Seq<char> },
    NoAccounts,
    Cancelled,
    TimedOut,
}

impl View for UnlinkOutcome {
    type V = UnlinkOutcomeModel;

    open spec fn view(&self) -> UnlinkOutcomeModel {
        match self {
            UnlinkOutcome::Unlinked { uid } => UnlinkOutcomeModel::Unlinked { uid: uid@ },
            UnlinkOutcome::NoAccounts => UnlinkOutcomeModel::NoAccounts,
            UnlinkOutcome::Cancelled => UnlinkOutcomeModel::Cancelled,
            UnlinkOutcome::TimedOut => UnlinkOutcomeModel::TimedOut,
        }
    }
}

/// What an unlinking session does to the store and reports, given the
/// inbound events in order. The store is written at most once, by the
/// final gate, and only for a UID out of the caller's own list.
pub open spec fn unlink_session_spec(
    m: StoreModel,
    identity: Seq<char>,
    events: Seq<UnlinkEventModel>,
) -> (StoreModel, UnlinkOutcomeModel) {
    if identity_mappings(m, identity).len() == 0 {
        (m, UnlinkOutcomeModel::NoAccounts)
    } else if events.len() < 1 {
        (m, UnlinkOutcomeModel::TimedOut)
    } else {
        match events[0] {
            UnlinkEventModel::Proceed => if events.len() < 2 {
                (m, UnlinkOutcomeModel::TimedOut)
            } else {
                match events[1] {
                    UnlinkEventModel::Select { uid } => if !linked_uids(m, identity).contains(
                        uid,
                    ) {
                        (m, UnlinkOutcomeModel::Cancelled)
                    } else if events.len() < 3 {
                        (m, UnlinkOutcomeModel::TimedOut)
                    } else {
                        match events[2] {
                            UnlinkEventModel::Proceed => (
                                unlink_model(m, identity, uid),
                                UnlinkOutcomeModel::Unlinked { uid },
                            ),
                            UnlinkEventModel::Timeout => (m, UnlinkOutcomeModel::TimedOut),
                            _ => (m, UnlinkOutcomeModel::Cancelled),
                        }
                    },
                    UnlinkEventModel::Timeout => (m, UnlinkOutcomeModel::TimedOut),
                    _ => (m, UnlinkOutcomeModel::Cancelled),
                }
            },
            UnlinkEventModel::Timeout => (m, UnlinkOutcomeModel::TimedOut),
            _ => (m, UnlinkOutcomeModel::Cancelled),
        }
    }
}

/// A UID out of an identity's own list is mapped to it, so the commit
/// of the unlinking workflow never fails.
pub proof fn lemma_selected_is_mapped(m: StoreModel, identity: Seq<char>, uid: Seq<char>)
    requires
        linked_uids(m, identity).contains(uid),
    ensures
        has_mapping(m, identity, uid),
{
    let rows = identity_mappings(m, identity);
    let uids = rows.map_values(|e: MappingModel| e.uid);
    let k = choose|k: int| 0 <= k < uids.len() && uids[k] == uid;
    lemma_filter_membership(m.mappings, |e: MappingModel| is_identity_mapping(e, identity), k);
    assert(rows[k] == mapping_of(identity, uid));
    let w = choose|w: int| 0 <= w < m.mappings.len() && m.mappings[w] == rows[k];
    assert(m.mappings[w] == mapping_of(identity, uid));
}

/// Does the list hold this UID?
fn list_contains(list: &Vec<String>, uid: &String) -> (b: bool)
    ensures
        b == string_views(list@).contains(uid@),
{
    let mut j: usize = 0;
    while j < list.len()
        invariant
            j <= list.len(),
            forall|k: int| 0 <= k < j ==> string_views(list@)[k] != uid@,
        decreases list.len() - j,
    {
        if list[j] == *uid {
            proof {
                assert(string_views(list@)[j as int] == uid@);
            }
            return true;
        }
        j += 1;
    }
    false
}

/// Runs one unlinking session over the inbound events. The store
/// changes exactly as the session transition says, and only a completed
/// workflow writes it.
pub fn run_unlink_session(
    store: &mut CredentialStore,
    identity: &String,
    events: &Vec<UnlinkEvent>,
) -> (out: UnlinkOutcome)
    requires
        old(store).wf(),
    ensures
        final(store).wf(),
        final(store)@ == unlink_session_spec(
            old(store)@,
            identity@,
            unlink_event_views(events@),
        ).0,
        out@ == unlink_session_spec(old(store)@, identity@, unlink_event_views(events@)).1,
        !(out@ is Unlinked) ==> final(store)@ == old(store)@,
{
    if store.count_mappings(identity) == 0 {
        return UnlinkOutcome::NoAccounts;
    }
    if events.len() < 1 {
        return UnlinkOutcome::TimedOut;
    }
    match &events[0] {
        UnlinkEvent::Proceed => {},
        UnlinkEvent::Timeout => {
            return UnlinkOutcome::TimedOut;
        },
        _ => {
            return UnlinkOutcome::Cancelled;
        },
    }
    if events.len() < 2 {
        return UnlinkOutcome::TimedOut;
    }
    let uid = match &events[1] {
        UnlinkEvent::Select { uid } => uid,
        UnlinkEvent::Timeout => {
            return UnlinkOutcome::TimedOut;
        },
        _ => {
            return UnlinkOutcome::Cancelled;
        },
    };
    let listed = store.list_accounts(identity);
    if !list_contains(&listed, uid) {
        return UnlinkOutcome::Cancelled;
    }
    if events.len() < 3 {
        return UnlinkOutcome::TimedOut;
    }
    match &events[2] {
        UnlinkEvent::Proceed => {},
        UnlinkEvent::Timeout => {
            return UnlinkOutcome::TimedOut;
        },
        _ => {
            return UnlinkOutcome::Cancelled;
        },
    }
    proof {
        lemma_selected_is_mapped(store@, identity@, uid@);
    }
    let committed = store.unlink_account(identity, uid);
    proof {
        assert(committed is Ok);
        assert(unlink_result(old(store)@, identity@, uid@) is Ok);
    }
    UnlinkOutcome::Unlinked { uid: uid.clone() }
}

} // verus!
