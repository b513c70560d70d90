//! Broadcast redemption: a new code is stored, then fanned out across
//! every account opted into auto-claim, with per-account failures
//! isolated and one notification delivered to every identity sharing an
//! account.
//!
//! The remote redeem call itself is outside work; the library plans the
//! calls (`begin_code_broadcast`) and turns the outcomes into the
//! notification set (`broadcast_notifications`), whatever each outcome
//! was.

use vstd::prelude::*;

use crate::messages::{
    auto_claim_failure_message, auto_claim_failure_text, auto_claim_success_message,
    auto_claim_success_text,
};
use crate::model::{
    identity_mappings, opted_model, submit_model, OptedModel, StoreModel,
};
use crate::store::{CredentialStore, OptedAccount};

verus! {

/// Why a code submission was refused.
#[derive(Clone, Copy, PartialEq, Eq, Structural, Debug)]
pub enum SubmitRefusal {
    /// The caller has no linked account.
    NoLinkedAccounts,
    /// The code is already in the table.
    DuplicateCode,
}

/// What one remote redeem call came back with.
pub enum RemoteOutcome {
    Claimed,
    Failed { reason: String },
}

/// Spec-level image of a remote outcome.
pub enum RemoteOutcomeModel {
    Claimed,
    Failed { reason: Seq<char> },
}

impl View for RemoteOutcome {
    type V = RemoteOutcomeModel;

    open spec fn view(&self) -> RemoteOutcomeModel {
        match self {
            RemoteOutcome::Claimed => RemoteOutcomeModel::Claimed,
            RemoteOutcome::Failed { reason } => RemoteOutcomeModel::Failed { reason: reason@ },
        }
    }
}

/// One direct notification: who gets it and what it says.
pub struct Notification {
    pub identity: String,
    pub text: String,
}

/// Spec-level image of a notification.
pub struct NoteModel {
    pub identity: Seq<char>,
    pub text: Seq<char>,
}

impl View for Notification {
    type V = NoteModel;

    open spec fn view(&self) -> NoteModel {
        NoteModel { identity: self.identity@, text: self.text@ }
    }
}

/// The one outcome text of an account: every identity sharing the
/// account gets exactly this text.
pub open spec fn outcome_text(code: Seq<char>, uid: Seq<char>, o: RemoteOutcomeModel) -> Seq<
    char,
> {
    match o {
        RemoteOutcomeModel::Claimed => auto_claim_success_text(code, uid),
        RemoteOutcomeModel::Failed { reason } => auto_claim_failure_text(code, uid, reason),
    }
}

/// The notifications of one account: one per identity, all with the
/// account's one outcome text.
pub open spec fn task_notes(code: Seq<char>, t: OptedModel, o: RemoteOutcomeModel) -> Seq<
    NoteModel,
> {
    t.identities.map_values(|id: Seq<char>| NoteModel { identity: id, text: outcome_text(code, t.uid, o) })
}

/// The whole notification set, account by account, in task order.
pub open spec fn broadcast_notes(
    code: Seq<char>,
    tasks: Seq<OptedModel>,
    outcomes: Seq<RemoteOutcomeModel>,
) -> Seq<NoteModel>
    decreases tasks.len(),
{
    if tasks.len() == 0 {
        Seq::empty()
    } else {
        task_notes(code, tasks[0], outcomes[0]) + broadcast_notes(
            code,
            tasks.drop_first(),
            outcomes.drop_first(),
        )
    }
}

/// Every identity of every task, in task order.
pub open spec fn all_identities(tasks: Seq<OptedModel>) -> Seq<Seq<char>>
    decreases tasks.len(),
{
    if tasks.len() == 0 {
        Seq::empty()
    } else {
        tasks[0].identities + all_identities(tasks.drop_first())
    }
}

/// One account's notifications: one per identity of the account, each
/// carrying the identical outcome text.
pub proof fn lemma_task_notes_uniform(code: Seq<char>, t: OptedModel, o: RemoteOutcomeModel)
    ensures
        task_notes(code, t, o).len() == t.identities.len(),
        forall|j: int|
            0 <= j < t.identities.len() ==> (#[trigger] task_notes(code, t, o)[j]).identity
                == t.identities[j] && task_notes(code, t, o)[j].text == outcome_text(
                code,
                t.uid,
                o,
            ),
{
}

/// Failure isolation: who gets notified does not depend on any
/// account's outcome — one account's failure never suppresses another
/// account's notifications.
pub proof fn lemma_broadcast_isolation(
    code: Seq<char>,
    tasks: Seq<OptedModel>,
    outcomes: Seq<RemoteOutcomeModel>,
)
    requires
        tasks.len() == outcomes.len(),
    ensures
        broadcast_notes(code, tasks, outcomes).map_values(|n: NoteModel| n.identity)
            == all_identities(tasks),
    decreases tasks.len(),
{
    if tasks.len() > 0 {
        lemma_broadcast_isolation(code, tasks.drop_first(), outcomes.drop_first());
        let head = task_notes(code, tasks[0], outcomes[0]);
        let tail = broadcast_notes(code, tasks.drop_first(), outcomes.drop_first());
        assert((head + tail).map_values(|n: NoteModel| n.identity) =~= head.map_values(
            |n: NoteModel| n.identity,
        ) + tail.map_values(|n: NoteModel| n.identity));
        assert(head.map_values(|n: NoteModel| n.identity) =~= tasks[0].identities);
    }
}

/// One redeem call per account: in a well-formed store the planned
/// tasks carry pairwise distinct UIDs.
pub proof fn lemma_one_task_per_account(m: StoreModel)
    requires
        crate::model::wf(m),
    ensures
        crate::seq_facts::distinct_seq(opted_model(m).map_values(|o: OptedModel| o.uid)),
{
    crate::seq_facts::lemma_filter_map_distinct(
        m.accounts,
        |a: crate::model::AccountModel| crate::model::is_opted(a),
        |a: crate::model::AccountModel| a.uid,
    );
    assert(opted_model(m).map_values(|o: OptedModel| o.uid) =~= crate::model::opted_accounts(
        m,
    ).map_values(|a: crate::model::AccountModel| a.uid));
}

/// Gates a code submission and stores the code: the caller must have a
/// linked account, and the code must be new. On success the stored code
/// table grows by the code and the fan-out plan comes back: every
/// opted-in account with its credential and identities.
pub fn begin_code_broadcast(store: &mut CredentialStore, identity: &String, code: &String) -> (r:
    Result<Vec<OptedAccount>, SubmitRefusal>)
    requires
        old(store).wf(),
    ensures
        final(store).wf(),
        identity_mappings(old(store)@, identity@).len() == 0 ==> r == Err::<
            Vec<OptedAccount>,
            SubmitRefusal,
        >(SubmitRefusal::NoLinkedAccounts) && final(store)@ == old(store)@,
        identity_mappings(old(store)@, identity@).len() > 0 && old(store)@.codes.contains(code@)
            ==> r == Err::<Vec<OptedAccount>, SubmitRefusal>(SubmitRefusal::DuplicateCode)
            && final(store)@ == old(store)@,
        identity_mappings(old(store)@, identity@).len() > 0 && !old(store)@.codes.contains(code@)
            ==> final(store)@ == submit_model(old(store)@, code@) && (r matches Ok(tasks)
            && tasks@.map_values(|o: OptedAccount| o@) == opted_model(old(store)@)),
{
    if store.count_mappings(identity) == 0 {
        return Err(SubmitRefusal::NoLinkedAccounts);
    }
    if store.contains_code(code) {
        return Err(SubmitRefusal::DuplicateCode);
    }
    let inserted = store.submit_code(code);
    proof {
        assert(inserted is Ok);
        assert(opted_model(store@) == opted_model(old(store)@));
    }
    Ok(store.accounts_opted_for_auto_claim())
}


/// Turns the per-account outcomes into the notification set: for each
/// account, one notification per identity sharing it, all carrying that
/// account's outcome text, whatever the outcome was.
pub fn broadcast_notifications(
    code: &String,
    tasks: &Vec<OptedAccount>,
    outcomes: &Vec<RemoteOutcome>,
) -> (notes: Vec<Notification>)
    requires
        tasks@.len() == outcomes@.len(),
    ensures
        notes@.map_values(|n: Notification| n@) == broadcast_notes(
            code@,
            tasks@.map_values(|o: OptedAccount| o@),
            outcomes@.map_values(|o: RemoteOutcome| o@),
        ),
{
    let ghost tvs = tasks@.map_values(|o: OptedAccount| o@);
    let ghost ovs = outcomes@.map_values(|o: RemoteOutcome| o@);
    let mut notes: Vec<Notification> = Vec::new();
    let mut i: usize = 0;
    proof {
        assert(notes@.map_values(|n: Notification| n@) =~= Seq::<NoteModel>::empty());
        assert(tvs.skip(0) =~= tvs);
        assert(ovs.skip(0) =~= ovs);
    }
    while i < tasks.len()
        invariant
            i <= tasks.len(),
            tasks@.len() == outcomes@.len(),
            tvs == tasks@.map_values(|o: OptedAccount| o@),
            ovs == outcomes@.map_values(|o: RemoteOutcome| o@),
            notes@.map_values(|n: Notification| n@) + broadcast_notes(
                code@,
                tvs.skip(i as int),
                ovs.skip(i as int),
            ) == broadcast_notes(code@, tvs, ovs),
        decreases tasks.len() - i,
    {
        proof {
            assert(tvs.skip(i as int)[0] == tvs[i as int]);
            assert(ovs.skip(i as int)[0] == ovs[i as int]);
            assert(tvs.skip(i as int).drop_first() =~= tvs.skip(i as int + 1));
            assert(ovs.skip(i as int).drop_first() =~= ovs.skip(i as int + 1));
        }
        let task = &tasks[i];
        let outcome = &outcomes[i];
        let text = match outcome {
            RemoteOutcome::Claimed => auto_claim_success_message(code, &task.uid),
            RemoteOutcome::Failed { reason } => auto_claim_failure_message(
                code,
                &task.uid,
                reason,
            ),
        };
        let ghost seg_before = notes@.map_values(|n: Notification| n@);
        let mut j: usize = 0;
        while j < task.identities.len()
            invariant
                j <= task.identities.len(),
                task == tasks@[i as int],
                i < tasks@.len(),
                tvs == tasks@.map_values(|o: OptedAccount| o@),
                text@ == outcome_text(code@, tvs[i as int].uid, ovs[i as int]),
                notes@.map_values(|n: Notification| n@) == seg_before + task_notes(
                    code@,
                    tvs[i as int],
                    ovs[i as int],
                ).take(j as int),
            decreases task.identities.len() - j,
        {
            let ghost seg = notes@.map_values(|n: Notification| n@);
            notes.push(
                Notification { identity: task.identities[j].clone(), text: text.clone() },
            );
            proof {
                let tn = task_notes(code@, tvs[i as int], ovs[i as int]);
                assert(tn[j as int] == (NoteModel {
                    identity: task@.identities[j as int],
                    text: outcome_text(code@, tvs[i as int].uid, ovs[i as int]),
                }));
                assert(notes@.map_values(|n: Notification| n@) =~= seg.push(tn[j as int]));
                assert(tn.take(j as int + 1) =~= tn.take(j as int).push(tn[j as int]));
            }
            j += 1;
        }
        proof {
            let tn = task_notes(code@, tvs[i as int], ovs[i as int]);
            assert(tn.take(tn.len() as int) =~= tn);
            assert(notes@.map_values(|n: Notification| n@) =~= seg_before + tn);
            assert(seg_before + tn + broadcast_notes(
                code@,
                tvs.skip(i as int + 1),
                ovs.skip(i as int + 1),
            ) =~= seg_before + (tn + broadcast_notes(
                code@,
                tvs.skip(i as int + 1),
                ovs.skip(i as int + 1),
            )));
        }
        i += 1;
    }
    proof {
        assert(tvs.skip(tasks@.len() as int) =~= Seq::<OptedModel>::empty());
        assert(ovs.skip(outcomes@.len() as int) =~= Seq::<RemoteOutcomeModel>::empty());
    }
    notes
}

} // verus!
