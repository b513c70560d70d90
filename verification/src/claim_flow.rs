//! The claim commands: claim the daily reward, or redeem one code, on
//! every account of the caller.
//!
//! The remote calls are outside work; the library plans them
//! (`claim_plan`) and turns the outcomes into the per-account report
//! lines, one line per linked account whatever each outcome was.

use vstd::prelude::*;

use crate::broadcast::{RemoteOutcome, RemoteOutcomeModel};
use crate::messages::{
    code_failure_message, code_failure_text, code_success_message, code_success_text,
    daily_failure_message, daily_failure_text, daily_success_message, daily_success_text,
};
use crate::model::{claim_targets, ClaimTargetModel};
use crate::store::{string_views, ClaimTarget, CredentialStore};

verus! {

/// The report line of one code claim.
pub open spec fn code_line(code: Seq<char>, uid: Seq<char>, o: RemoteOutcomeModel) -> Seq<char> {
    match o {
        RemoteOutcomeModel::Claimed => code_success_text(code, uid),
        RemoteOutcomeModel::Failed { reason } => code_failure_text(code, uid, reason),
    }
}

/// The report of a code claim run: one line per target, in target
/// order.
pub open spec fn code_report(
    code: Seq<char>,
    targets: Seq<ClaimTargetModel>,
    outcomes: Seq<RemoteOutcomeModel>,
) -> Seq<Seq<char>>
    decreases targets.len(),
{
    if targets.len() == 0 {
        Seq::empty()
    } else {
        seq![code_line(code, targets[0].uid, outcomes[0])] + code_report(
            code,
            targets.drop_first(),
            outcomes.drop_first(),
        )
    }
}

/// The report line of one daily claim.
pub open spec fn daily_line(uid: Seq<char>, o: RemoteOutcomeModel) -> Seq<char> {
    match o {
        RemoteOutcomeModel::Claimed => daily_success_text(uid),
        RemoteOutcomeModel::Failed { reason } => daily_failure_text(uid, reason),
    }
}

/// The report of a daily claim run: one line per target, in target
/// order.
pub open spec fn daily_report(
    targets: Seq<ClaimTargetModel>,
    outcomes: Seq<RemoteOutcomeModel>,
) -> Seq<Seq<char>>
    decreases targets.len(),
{
    if targets.len() == 0 {
        Seq::empty()
    } else {
        seq![daily_line(targets[0].uid, outcomes[0])] + daily_report(
            targets.drop_first(),
            outcomes.drop_first(),
        )
    }
}

/// The claim plan of one identity: `None` when no account is linked
/// (the command reports that and stops), otherwise every linked account
/// with the credential to act with.
pub fn claim_plan(store: &CredentialStore, identity: &String) -> (r: Option<Vec<ClaimTarget>>)
    requires
        store.wf(),
    ensures
        r is None <==> claim_targets(store@, identity@).len() == 0,
        (match r {
            Some(ts) => ts@.map_values(|t: ClaimTarget| t@) == claim_targets(store@, identity@),
            None => true,
        }),
{
    let targets = store.linked_credentials(identity);
    if targets.len() == 0 {
        proof {
            assert(targets@.map_values(|t: ClaimTarget| t@).len() == 0);
        }
        None
    } else {
        Some(targets)
    }
}

/// The report lines of a code claim run, one per target, each carrying
/// that target's outcome, whatever it was.
pub fn code_claim_report(
    code: &String,
    targets: &Vec<ClaimTarget>,
    outcomes: &Vec<RemoteOutcome>,
) -> (lines: Vec<String>)
    requires
        targets@.len() == outcomes@.len(),
    ensures
        string_views(lines@) == code_report(
            code@,
            targets@.map_values(|t: ClaimTarget| t@),
            outcomes@.map_values(|o: RemoteOutcome| o@),
        ),
{
    let ghost tvs = targets@.map_values(|t: ClaimTarget| t@);
    let ghost ovs = outcomes@.map_values(|o: RemoteOutcome| o@);
    let mut lines: Vec<String> = Vec::new();
    let mut i: usize = 0;
    proof {
        assert(string_views(lines@) =~= Seq::<Seq<char>>::empty());
        assert(tvs.skip(0) =~= tvs);
        assert(ovs.skip(0) =~= ovs);
    }
    while i < targets.len()
        invariant
            i <= targets.len(),
            targets@.len() == outcomes@.len(),
            tvs == targets@.map_values(|t: ClaimTarget| t@),
            ovs == outcomes@.map_values(|o: RemoteOutcome| o@),
            string_views(lines@) + code_report(code@, tvs.skip(i as int), ovs.skip(i as int))
                == code_report(code@, tvs, ovs),
        decreases targets.len() - i,
    {
        proof {
            assert(tvs.skip(i as int)[0] == tvs[i as int]);
            assert(ovs.skip(i as int)[0] == ovs[i as int]);
            assert(tvs.skip(i as int).drop_first() =~= tvs.skip(i as int + 1));
            assert(ovs.skip(i as int).drop_first() =~= ovs.skip(i as int + 1));
        }
        let target = &targets[i];
        let line = match &outcomes[i] {
            RemoteOutcome::Claimed => code_success_message(code, &target.uid),
            RemoteOutcome::Failed { reason } => code_failure_message(code, &target.uid, reason),
        };
        let ghost before = string_views(lines@);
        lines.push(line);
        proof {
            assert(string_views(lines@) =~= before.push(
                code_line(code@, tvs[i as int].uid, ovs[i as int]),
            ));
            assert(before.push(code_line(code@, tvs[i as int].uid, ovs[i as int]))
                + code_report(code@, tvs.skip(i as int + 1), ovs.skip(i as int + 1))
                =~= before + code_report(code@, tvs.skip(i as int), ovs.skip(i as int)));
        }
        i += 1;
    }
    proof {
        assert(tvs.skip(targets@.len() as int) =~= Seq::<ClaimTargetModel>::empty());
        assert(ovs.skip(outcomes@.len() as int) =~= Seq::<RemoteOutcomeModel>::empty());
    }
    lines
}

/// The report lines of a daily claim run, one per target, each carrying
/// that target's outcome, whatever it was.
pub fn daily_claim_report(targets: &Vec<ClaimTarget>, outcomes: &Vec<RemoteOutcome>) -> (lines:
    Vec<String>)
    requires
        targets@.len() == outcomes@.len(),
    ensures
        string_views(lines@) == daily_report(
            targets@.map_values(|t: ClaimTarget| t@),
            outcomes@.map_values(|o: RemoteOutcome| o@),
        ),
{
    let ghost tvs = targets@.map_values(|t: ClaimTarget| t@);
    let ghost ovs = outcomes@.map_values(|o: RemoteOutcome| o@);
    let mut lines: Vec<String> = Vec::new();
    let mut i: usize = 0;
    proof {
        assert(string_views(lines@) =~= Seq::<Seq<char>>::empty());
        assert(tvs.skip(0) =~= tvs);
        assert(ovs.skip(0) =~= ovs);
    }
    while i < targets.len()
        invariant
            i <= targets.len(),
            targets@.len() == outcomes@.len(),
            tvs == targets@.map_values(|t: ClaimTarget| t@),
            ovs == outcomes@.map_values(|o: RemoteOutcome| o@),
            string_views(lines@) + daily_report(tvs.skip(i as int), ovs.skip(i as int))
                == daily_report(tvs, ovs),
        decreases targets.len() - i,
    {
        proof {
            assert(tvs.skip(i as int)[0] == tvs[i as int]);
            assert(ovs.skip(i as int)[0] == ovs[i as int]);
            assert(tvs.skip(i as int).drop_first() =~= tvs.skip(i as int + 1));
            assert(ovs.skip(i as int).drop_first() =~= ovs.skip(i as int + 1));
        }
        let target = &targets[i];
        let line = match &outcomes[i] {
            RemoteOutcome::Claimed => daily_success_message(&target.uid),
            RemoteOutcome::Failed { reason } => daily_failure_message(&target.uid, reason),
        };
        let ghost before = string_views(lines@);
        lines.push(line);
        proof {
            assert(string_views(lines@) =~= before.push(
                daily_line(tvs[i as int].uid, ovs[i as int]),
            ));
            assert(before.push(daily_line(tvs[i as int].uid, ovs[i as int])) + daily_report(
                tvs.skip(i as int + 1),
                ovs.skip(i as int + 1),
            ) =~= before + daily_report(tvs.skip(i as int), ovs.skip(i as int)));
        }
        i += 1;
    }
    proof {
        assert(tvs.skip(targets@.len() as int) =~= Seq::<ClaimTargetModel>::empty());
        assert(ovs.skip(outcomes@.len() as int) =~= Seq::<RemoteOutcomeModel>::empty());
    }
    lines
}

} // verus!
