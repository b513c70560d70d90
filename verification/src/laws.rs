//! The laws of the credential store.
//!
//! Chief among them: the reference-counting invariant — an account row
//! and its credential row exist exactly while some mapping references
//! the UID — survives every interleaving of link and unlink calls.

use vstd::prelude::*;

use crate::model::{
    account_uids, credential_uids, has_account, has_credential, has_mapping, is_uid_mapping,
    link_model, link_result, mapping_count, mapping_of, submit_model, submit_result,
    set_auto_claim_model, survives_unlink, uid_mappings, uid_referenced, unlink_model,
    unlink_result, wf, AccountModel, CredentialModel, CredentialRowModel, MappingModel,
    StoreError, StoreModel,
};
use crate::seq_facts::{
    distinct_seq, lemma_contains_push, lemma_distinct_count_one, lemma_filter_all,
    lemma_filter_distinct, lemma_filter_empty_iff, lemma_filter_map_distinct,
    lemma_filter_membership, lemma_filter_none, lemma_filter_push, lemma_map_values_push,
};

verus! {

/// Linking keeps the store well-formed.
pub proof fn lemma_link_preserves_wf(
    m: StoreModel,
    identity: Seq<char>,
    uid: Seq<char>,
    c: CredentialModel,
)
    requires
        wf(m),
    ensures
        wf(link_model(m, identity, uid, c)),
{
    if !has_mapping(m, identity, uid) {
        let m1 = link_model(m, identity, uid, c);
        let target = mapping_of(identity, uid);

        // The account and credential key columns after the operation.
        if !has_account(m, uid) {
            lemma_map_values_push(
                m.accounts,
                AccountModel { uid, auto_claim: false },
                |a: AccountModel| a.uid,
            );
            assert(account_uids(m1) == account_uids(m).push(uid));
        }
        if !has_credential(m, uid) {
            lemma_map_values_push(
                m.credentials,
                CredentialRowModel { uid, fields: c },
                |r: CredentialRowModel| r.uid,
            );
            assert(credential_uids(m1) == credential_uids(m).push(uid));
        }

        // Uniqueness of keys survives: the only new key is a UID that
        // was absent.
        assert(distinct_seq(account_uids(m1)));
        assert(distinct_seq(credential_uids(m1)));
        assert(distinct_seq(m1.mappings));

        // Every mapping still points at an account and a credential.
        assert forall|i: int|
            0 <= i < m1.mappings.len() implies has_account(
            m1,
            (#[trigger] m1.mappings[i]).uid,
        ) by {
            if i < m.mappings.len() {
                assert(has_account(m, m.mappings[i].uid));
                if !has_account(m, uid) {
                    lemma_contains_push(account_uids(m), m.mappings[i].uid, uid);
                }
            } else {
                assert(m1.mappings[i] == target);
                if has_account(m, uid) {
                    assert(has_account(m1, uid));
                } else {
                    assert(account_uids(m1)[account_uids(m).len() as int] == uid);
                }
            }
        }
        assert forall|i: int|
            0 <= i < m1.mappings.len() implies has_credential(
            m1,
            (#[trigger] m1.mappings[i]).uid,
        ) by {
            if i < m.mappings.len() {
                assert(has_credential(m, m.mappings[i].uid));
                if !has_credential(m, uid) {
                    lemma_contains_push(credential_uids(m), m.mappings[i].uid, uid);
                }
            } else {
                assert(m1.mappings[i] == target);
                if !has_credential(m, uid) {
                    assert(credential_uids(m1)[credential_uids(m).len() as int] == uid);
                }
            }
        }

        // Every account and credential row is still referenced; the
        // possibly new rows are referenced by the new mapping.
        assert forall|i: int|
            0 <= i < m1.accounts.len() implies uid_referenced(
            m1,
            (#[trigger] m1.accounts[i]).uid,
        ) by {
            if i < m.accounts.len() {
                assert(uid_referenced(m, m.accounts[i].uid));
                let k = choose|k: int|
                    0 <= k < m.mappings.len() && (#[trigger] m.mappings[k]).uid
                        == m.accounts[i].uid;
                assert(m1.mappings[k].uid == m.accounts[i].uid);
            } else {
                assert(m1.accounts[i].uid == uid);
                assert(m1.mappings[m.mappings.len() as int].uid == uid);
            }
        }
        assert forall|i: int|
            0 <= i < m1.credentials.len() implies uid_referenced(
            m1,
            (#[trigger] m1.credentials[i]).uid,
        ) by {
            if i < m.credentials.len() {
                assert(uid_referenced(m, m.credentials[i].uid));
                let k = choose|k: int|
                    0 <= k < m.mappings.len() && (#[trigger] m.mappings[k]).uid
                        == m.credentials[i].uid;
                assert(m1.mappings[k].uid == m.credentials[i].uid);
            } else {
                assert(m1.credentials[i].uid == uid);
                assert(m1.mappings[m.mappings.len() as int].uid == uid);
            }
        }
    }
}

/// Unlinking keeps the store well-formed: the check-then-delete of the
/// account and credential rows sits in the same transition as the
/// mapping delete, so the last unlink removes all three and an earlier
/// one removes only the mapping.
pub proof fn lemma_unlink_preserves_wf(m: StoreModel, identity: Seq<char>, uid: Seq<char>)
    requires
        wf(m),
    ensures
        wf(unlink_model(m, identity, uid)),
{
    if has_mapping(m, identity, uid) {
        let m1 = unlink_model(m, identity, uid);
        let target = mapping_of(identity, uid);
        let p_keep = |e: MappingModel| survives_unlink(e, identity, uid);
        let p_uid = |e: MappingModel| is_uid_mapping(e, uid);
        let kept = m.mappings.filter(p_keep);

        lemma_filter_distinct(m.mappings, p_keep);
        assert forall|i: int|
            0 <= i < kept.len() implies m.mappings.contains(#[trigger] kept[i]) && kept[i]
            != target by {
            lemma_filter_membership(m.mappings, p_keep, i);
        }
        assert forall|k: int|
            0 <= k < m.mappings.len() && m.mappings[k] != target implies kept.contains(
            #[trigger] m.mappings[k],
        ) by {
            m.mappings.lemma_filter_contains(p_keep, k);
        }

        if kept.filter(p_uid).len() == 0 {
            lemma_filter_empty_iff(kept, p_uid);
            let pa = |a: AccountModel| crate::model::account_survives(a, uid);
            let pc = |r: CredentialRowModel| crate::model::credential_survives(r, uid);
            lemma_filter_map_distinct(m.accounts, pa, |a: AccountModel| a.uid);
            lemma_filter_map_distinct(m.credentials, pc, |r: CredentialRowModel| r.uid);

            assert forall|i: int|
                0 <= i < m1.mappings.len() implies has_account(
                m1,
                (#[trigger] m1.mappings[i]).uid,
            ) by {
                let u = kept[i].uid;
                assert(u != uid);
                let k = choose|k: int| 0 <= k < m.mappings.len() && m.mappings[k] == kept[i];
                assert(has_account(m, (m.mappings[k]).uid));
                let w = choose|w: int|
                    0 <= w < account_uids(m).len() && account_uids(m)[w] == u;
                assert(m.accounts[w].uid == u);
                m.accounts.lemma_filter_contains(pa, w);
                let w1 = choose|w1: int|
                    0 <= w1 < m1.accounts.len() && m1.accounts[w1] == m.accounts[w];
                assert(account_uids(m1)[w1] == u);
            }
            assert forall|i: int|
                0 <= i < m1.mappings.len() implies has_credential(
                m1,
                (#[trigger] m1.mappings[i]).uid,
            ) by {
                let u = kept[i].uid;
                assert(u != uid);
                let k = choose|k: int| 0 <= k < m.mappings.len() && m.mappings[k] == kept[i];
                assert(has_credential(m, (m.mappings[k]).uid));
                let w = choose|w: int|
                    0 <= w < credential_uids(m).len() && credential_uids(m)[w] == u;
                assert(m.credentials[w].uid == u);
                m.credentials.lemma_filter_contains(pc, w);
                let w1 = choose|w1: int|
                    0 <= w1 < m1.credentials.len() && m1.credentials[w1] == m.credentials[w];
                assert(credential_uids(m1)[w1] == u);
            }
            assert forall|i: int|
                0 <= i < m1.accounts.len() implies uid_referenced(
                m1,
                (#[trigger] m1.accounts[i]).uid,
            ) by {
                lemma_filter_membership(m.accounts, pa, i);
                let a = m1.accounts[i];
                let k0 = choose|k0: int| 0 <= k0 < m.accounts.len() && m.accounts[k0] == a;
                assert(uid_referenced(m, (m.accounts[k0]).uid));
                let k = choose|k: int|
                    0 <= k < m.mappings.len() && (#[trigger] m.mappings[k]).uid == a.uid;
                assert(m.mappings[k] != target);
                let j = choose|j: int| 0 <= j < kept.len() && kept[j] == m.mappings[k];
                assert(m1.mappings[j].uid == a.uid);
            }
            assert forall|i: int|
                0 <= i < m1.credentials.len() implies uid_referenced(
                m1,
                (#[trigger] m1.credentials[i]).uid,
            ) by {
                lemma_filter_membership(m.credentials, pc, i);
                let r = m1.credentials[i];
                let k0 = choose|k0: int| 0 <= k0 < m.credentials.len() && m.credentials[k0] == r;
                assert(uid_referenced(m, (m.credentials[k0]).uid));
                let k = choose|k: int|
                    0 <= k < m.mappings.len() && (#[trigger] m.mappings[k]).uid == r.uid;
                assert(m.mappings[k] != target);
                let j = choose|j: int| 0 <= j < kept.len() && kept[j] == m.mappings[k];
                assert(m1.mappings[j].uid == r.uid);
            }
        } else {
            assert(m1.accounts == m.accounts);
            assert(m1.credentials == m.credentials);

            assert forall|i: int|
                0 <= i < m1.mappings.len() implies has_account(
                m1,
                (#[trigger] m1.mappings[i]).uid,
            ) && has_credential(m1, m1.mappings[i].uid) by {
                let k = choose|k: int| 0 <= k < m.mappings.len() && m.mappings[k] == kept[i];
                assert(has_account(m, (m.mappings[k]).uid));
                assert(has_credential(m, (m.mappings[k]).uid));
            }
            assert forall|i: int|
                0 <= i < m1.accounts.len() implies uid_referenced(
                m1,
                (#[trigger] m1.accounts[i]).uid,
            ) by {
                let a = m.accounts[i];
                if a.uid == uid {
                    lemma_filter_membership(kept, p_uid, 0);
                    let e = kept.filter(p_uid)[0];
                    let j = choose|j: int| 0 <= j < kept.len() && kept[j] == e;
                    assert(m1.mappings[j].uid == uid);
                } else {
                    assert(uid_referenced(m, (m.accounts[i]).uid));
                    let k = choose|k: int|
                        0 <= k < m.mappings.len() && (#[trigger] m.mappings[k]).uid == a.uid;
                    assert(m.mappings[k] != target);
                    let j = choose|j: int| 0 <= j < kept.len() && kept[j] == m.mappings[k];
                    assert(m1.mappings[j].uid == a.uid);
                }
            }
            assert forall|i: int|
                0 <= i < m1.credentials.len() implies uid_referenced(
                m1,
                (#[trigger] m1.credentials[i]).uid,
            ) by {
                let r = m.credentials[i];
                if r.uid == uid {
                    lemma_filter_membership(kept, p_uid, 0);
                    let e = kept.filter(p_uid)[0];
                    let j = choose|j: int| 0 <= j < kept.len() && kept[j] == e;
                    assert(m1.mappings[j].uid == uid);
                } else {
                    assert(uid_referenced(m, (m.credentials[i]).uid));
                    let k = choose|k: int|
                        0 <= k < m.mappings.len() && (#[trigger] m.mappings[k]).uid == r.uid;
                    assert(m.mappings[k] != target);
                    let j = choose|j: int| 0 <= j < kept.len() && kept[j] == m.mappings[k];
                    assert(m1.mappings[j].uid == r.uid);
                }
            }
        }
    }
}

/// Submitting a code keeps the store well-formed.
pub proof fn lemma_submit_preserves_wf(m: StoreModel, code: Seq<char>)
    requires
        wf(m),
    ensures
        wf(submit_model(m, code)),
{
    if !m.codes.contains(code) {
        let m1 = submit_model(m, code);
        assert(distinct_seq(m1.codes));
        assert(account_uids(m1) == account_uids(m));
        assert(credential_uids(m1) == credential_uids(m));
        assert forall|i: int|
            0 <= i < m1.mappings.len() implies has_account(
            m1,
            (#[trigger] m1.mappings[i]).uid,
        ) && has_credential(m1, m1.mappings[i].uid) by {
            assert(has_account(m, m.mappings[i].uid));
            assert(has_credential(m, m.mappings[i].uid));
        }
    }
}

/// The reference-counting invariant, stated for every UID: in a
/// well-formed store, the account row and the credential row of a UID
/// exist exactly while the count of mapping rows for that UID is
/// positive.
pub proof fn lemma_refcount_iff(m: StoreModel, uid: Seq<char>)
    requires
        wf(m),
    ensures
        has_account(m, uid) <==> mapping_count(m, uid) > 0,
        has_credential(m, uid) <==> mapping_count(m, uid) > 0,
{
    let p = |e: MappingModel| is_uid_mapping(e, uid);
    if has_account(m, uid) {
        let w = choose|w: int|
            0 <= w < account_uids(m).len() && account_uids(m)[w] == uid;
        assert(uid_referenced(m, (m.accounts[w]).uid));
        let k = choose|k: int|
            0 <= k < m.mappings.len() && (#[trigger] m.mappings[k]).uid == uid;
        m.mappings.lemma_filter_contains(p, k);
        assert(uid_mappings(m, uid).contains(m.mappings[k]));
    }
    if has_credential(m, uid) {
        let w = choose|w: int|
            0 <= w < credential_uids(m).len() && credential_uids(m)[w] == uid;
        assert(uid_referenced(m, (m.credentials[w]).uid));
        let k = choose|k: int|
            0 <= k < m.mappings.len() && (#[trigger] m.mappings[k]).uid == uid;
        m.mappings.lemma_filter_contains(p, k);
        assert(uid_mappings(m, uid).contains(m.mappings[k]));
    }
    if mapping_count(m, uid) > 0 {
        lemma_filter_membership(m.mappings, p, 0);
        let e = uid_mappings(m, uid)[0];
        let k = choose|k: int| 0 <= k < m.mappings.len() && m.mappings[k] == e;
        assert(has_account(m, (m.mappings[k]).uid));
        assert(has_credential(m, (m.mappings[k]).uid));
    }
}

/// One mutation of the mapping graph.
pub enum StoreOp {
    Link { identity: Seq<char>, uid: Seq<char>, credential: CredentialModel },
    Unlink { identity: Seq<char>, uid: Seq<char> },
}

pub open spec fn apply_op(m: StoreModel, op: StoreOp) -> StoreModel {
    match op {
        StoreOp::Link { identity, uid, credential } => link_model(m, identity, uid, credential),
        StoreOp::Unlink { identity, uid } => unlink_model(m, identity, uid),
    }
}

pub open spec fn apply_ops(m: StoreModel, ops: Seq<StoreOp>) -> StoreModel
    decreases ops.len(),
{
    if ops.len() == 0 {
        m
    } else {
        apply_ops(apply_op(m, ops[0]), ops.drop_first())
    }
}

/// After every interleaving of link and unlink calls on a well-formed
/// store, the store is still well-formed, and at that quiescent point
/// the account and credential rows of every UID exist exactly while the
/// UID's mapping count is positive.
pub proof fn lemma_refcount_invariant_all_ops(m: StoreModel, ops: Seq<StoreOp>, uid: Seq<char>)
    requires
        wf(m),
    ensures
        wf(apply_ops(m, ops)),
        has_account(apply_ops(m, ops), uid) <==> mapping_count(apply_ops(m, ops), uid) > 0,
        has_credential(apply_ops(m, ops), uid) <==> mapping_count(apply_ops(m, ops), uid) > 0,
    decreases ops.len(),
{
    if ops.len() == 0 {
        lemma_refcount_iff(m, uid);
    } else {
        match ops[0] {
            StoreOp::Link { identity, uid: u, credential } => {
                lemma_link_preserves_wf(m, identity, u, credential);
            },
            StoreOp::Unlink { identity, uid: u } => {
                lemma_unlink_preserves_wf(m, identity, u);
            },
        }
        lemma_refcount_invariant_all_ops(apply_op(m, ops[0]), ops.drop_first(), uid);
    }
}

/// Linking the same (identity, uid) twice in a row: the second call
/// reports a duplicate mapping and changes nothing.
pub proof fn lemma_link_twice(
    m: StoreModel,
    identity: Seq<char>,
    uid: Seq<char>,
    c: CredentialModel,
)
    ensures
        link_result(link_model(m, identity, uid, c), identity, uid) == Err::<
            (),
            StoreError,
        >(StoreError::DuplicateMapping),
        link_model(link_model(m, identity, uid, c), identity, uid, c) == link_model(
            m,
            identity,
            uid,
            c,
        ),
{
    let m1 = link_model(m, identity, uid, c);
    if has_mapping(m, identity, uid) {
        assert(has_mapping(m1, identity, uid));
    } else {
        assert(m1.mappings[m.mappings.len() as int] == mapping_of(identity, uid));
        assert(has_mapping(m1, identity, uid));
    }
}

/// A completed link extends the caller's account list by exactly the
/// linked UID, and leaves every other identity's list unchanged.
pub proof fn lemma_link_extends_list(
    m: StoreModel,
    identity: Seq<char>,
    uid: Seq<char>,
    c: CredentialModel,
    other: Seq<char>,
)
    requires
        !has_mapping(m, identity, uid),
    ensures
        crate::model::linked_uids(link_model(m, identity, uid, c), identity)
            == crate::model::linked_uids(m, identity).push(uid),
        other != identity ==> crate::model::linked_uids(link_model(m, identity, uid, c), other)
            == crate::model::linked_uids(m, other),
{
    let target = mapping_of(identity, uid);
    let p = |e: MappingModel| crate::model::is_identity_mapping(e, identity);
    lemma_filter_push(m.mappings, target, p);
    lemma_map_values_push(
        m.mappings.filter(p),
        target,
        |e: MappingModel| e.uid,
    );
    if other != identity {
        let q = |e: MappingModel| crate::model::is_identity_mapping(e, other);
        lemma_filter_push(m.mappings, target, q);
    }
}

/// Unlinking a pair that is not mapped: the call reports `NotLinked`
/// and changes nothing.
pub proof fn lemma_unlink_not_linked(m: StoreModel, identity: Seq<char>, uid: Seq<char>)
    requires
        !has_mapping(m, identity, uid),
    ensures
        unlink_result(m, identity, uid) == Err::<(), StoreError>(StoreError::NotLinked),
        unlink_model(m, identity, uid) == m,
{
}

/// Two identities link the same UID, then unlink in turn: after the
/// first unlink the shared account and credential rows still exist,
/// with exactly one reference left; after the second unlink both rows
/// are gone.
pub proof fn lemma_shared_credential_lifecycle(
    m: StoreModel,
    a: Seq<char>,
    b: Seq<char>,
    uid: Seq<char>,
    c: CredentialModel,
)
    requires
        wf(m),
        a != b,
        mapping_count(m, uid) == 0,
    ensures
        ({
            let m1 = link_model(m, a, uid, c);
            let m2 = link_model(m1, b, uid, c);
            let m3 = unlink_model(m2, a, uid);
            let m4 = unlink_model(m3, b, uid);
            &&& has_account(m3, uid)
            &&& has_credential(m3, uid)
            &&& mapping_count(m3, uid) == 1
            &&& !has_account(m4, uid)
            &&& !has_credential(m4, uid)
            &&& mapping_count(m4, uid) == 0
        }),
{
    let p_uid = |e: MappingModel| is_uid_mapping(e, uid);
    lemma_filter_empty_iff(m.mappings, p_uid);
    assert(forall|i: int| 0 <= i < m.mappings.len() ==> (#[trigger] m.mappings[i]).uid != uid);
    lemma_refcount_iff(m, uid);

    let ra = mapping_of(a, uid);
    let rb = mapping_of(b, uid);
    assert(!has_mapping(m, a, uid)) by {
        if m.mappings.contains(ra) {
            let k = choose|k: int| 0 <= k < m.mappings.len() && m.mappings[k] == ra;
            assert((m.mappings[k]).uid == uid);
        }
    }
    let m1 = link_model(m, a, uid, c);
    assert(m1.mappings == m.mappings.push(ra));
    assert(m1.accounts == m.accounts.push(AccountModel { uid, auto_claim: false }));
    assert(m1.credentials == m.credentials.push(CredentialRowModel { uid, fields: c }));

    assert(!has_mapping(m1, b, uid)) by {
        if m1.mappings.contains(rb) {
            let k = choose|k: int| 0 <= k < m1.mappings.len() && m1.mappings[k] == rb;
            if k < m.mappings.len() {
                assert((m.mappings[k]).uid == uid);
            }
        }
    }
    assert(account_uids(m1)[m.accounts.len() as int] == uid);
    assert(has_account(m1, uid));
    assert(credential_uids(m1)[m.credentials.len() as int] == uid);
    assert(has_credential(m1, uid));

    let m2 = link_model(m1, b, uid, c);
    assert(m2.accounts == m1.accounts);
    assert(m2.credentials == m1.credentials);
    assert(m2.mappings == m.mappings.push(ra).push(rb));

    assert(m2.mappings[m.mappings.len() as int] == ra);
    assert(has_mapping(m2, a, uid));
    let pk_a = |e: MappingModel| survives_unlink(e, a, uid);
    lemma_filter_push(m.mappings.push(ra), rb, pk_a);
    lemma_filter_push(m.mappings, ra, pk_a);
    lemma_filter_all(m.mappings, pk_a);
    let kept1 = m2.mappings.filter(pk_a);
    assert(kept1 == m.mappings.push(rb));
    lemma_filter_push(m.mappings, rb, p_uid);
    assert(uid_mappings(m, uid).len() == 0);
    assert(m.mappings.filter(p_uid) =~= Seq::<MappingModel>::empty());
    assert(kept1.filter(p_uid).len() == 1);

    let m3 = unlink_model(m2, a, uid);
    assert(m3.accounts == m2.accounts);
    assert(m3.credentials == m2.credentials);
    assert(m3.mappings == kept1);
    assert(has_account(m3, uid));
    assert(has_credential(m3, uid));
    assert(mapping_count(m3, uid) == 1);

    assert(kept1[m.mappings.len() as int] == rb);
    assert(has_mapping(m3, b, uid));
    let pk_b = |e: MappingModel| survives_unlink(e, b, uid);
    lemma_filter_push(m.mappings, rb, pk_b);
    lemma_filter_all(m.mappings, pk_b);
    let kept2 = m3.mappings.filter(pk_b);
    assert(kept2 == m.mappings);
    assert(kept2.filter(p_uid).len() == 0);

    let m4 = unlink_model(m3, b, uid);
    assert(m4.mappings == kept2);
    let pa = |x: AccountModel| crate::model::account_survives(x, uid);
    assert(forall|i: int| 0 <= i < account_uids(m).len() ==> account_uids(m)[i] != uid);
    assert(forall|i: int| 0 <= i < m.accounts.len() ==> pa(#[trigger] m.accounts[i]));
    lemma_filter_push(m.accounts, AccountModel { uid, auto_claim: false }, pa);
    lemma_filter_all(m.accounts, pa);
    assert(m4.accounts == m.accounts);
    assert(!has_account(m4, uid));

    let pc = |x: CredentialRowModel| crate::model::credential_survives(x, uid);
    assert(forall|i: int| 0 <= i < credential_uids(m).len() ==> credential_uids(m)[i] != uid);
    assert(forall|i: int| 0 <= i < m.credentials.len() ==> pc(#[trigger] m.credentials[i]));
    lemma_filter_push(m.credentials, CredentialRowModel { uid, fields: c }, pc);
    lemma_filter_all(m.credentials, pc);
    assert(m4.credentials == m.credentials);
    assert(!has_credential(m4, uid));
    assert(mapping_count(m4, uid) == 0);
}

/// Submitting the same code twice: the second call reports a duplicate
/// and changes nothing, and the code table holds exactly one row for
/// the code.
pub proof fn lemma_submit_code_twice(m: StoreModel, code: Seq<char>)
    requires
        wf(m),
    ensures
        submit_result(submit_model(m, code), code) == Err::<
            (),
            StoreError,
        >(StoreError::DuplicateCode),
        submit_model(submit_model(m, code), code) == submit_model(m, code),
        crate::model::code_count(submit_model(m, code), code) == 1,
{
    let m1 = submit_model(m, code);
    let p = |c: Seq<char>| crate::model::is_code(c, code);
    if m.codes.contains(code) {
        lemma_distinct_count_one(m.codes, code, p);
    } else {
        assert(m1.codes[m.codes.len() as int] == code);
        assert(m1.codes.contains(code));
        assert(forall|i: int| 0 <= i < m.codes.len() ==> !p(m.codes[i]));
        lemma_filter_none(m.codes, p);
        lemma_filter_push(m.codes, code, p);
    }
}

/// Toggling the auto-claim flag keeps the store well-formed.
pub proof fn lemma_set_auto_claim_preserves_wf(m: StoreModel, uid: Seq<char>, enabled: bool)
    requires
        wf(m),
    ensures
        wf(set_auto_claim_model(m, uid, enabled)),
{
    let m1 = set_auto_claim_model(m, uid, enabled);
    assert(account_uids(m1) =~= account_uids(m));
    assert forall|i: int|
        0 <= i < m1.mappings.len() implies has_account(m1, (#[trigger] m1.mappings[i]).uid)
        && has_credential(m1, m1.mappings[i].uid) by {
        assert(has_account(m, m.mappings[i].uid));
        assert(has_credential(m, m.mappings[i].uid));
    }
    assert forall|i: int|
        0 <= i < m1.accounts.len() implies uid_referenced(
        m1,
        (#[trigger] m1.accounts[i]).uid,
    ) by {
        assert(m1.accounts[i].uid == m.accounts[i].uid);
        assert(uid_referenced(m, m.accounts[i].uid));
        let k = choose|k: int|
            0 <= k < m.mappings.len() && (#[trigger] m.mappings[k]).uid == m.accounts[i].uid;
        assert(m1.mappings[k].uid == m1.accounts[i].uid);
    }
}

} // verus!
