//! Mathematical model of the credential store.
//!
//! Four relations mirror the persisted state: game accounts (with the
//! auto-claim flag), credentials (one per account), identity-to-account
//! mappings, and redemption codes. The transition functions here are the
//! single source of truth for what each store operation does; the
//! executable store proves that it matches them, and the laws in
//! `crate::laws` are proved about them.

use vstd::prelude::*;

use crate::seq_facts::distinct_seq;

verus! {

/// Spec-level image of the decomposed credential fields.
pub struct CredentialModel {
    pub ltuid: Seq<char>,
    pub ltoken: Seq<char>,
    pub cookie_token: Seq<char>,
    pub account_id: Seq<char>,
    pub lang: Seq<char>,
}

/// One game account row: its UID and the auto-claim opt-in flag.
pub struct AccountModel {
    pub uid: Seq<char>,
    pub auto_claim: bool,
}

/// One credential row, keyed by the UID of the account it belongs to.
pub struct CredentialRowModel {
    pub uid: Seq<char>,
    pub fields: CredentialModel,
}

/// One identity-to-account mapping row.
pub struct MappingModel {
    pub identity: Seq<char>,
    pub uid: Seq<char>,
}

/// The whole persisted state.
pub struct StoreModel {
    pub accounts: Seq<AccountModel>,
    pub credentials: Seq<CredentialRowModel>,
    pub mappings: Seq<MappingModel>,
    pub codes: Seq<Seq<char>>,
}

/// Errors of the store operations, reported to the user and recoverable.
#[derive(Clone, Copy, PartialEq, Eq, Structural, Debug)]
pub enum StoreError {
    /// The (identity, uid) mapping already exists.
    DuplicateMapping,
    /// No mapping exists for the given (identity, uid) pair.
    NotLinked,
    /// The redemption code was already submitted.
    DuplicateCode,
    /// The underlying persistence write failed on a race. The verified
    /// in-memory store never produces it; an unverified persistence
    /// layer may.
    Conflict,
}

pub open spec fn mapping_of(identity: Seq<char>, uid: Seq<char>) -> MappingModel {
    MappingModel { identity, uid }
}

/// Does this mapping row reference the given account?
pub open spec fn is_uid_mapping(e: MappingModel, uid: Seq<char>) -> bool {
    e.uid == uid
}

/// Does this mapping row belong to the given identity?
pub open spec fn is_identity_mapping(e: MappingModel, identity: Seq<char>) -> bool {
    e.identity == identity
}

/// Does this mapping row survive deleting the (identity, uid) mapping?
pub open spec fn survives_unlink(e: MappingModel, identity: Seq<char>, uid: Seq<char>) -> bool {
    e != mapping_of(identity, uid)
}

/// Does this account row survive deleting the given account?
pub open spec fn account_survives(a: AccountModel, uid: Seq<char>) -> bool {
    a.uid != uid
}

/// Does this credential row survive deleting the given account?
pub open spec fn credential_survives(r: CredentialRowModel, uid: Seq<char>) -> bool {
    r.uid != uid
}

/// Is this credential row the one of the given account?
pub open spec fn is_credential_row(r: CredentialRowModel, uid: Seq<char>) -> bool {
    r.uid == uid
}

/// Has this account opted into auto-claim?
pub open spec fn is_opted(a: AccountModel) -> bool {
    a.auto_claim
}

/// Does the mapping row for (identity, uid) exist?
pub open spec fn has_mapping(m: StoreModel, identity: Seq<char>, uid: Seq<char>) -> bool {
    m.mappings.contains(mapping_of(identity, uid))
}

/// All mapping rows that reference the given account.
pub open spec fn uid_mappings(m: StoreModel, uid: Seq<char>) -> Seq<MappingModel> {
    m.mappings.filter(|e: MappingModel| is_uid_mapping(e, uid))
}

/// The reference count of an account: how many mapping rows point at it.
pub open spec fn mapping_count(m: StoreModel, uid: Seq<char>) -> nat {
    uid_mappings(m, uid).len()
}

/// All mapping rows of one identity.
pub open spec fn identity_mappings(m: StoreModel, identity: Seq<char>) -> Seq<MappingModel> {
    m.mappings.filter(|e: MappingModel| is_identity_mapping(e, identity))
}

/// The UIDs an identity can see, in mapping order.
pub open spec fn linked_uids(m: StoreModel, identity: Seq<char>) -> Seq<Seq<char>> {
    identity_mappings(m, identity).map_values(|e: MappingModel| e.uid)
}

pub open spec fn account_uids(m: StoreModel) -> Seq<Seq<char>> {
    m.accounts.map_values(|a: AccountModel| a.uid)
}

pub open spec fn has_account(m: StoreModel, uid: Seq<char>) -> bool {
    account_uids(m).contains(uid)
}

pub open spec fn credential_uids(m: StoreModel) -> Seq<Seq<char>> {
    m.credentials.map_values(|r: CredentialRowModel| r.uid)
}

pub open spec fn has_credential(m: StoreModel, uid: Seq<char>) -> bool {
    credential_uids(m).contains(uid)
}

/// Is some mapping row present for the given UID?
pub open spec fn uid_referenced(m: StoreModel, uid: Seq<char>) -> bool {
    exists|i: int| 0 <= i < m.mappings.len() && (#[trigger] m.mappings[i]).uid == uid
}

/// The same state with the mapping relation replaced.
pub open spec fn with_mappings(m: StoreModel, mappings: Seq<MappingModel>) -> StoreModel {
    StoreModel { accounts: m.accounts, credentials: m.credentials, mappings, codes: m.codes }
}

/// Well-formedness: keys are unique, and account and credential rows
/// exist exactly for the UIDs that some mapping references.
pub open spec fn wf(m: StoreModel) -> bool {
    &&& distinct_seq(account_uids(m))
    &&& distinct_seq(credential_uids(m))
    &&& distinct_seq(m.mappings)
    &&& distinct_seq(m.codes)
    &&& forall|i: int| 0 <= i < m.mappings.len() ==> has_account(m, (#[trigger] m.mappings[i]).uid)
    &&& forall|i: int|
        0 <= i < m.mappings.len() ==> has_credential(m, (#[trigger] m.mappings[i]).uid)
    &&& forall|i: int| 0 <= i < m.accounts.len() ==> uid_referenced(m, (#[trigger] m.accounts[i]).uid)
    &&& forall|i: int|
        0 <= i < m.credentials.len() ==> uid_referenced(m, (#[trigger] m.credentials[i]).uid)
}

/// The state after `linkAccount(identity, uid, c)`. Creates the account
/// and credential rows on the first link of this UID, and always creates
/// the mapping row; a duplicate mapping leaves the state unchanged.
pub open spec fn link_model(
    m: StoreModel,
    identity: Seq<char>,
    uid: Seq<char>,
    c: CredentialModel,
) -> StoreModel {
    if has_mapping(m, identity, uid) {
        m
    } else {
        StoreModel {
            accounts: if has_account(m, uid) {
                m.accounts
            } else {
                m.accounts.push(AccountModel { uid, auto_claim: false })
            },
            credentials: if has_credential(m, uid) {
                m.credentials
            } else {
                m.credentials.push(CredentialRowModel { uid, fields: c })
            },
            mappings: m.mappings.push(mapping_of(identity, uid)),
            codes: m.codes,
        }
    }
}

/// The result of `linkAccount(identity, uid, c)`.
pub open spec fn link_result(m: StoreModel, identity: Seq<char>, uid: Seq<char>) -> Result<
    (),
    StoreError,
> {
    if has_mapping(m, identity, uid) {
        Err(StoreError::DuplicateMapping)
    } else {
        Ok(())
    }
}

/// The state after `unlinkAccount(identity, uid)`. Deletes the mapping
/// row; when it was the last reference, deletes the account and
/// credential rows with it.
pub open spec fn unlink_model(m: StoreModel, identity: Seq<char>, uid: Seq<char>) -> StoreModel {
    if !has_mapping(m, identity, uid) {
        m
    } else {
        let kept = m.mappings.filter(|e: MappingModel| survives_unlink(e, identity, uid));
        if kept.filter(|e: MappingModel| is_uid_mapping(e, uid)).len() == 0 {
            StoreModel {
                accounts: m.accounts.filter(|a: AccountModel| account_survives(a, uid)),
                credentials: m.credentials.filter(|r: CredentialRowModel| credential_survives(r, uid)),
                mappings: kept,
                codes: m.codes,
            }
        } else {
            StoreModel { accounts: m.accounts, credentials: m.credentials, mappings: kept, codes: m.codes }
        }
    }
}

/// The result of `unlinkAccount(identity, uid)`.
pub open spec fn unlink_result(m: StoreModel, identity: Seq<char>, uid: Seq<char>) -> Result<
    (),
    StoreError,
> {
    if has_mapping(m, identity, uid) {
        Ok(())
    } else {
        Err(StoreError::NotLinked)
    }
}

/// The state after `submitCode(code)`: inserts the code unless present.
pub open spec fn submit_model(m: StoreModel, code: Seq<char>) -> StoreModel {
    if m.codes.contains(code) {
        m
    } else {
        StoreModel {
            accounts: m.accounts,
            credentials: m.credentials,
            mappings: m.mappings,
            codes: m.codes.push(code),
        }
    }
}

/// The result of `submitCode(code)`.
pub open spec fn submit_result(m: StoreModel, code: Seq<char>) -> Result<(), StoreError> {
    if m.codes.contains(code) {
        Err(StoreError::DuplicateCode)
    } else {
        Ok(())
    }
}

/// Is this stored code the given one?
pub open spec fn is_code(c: Seq<char>, code: Seq<char>) -> bool {
    c == code
}

/// How many stored codes equal the given one.
pub open spec fn code_count(m: StoreModel, code: Seq<char>) -> nat {
    m.codes.filter(|c: Seq<char>| is_code(c, code)).len()
}

/// One account row after toggling the flag of the given UID.
pub open spec fn toggled(a: AccountModel, uid: Seq<char>, enabled: bool) -> AccountModel {
    if a.uid == uid {
        AccountModel { uid: a.uid, auto_claim: enabled }
    } else {
        a
    }
}

/// The state after toggling the auto-claim flag of one account.
pub open spec fn set_auto_claim_model(m: StoreModel, uid: Seq<char>, enabled: bool) -> StoreModel {
    StoreModel {
        accounts: m.accounts.map_values(|a: AccountModel| toggled(a, uid, enabled)),
        credentials: m.credentials,
        mappings: m.mappings,
        codes: m.codes,
    }
}

/// The result of toggling the auto-claim flag: fails when the UID has no
/// account row.
pub open spec fn set_auto_claim_result(m: StoreModel, uid: Seq<char>) -> Result<(), StoreError> {
    if has_account(m, uid) {
        Ok(())
    } else {
        Err(StoreError::NotLinked)
    }
}

/// The accounts opted into auto-claim, in account order.
pub open spec fn opted_accounts(m: StoreModel) -> Seq<AccountModel> {
    m.accounts.filter(|a: AccountModel| is_opted(a))
}

/// The identities mapped to one account, in mapping order.
pub open spec fn identities_for(m: StoreModel, uid: Seq<char>) -> Seq<Seq<char>> {
    uid_mappings(m, uid).map_values(|e: MappingModel| e.identity)
}

/// The credential fields stored for one account.
pub open spec fn credential_for(m: StoreModel, uid: Seq<char>) -> CredentialModel {
    m.credentials.filter(|r: CredentialRowModel| is_credential_row(r, uid))[0].fields
}

/// The same state with the account relation replaced.
pub open spec fn with_accounts(m: StoreModel, accounts: Seq<AccountModel>) -> StoreModel {
    StoreModel { accounts, credentials: m.credentials, mappings: m.mappings, codes: m.codes }
}

/// One entry of the broadcast query: an opted-in account, its
/// credential, and every identity mapped to it.
pub struct OptedModel {
    pub uid: Seq<char>,
    pub credential: CredentialModel,
    pub identities: Seq<Seq<char>>,
}

pub open spec fn opted_entry(m: StoreModel, a: AccountModel) -> OptedModel {
    OptedModel {
        uid: a.uid,
        credential: credential_for(m, a.uid),
        identities: identities_for(m, a.uid),
    }
}

/// What `accountsOptedForAutoClaim` returns: every auto-claim account
/// with its credential and identity set, in account order.
pub open spec fn opted_model(m: StoreModel) -> Seq<OptedModel> {
    opted_accounts(m).map_values(|a: AccountModel| opted_entry(m, a))
}

/// One claim target of one identity: a linked account and the
/// credential to act with.
pub struct ClaimTargetModel {
    pub uid: Seq<char>,
    pub credential: CredentialModel,
}

pub open spec fn claim_target_entry(m: StoreModel, uid: Seq<char>) -> ClaimTargetModel {
    ClaimTargetModel { uid, credential: credential_for(m, uid) }
}

/// The claim targets of one identity, in mapping order.
pub open spec fn claim_targets(m: StoreModel, identity: Seq<char>) -> Seq<ClaimTargetModel> {
    linked_uids(m, identity).map_values(|u: Seq<char>| claim_target_entry(m, u))
}

} // verus!
