//! The credential store: the only owner of the persisted relations.
//!
//! Every operation is total over its inputs, mutates the state in one
//! step, and is proved equal to the corresponding transition function of
//! `crate::model`, so the reference-counting invariant survives every
//! interleaving of calls.

use vstd::prelude::*;

use crate::model::{
    account_survives, account_uids, credential_for, credential_survives, credential_uids,
    has_account, has_credential, has_mapping, identities_for, identity_mappings,
    is_credential_row, is_identity_mapping, is_opted, is_uid_mapping, linked_uids, link_model,
    link_result, mapping_count, mapping_of, opted_accounts, set_auto_claim_model,
    set_auto_claim_result, submit_model, submit_result, survives_unlink, toggled, uid_mappings,
    is_code, unlink_model, unlink_result, wf, with_accounts, with_mappings, AccountModel,
    ClaimTargetModel, CredentialModel, CredentialRowModel, MappingModel, OptedModel, StoreError,
    StoreModel,
};
use crate::model::{claim_target_entry, claim_targets, opted_entry, opted_model, uid_referenced};
use crate::seq_facts::{lemma_filter_none, lemma_filter_push};

verus! {

/// The views of a sequence of strings.
pub open spec fn string_views(v: Seq<String>) -> Seq<Seq<char>> {
    v.map_values(|s: String| s@)
}

/// Decomposed session token for one game account: the sub-tokens the
/// upstream account service needs, plus a locale.
#[derive(Debug, PartialEq, Eq)]
pub struct CredentialFields {
    pub ltuid: String,
    pub ltoken: String,
    pub cookie_token: String,
    pub account_id: String,
    pub lang: String,
}

impl View for CredentialFields {
    type V = CredentialModel;

    open spec fn view(&self) -> CredentialModel {
        CredentialModel {
            ltuid: self.ltuid@,
            ltoken: self.ltoken@,
            cookie_token: self.cookie_token@,
            account_id: self.account_id@,
            lang: self.lang@,
        }
    }
}

impl CredentialFields {
    /// A field-by-field copy with the same view.
    pub fn duplicate(&self) -> (r: Self)
        ensures
            r@ == self@,
    {
        CredentialFields {
            ltuid: self.ltuid.clone(),
            ltoken: self.ltoken.clone(),
            cookie_token: self.cookie_token.clone(),
            account_id: self.account_id.clone(),
            lang: self.lang.clone(),
        }
    }
}

pub(crate) struct GameAccountRow {
    pub uid: String,
    pub auto_claim: bool,
}

impl View for GameAccountRow {
    type V = AccountModel;

    closed spec fn view(&self) -> AccountModel {
        AccountModel { uid: self.uid@, auto_claim: self.auto_claim }
    }
}

pub(crate) struct CredentialRow {
    pub uid: String,
    pub fields: CredentialFields,
}

impl View for CredentialRow {
    type V = CredentialRowModel;

    closed spec fn view(&self) -> CredentialRowModel {
        CredentialRowModel { uid: self.uid@, fields: self.fields@ }
    }
}

pub(crate) struct MappingRow {
    pub identity: String,
    pub uid: String,
}

impl View for MappingRow {
    type V = MappingModel;

    closed spec fn view(&self) -> MappingModel {
        MappingModel { identity: self.identity@, uid: self.uid@ }
    }
}

/// One entry of the broadcast query: an opted-in account, its
/// credential, and every identity mapped to it.
pub struct OptedAccount {
    pub uid: String,
    pub credential: CredentialFields,
    pub identities: Vec<String>,
}

impl View for OptedAccount {
    type V = OptedModel;

    open spec fn view(&self) -> OptedModel {
        OptedModel {
            uid: self.uid@,
            credential: self.credential@,
            identities: string_views(self.identities@),
        }
    }
}

/// One claim target of one identity: a linked account and the
/// credential to act with.
pub struct ClaimTarget {
    pub uid: String,
    pub credential: CredentialFields,
}

impl View for ClaimTarget {
    type V = ClaimTargetModel;

    open spec fn view(&self) -> ClaimTargetModel {
        ClaimTargetModel { uid: self.uid@, credential: self.credential@ }
    }
}

/// The store itself. It exclusively owns the four relations; nothing
/// else mutates them.
pub struct CredentialStore {
    accounts: Vec<GameAccountRow>,
    credentials: Vec<CredentialRow>,
    mappings: Vec<MappingRow>,
    codes: Vec<String>,
}

impl View for CredentialStore {
    type V = StoreModel;

    closed spec fn view(&self) -> StoreModel {
        StoreModel {
            accounts: self.accounts@.map_values(|a: GameAccountRow| a@),
            credentials: self.credentials@.map_values(|r: CredentialRow| r@),
            mappings: self.mappings@.map_values(|e: MappingRow| e@),
            codes: self.codes@.map_values(|c: String| c@),
        }
    }
}

impl CredentialStore {
    /// The store keeps the model well-formed at every quiescent point.
    pub open spec fn wf(&self) -> bool {
        wf(self@)
    }

    /// An empty store: no accounts, no credentials, no mappings, no
    /// codes.
    pub fn new() -> (s: Self)
        ensures
            s.wf(),
            s@ == (StoreModel {
                accounts: Seq::<AccountModel>::empty(),
                credentials: Seq::<CredentialRowModel>::empty(),
                mappings: Seq::<MappingModel>::empty(),
                codes: Seq::<Seq<char>>::empty(),
            }),
    {
        let s = CredentialStore {
            accounts: Vec::new(),
            credentials: Vec::new(),
            mappings: Vec::new(),
            codes: Vec::new(),
        };
        proof {
            assert(s@.accounts =~= Seq::<AccountModel>::empty());
            assert(s@.credentials =~= Seq::<CredentialRowModel>::empty());
            assert(s@.mappings =~= Seq::<MappingModel>::empty());
            assert(s@.codes =~= Seq::<Seq<char>>::empty());
        }
        s
    }

    /// Is the (identity, uid) mapping present?
    pub fn contains_mapping(&self, identity: &String, uid: &String) -> (b: bool)
        ensures
            b == has_mapping(self@, identity@, uid@),
    {
        let ghost target = mapping_of(identity@, uid@);
        let mut j: usize = 0;
        while j < self.mappings.len()
            invariant
                j <= self.mappings.len(),
                target == mapping_of(identity@, uid@),
                forall|k: int| 0 <= k < j ==> self@.mappings[k] != target,
            decreases self.mappings.len() - j,
        {
            let row = &self.mappings[j];
            if row.identity == *identity && row.uid == *uid {
                proof {
                    assert(self@.mappings[j as int] == target);
                }
                return true;
            }
            j += 1;
        }
        proof {
            assert(forall|k: int| 0 <= k < self@.mappings.len() ==> self@.mappings[k] != target);
        }
        false
    }

    /// The number of mapping rows of one identity.
    pub fn count_mappings(&self, identity: &String) -> (n: usize)
        ensures
            n == identity_mappings(self@, identity@).len(),
    {
        let mm = Ghost(self@.mappings);
        let mut n: usize = 0;
        let mut j: usize = 0;
        while j < self.mappings.len()
            invariant
                j <= self.mappings.len(),
                n <= j,
                mm@ == self@.mappings,
                n == identity_mappings(with_mappings(self@, mm@.take(j as int)), identity@).len(),
            decreases self.mappings.len() - j,
        {
            let ghost pred = |e: MappingModel| is_identity_mapping(e, identity@);
            proof {
                assert(mm@.take(j as int + 1) =~= mm@.take(j as int).push(mm@[j as int]));
                lemma_filter_push(mm@.take(j as int), mm@[j as int], pred);
            }
            let row = &self.mappings[j];
            if row.identity == *identity {
                n += 1;
            }
            j += 1;
        }
        proof {
            assert(mm@.take(self.mappings@.len() as int) =~= mm@);
        }
        n
    }

    /// Is an account row for this UID present?
    fn has_account_row(&self, uid: &String) -> (b: bool)
        ensures
            b == has_account(self@, uid@),
    {
        let mut j: usize = 0;
        while j < self.accounts.len()
            invariant
                j <= self.accounts.len(),
                forall|k: int| 0 <= k < j ==> account_uids(self@)[k] != uid@,
            decreases self.accounts.len() - j,
        {
            let row = &self.accounts[j];
            if row.uid == *uid {
                proof {
                    assert(account_uids(self@)[j as int] == uid@);
                }
                return true;
            }
            j += 1;
        }
        false
    }

    /// Is a credential row for this UID present?
    fn has_credential_row(&self, uid: &String) -> (b: bool)
        ensures
            b == has_credential(self@, uid@),
    {
        let mut j: usize = 0;
        while j < self.credentials.len()
            invariant
                j <= self.credentials.len(),
                forall|k: int| 0 <= k < j ==> credential_uids(self@)[k] != uid@,
            decreases self.credentials.len() - j,
        {
            let row = &self.credentials[j];
            if row.uid == *uid {
                proof {
                    assert(credential_uids(self@)[j as int] == uid@);
                }
                return true;
            }
            j += 1;
        }
        false
    }

    /// Is this redemption code already stored?
    pub fn contains_code(&self, code: &String) -> (b: bool)
        ensures
            b == self@.codes.contains(code@),
    {
        let mut j: usize = 0;
        while j < self.codes.len()
            invariant
                j <= self.codes.len(),
                forall|k: int| 0 <= k < j ==> self@.codes[k] != code@,
            decreases self.codes.len() - j,
        {
            if self.codes[j] == *code {
                proof {
                    assert(self@.codes[j as int] == code@);
                }
                return true;
            }
            j += 1;
        }
        false
    }

    /// The number of stored code rows equal to the given code.
    pub fn code_rows(&self, code: &String) -> (n: usize)
        ensures
            n == crate::model::code_count(self@, code@),
    {
        let cc = Ghost(self@.codes);
        let mut n: usize = 0;
        let mut j: usize = 0;
        while j < self.codes.len()
            invariant
                j <= self.codes.len(),
                n <= j,
                cc@ == self@.codes,
                n == cc@.take(j as int).filter(|c: Seq<char>| is_code(c, code@)).len(),
            decreases self.codes.len() - j,
        {
            let ghost pred = |c: Seq<char>| is_code(c, code@);
            proof {
                assert(cc@.take(j as int + 1) =~= cc@.take(j as int).push(cc@[j as int]));
                lemma_filter_push(cc@.take(j as int), cc@[j as int], pred);
            }
            if self.codes[j] == *code {
                n += 1;
            }
            j += 1;
        }
        proof {
            assert(cc@.take(self.codes@.len() as int) =~= cc@);
        }
        n
    }

    /// The number of mapping rows that reference one account.
    fn count_uid_mappings(&self, uid: &String) -> (n: usize)
        ensures
            n == mapping_count(self@, uid@),
    {
        let mm = Ghost(self@.mappings);
        let mut n: usize = 0;
        let mut j: usize = 0;
        while j < self.mappings.len()
            invariant
                j <= self.mappings.len(),
                n <= j,
                mm@ == self@.mappings,
                n == uid_mappings(with_mappings(self@, mm@.take(j as int)), uid@).len(),
            decreases self.mappings.len() - j,
        {
            let ghost pred = |e: MappingModel| is_uid_mapping(e, uid@);
            proof {
                assert(mm@.take(j as int + 1) =~= mm@.take(j as int).push(mm@[j as int]));
                lemma_filter_push(mm@.take(j as int), mm@[j as int], pred);
            }
            let row = &self.mappings[j];
            if row.uid == *uid {
                n += 1;
            }
            j += 1;
        }
        proof {
            assert(mm@.take(self.mappings@.len() as int) =~= mm@);
        }
        n
    }

    /// `linkAccount`: creates the account and credential rows on the
    /// first link of a UID, and always creates the mapping row. A
    /// duplicate (identity, uid) mapping is refused and nothing changes.
    pub fn link_account(&mut self, identity: &String, uid: &String, credential: &CredentialFields)
        -> (r: Result<(), StoreError>)
        requires
            old(self).wf(),
        ensures
            final(self).wf(),
            final(self)@ == link_model(old(self)@, identity@, uid@, credential@),
            r == link_result(old(self)@, identity@, uid@),
    {
        let ghost m0 = self@;
        if self.contains_mapping(identity, uid) {
            return Err(StoreError::DuplicateMapping);
        }
        if !self.has_account_row(uid) {
            self.accounts.push(GameAccountRow { uid: uid.clone(), auto_claim: false });
            proof {
                assert(self@.accounts =~= m0.accounts.push(
                    AccountModel { uid: uid@, auto_claim: false },
                ));
                assert(self@.credentials =~= m0.credentials);
                assert(self@.mappings =~= m0.mappings);
                assert(self@.codes =~= m0.codes);
            }
        }
        if !self.has_credential_row(uid) {
            proof {
                assert(has_credential(self@, uid@) == has_credential(m0, uid@));
            }
            self.credentials.push(
                CredentialRow { uid: uid.clone(), fields: credential.duplicate() },
            );
            proof {
                assert(self@.credentials =~= m0.credentials.push(
                    CredentialRowModel { uid: uid@, fields: credential@ },
                ));
            }
        }
        self.mappings.push(MappingRow { identity: identity.clone(), uid: uid.clone() });
        proof {
            assert(self@.mappings =~= m0.mappings.push(mapping_of(identity@, uid@)));
            assert(self@.accounts == link_model(m0, identity@, uid@, credential@).accounts);
            assert(self@.credentials == link_model(m0, identity@, uid@, credential@).credentials);
            assert(self@.codes =~= m0.codes);
            assert(self@ == link_model(m0, identity@, uid@, credential@));
            crate::laws::lemma_link_preserves_wf(m0, identity@, uid@, credential@);
        }
        Ok(())
    }

    /// `unlinkAccount`: deletes the (identity, uid) mapping row; when it
    /// was the last reference to the account, deletes the account and
    /// credential rows in the same step. A missing mapping is refused
    /// and nothing changes.
    pub fn unlink_account(&mut self, identity: &String, uid: &String) -> (r: Result<
        (),
        StoreError,
    >)
        requires
            old(self).wf(),
        ensures
            final(self).wf(),
            final(self)@ == unlink_model(old(self)@, identity@, uid@),
            r == unlink_result(old(self)@, identity@, uid@),
    {
        let ghost m0 = self@;
        if !self.contains_mapping(identity, uid) {
            return Err(StoreError::NotLinked);
        }
        let mut kept_rows: Vec<MappingRow> = Vec::new();
        let mut j: usize = 0;
        proof {
            assert(kept_rows@.map_values(|e: MappingRow| e@) =~= Seq::<MappingModel>::empty());
            assert(m0.mappings.take(0) =~= Seq::<MappingModel>::empty());
            lemma_filter_none(
                m0.mappings.take(0),
                |e: MappingModel| survives_unlink(e, identity@, uid@),
            );
        }
        while j < self.mappings.len()
            invariant
                j <= self.mappings.len(),
                self@ == m0,
                kept_rows@.map_values(|e: MappingRow| e@) == m0.mappings.take(j as int).filter(
                    |e: MappingModel| survives_unlink(e, identity@, uid@),
                ),
            decreases self.mappings.len() - j,
        {
            proof {
                assert(m0.mappings.take(j as int + 1) =~= m0.mappings.take(j as int).push(
                    m0.mappings[j as int],
                ));
                lemma_filter_push(
                    m0.mappings.take(j as int),
                    m0.mappings[j as int],
                    |e: MappingModel| survives_unlink(e, identity@, uid@),
                );
            }
            let row = &self.mappings[j];
            if !(row.identity == *identity && row.uid == *uid) {
                let ghost before = kept_rows@.map_values(|e: MappingRow| e@);
                kept_rows.push(MappingRow { identity: row.identity.clone(), uid: row.uid.clone() });
                proof {
                    assert(kept_rows@.map_values(|e: MappingRow| e@) =~= before.push(
                        m0.mappings[j as int],
                    ));
                }
            }
            j += 1;
        }
        self.mappings = kept_rows;
        proof {
            assert(m0.mappings.take(m0.mappings.len() as int) =~= m0.mappings);
            assert(self@.accounts =~= m0.accounts);
            assert(self@.credentials =~= m0.credentials);
            assert(self@.codes =~= m0.codes);
        }
        let remaining = self.count_uid_mappings(uid);
        if remaining == 0 {
            let ghost ma = self@;
            let mut kept_accounts: Vec<GameAccountRow> = Vec::new();
            let mut ja: usize = 0;
            proof {
                assert(kept_accounts@.map_values(|a: GameAccountRow| a@) =~= Seq::<
                    AccountModel,
                >::empty());
                assert(m0.accounts.take(0) =~= Seq::<AccountModel>::empty());
                lemma_filter_none(
                    m0.accounts.take(0),
                    |a: AccountModel| account_survives(a, uid@),
                );
            }
            while ja < self.accounts.len()
                invariant
                    ja <= self.accounts.len(),
                    self@ == ma,
                    ma.accounts == m0.accounts,
                    kept_accounts@.map_values(|a: GameAccountRow| a@) == m0.accounts.take(
                        ja as int,
                    ).filter(|a: AccountModel| account_survives(a, uid@)),
                decreases self.accounts.len() - ja,
            {
                proof {
                    assert(m0.accounts.take(ja as int + 1) =~= m0.accounts.take(ja as int).push(
                        m0.accounts[ja as int],
                    ));
                    lemma_filter_push(
                        m0.accounts.take(ja as int),
                        m0.accounts[ja as int],
                        |a: AccountModel| account_survives(a, uid@),
                    );
                }
                let row = &self.accounts[ja];
                if !(row.uid == *uid) {
                    let ghost before = kept_accounts@.map_values(|a: GameAccountRow| a@);
                    kept_accounts.push(
                        GameAccountRow { uid: row.uid.clone(), auto_claim: row.auto_claim },
                    );
                    proof {
                        assert(kept_accounts@.map_values(|a: GameAccountRow| a@) =~= before.push(
                            m0.accounts[ja as int],
                        ));
                    }
                }
                ja += 1;
            }
            self.accounts = kept_accounts;
            let mut kept_credentials: Vec<CredentialRow> = Vec::new();
            let ghost mb = self@;
            let mut jc: usize = 0;
            proof {
                assert(m0.accounts.take(m0.accounts.len() as int) =~= m0.accounts);
                assert(kept_credentials@.map_values(|r: CredentialRow| r@) =~= Seq::<
                    CredentialRowModel,
                >::empty());
                assert(m0.credentials.take(0) =~= Seq::<CredentialRowModel>::empty());
                lemma_filter_none(
                    m0.credentials.take(0),
                    |r: CredentialRowModel| credential_survives(r, uid@),
                );
            }
            while jc < self.credentials.len()
                invariant
                    jc <= self.credentials.len(),
                    self@ == mb,
                    mb.credentials == m0.credentials,
                    kept_credentials@.map_values(|r: CredentialRow| r@) == m0.credentials.take(
                        jc as int,
                    ).filter(|r: CredentialRowModel| credential_survives(r, uid@)),
                decreases self.credentials.len() - jc,
            {
                proof {
                    assert(m0.credentials.take(jc as int + 1) =~= m0.credentials.take(
                        jc as int,
                    ).push(m0.credentials[jc as int]));
                    lemma_filter_push(
                        m0.credentials.take(jc as int),
                        m0.credentials[jc as int],
                        |r: CredentialRowModel| credential_survives(r, uid@),
                    );
                }
                let row = &self.credentials[jc];
                if !(row.uid == *uid) {
                    let ghost before = kept_credentials@.map_values(|r: CredentialRow| r@);
                    kept_credentials.push(
                        CredentialRow { uid: row.uid.clone(), fields: row.fields.duplicate() },
                    );
                    proof {
                        assert(kept_credentials@.map_values(|r: CredentialRow| r@) =~= before.push(
                            m0.credentials[jc as int],
                        ));
                    }
                }
                jc += 1;
            }
            self.credentials = kept_credentials;
            proof {
                assert(m0.credentials.take(m0.credentials.len() as int) =~= m0.credentials);
                assert(self@.mappings == ma.mappings);
                assert(self@.codes =~= m0.codes);
            }
        }
        proof {
            assert(self@ == unlink_model(m0, identity@, uid@));
            crate::laws::lemma_unlink_preserves_wf(m0, identity@, uid@);
        }
        Ok(())
    }

    /// Toggles the auto-claim opt-in flag of one account; refused when
    /// the UID has no account row.
    pub fn set_auto_claim(&mut self, uid: &String, enabled: bool) -> (r: Result<(), StoreError>)
        requires
            old(self).wf(),
        ensures
            final(self).wf(),
            final(self)@ == set_auto_claim_model(old(self)@, uid@, enabled),
            r == set_auto_claim_result(old(self)@, uid@),
    {
        let ghost m0 = self@;
        let mut out: Vec<GameAccountRow> = Vec::new();
        let mut found = false;
        let mut j: usize = 0;
        while j < self.accounts.len()
            invariant
                j <= self.accounts.len(),
                self@ == m0,
                out@.len() == j,
                forall|k: int|
                    0 <= k < j ==> (#[trigger] out@[k])@ == toggled(m0.accounts[k], uid@, enabled),
                found == exists|k: int|
                    0 <= k < j && (#[trigger] m0.accounts[k]).uid == uid@,
            decreases self.accounts.len() - j,
        {
            let row = &self.accounts[j];
            if row.uid == *uid {
                out.push(GameAccountRow { uid: row.uid.clone(), auto_claim: enabled });
                found = true;
                proof {
                    assert((m0.accounts[j as int]).uid == uid@);
                }
            } else {
                out.push(GameAccountRow { uid: row.uid.clone(), auto_claim: row.auto_claim });
            }
            j += 1;
        }
        self.accounts = out;
        proof {
            assert(self@.accounts =~= set_auto_claim_model(m0, uid@, enabled).accounts);
            assert(self@.credentials =~= m0.credentials);
            assert(self@.mappings =~= m0.mappings);
            assert(self@.codes =~= m0.codes);
            assert(self@ == set_auto_claim_model(m0, uid@, enabled));
            crate::laws::lemma_set_auto_claim_preserves_wf(m0, uid@, enabled);
            if found {
                let k = choose|k: int|
                    0 <= k < m0.accounts.len() && (#[trigger] m0.accounts[k]).uid == uid@;
                assert(account_uids(m0)[k] == uid@);
            } else {
                if has_account(m0, uid@) {
                    let k = choose|k: int|
                        0 <= k < account_uids(m0).len() && account_uids(m0)[k] == uid@;
                    assert((m0.accounts[k]).uid == uid@);
                }
            }
        }
        if found {
            Ok(())
        } else {
            Err(StoreError::NotLinked)
        }
    }

    /// `submitCode`: inserts a new redemption code; a code already in
    /// the table is refused and nothing changes.
    pub fn submit_code(&mut self, code: &String) -> (r: Result<(), StoreError>)
        requires
            old(self).wf(),
        ensures
            final(self).wf(),
            final(self)@ == submit_model(old(self)@, code@),
            r == submit_result(old(self)@, code@),
    {
        let ghost m0 = self@;
        if self.contains_code(code) {
            return Err(StoreError::DuplicateCode);
        }
        self.codes.push(code.clone());
        proof {
            assert(self@.codes =~= m0.codes.push(code@));
            assert(self@.accounts =~= m0.accounts);
            assert(self@.credentials =~= m0.credentials);
            assert(self@.mappings =~= m0.mappings);
            assert(self@ == submit_model(m0, code@));
            crate::laws::lemma_submit_preserves_wf(m0, code@);
        }
        Ok(())
    }

    /// The stored credential of one account, by UID.
    fn credential_fields(&self, uid: &String) -> (c: CredentialFields)
        requires
            has_credential(self@, uid@),
        ensures
            c@ == credential_for(self@, uid@),
    {
        let ghost cc = self@.credentials;
        let ghost pred = |r: CredentialRowModel| is_credential_row(r, uid@);
        let mut j: usize = 0;
        while j < self.credentials.len()
            invariant
                j <= self.credentials.len(),
                cc == self@.credentials,
                pred == (|r: CredentialRowModel| is_credential_row(r, uid@)),
                forall|k: int| 0 <= k < j ==> !pred(#[trigger] cc[k]),
            decreases self.credentials.len() - j,
        {
            let row = &self.credentials[j];
            if row.uid == *uid {
                proof {
                    lemma_filter_none(cc.take(j as int), pred);
                    assert(cc.take(j as int + 1) =~= cc.take(j as int).push(cc[j as int]));
                    lemma_filter_push(cc.take(j as int), cc[j as int], pred);
                    assert(cc =~= cc.take(j as int + 1) + cc.skip(j as int + 1));
                    Seq::<CredentialRowModel>::filter_distributes_over_add(
                        cc.take(j as int + 1),
                        cc.skip(j as int + 1),
                        pred,
                    );
                    assert(cc.filter(pred)[0] == cc[j as int]);
                }
                return row.fields.duplicate();
            }
            j += 1;
        }
        proof {
            let k = choose|k: int|
                0 <= k < credential_uids(self@).len() && credential_uids(self@)[k] == uid@;
            assert(pred(cc[k]));
            assert(false);
        }
        unreached()
    }

    /// Every identity mapped to one account, in mapping order.
    fn identities_of_uid(&self, uid: &String) -> (r: Vec<String>)
        ensures
            string_views(r@) == identities_for(self@, uid@),
    {
        let mm = Ghost(self@.mappings);
        let mut out: Vec<String> = Vec::new();
        let mut j: usize = 0;
        proof {
            assert(string_views(out@) =~= Seq::<Seq<char>>::empty());
            assert(mm@.take(0) =~= Seq::<MappingModel>::empty());
            lemma_filter_none(mm@.take(0), |e: MappingModel| is_uid_mapping(e, uid@));
        }
        while j < self.mappings.len()
            invariant
                j <= self.mappings.len(),
                mm@ == self@.mappings,
                string_views(out@) == identities_for(
                    with_mappings(self@, mm@.take(j as int)),
                    uid@,
                ),
            decreases self.mappings.len() - j,
        {
            let ghost pred = |e: MappingModel| is_uid_mapping(e, uid@);
            proof {
                assert(mm@.take(j as int + 1) =~= mm@.take(j as int).push(mm@[j as int]));
                lemma_filter_push(mm@.take(j as int), mm@[j as int], pred);
            }
            let row = &self.mappings[j];
            if row.uid == *uid {
                out.push(row.identity.clone());
                proof {
                    let prev = mm@.take(j as int).filter(pred);
                    assert(prev.push(mm@[j as int]).map_values(|e: MappingModel| e.identity)
                        =~= prev.map_values(|e: MappingModel| e.identity).push(
                        mm@[j as int].identity,
                    ));
                    assert(string_views(out@) =~= identities_for(
                        with_mappings(self@, mm@.take(j as int + 1)),
                        uid@,
                    ));
                }
            }
            j += 1;
        }
        proof {
            assert(mm@.take(self.mappings@.len() as int) =~= mm@);
        }
        out
    }

    /// `accountsOptedForAutoClaim`: every account with auto-claim
    /// enabled, its credential, and every identity mapped to it.
    pub fn accounts_opted_for_auto_claim(&self) -> (r: Vec<OptedAccount>)
        requires
            self.wf(),
        ensures
            r@.map_values(|o: OptedAccount| o@) == opted_model(self@),
    {
        let ghost m0 = self@;
        let mut out: Vec<OptedAccount> = Vec::new();
        let mut j: usize = 0;
        proof {
            assert(out@.map_values(|o: OptedAccount| o@) =~= Seq::<OptedModel>::empty());
            assert(m0.accounts.take(0) =~= Seq::<AccountModel>::empty());
            lemma_filter_none(m0.accounts.take(0), |a: AccountModel| is_opted(a));
        }
        while j < self.accounts.len()
            invariant
                j <= self.accounts.len(),
                self@ == m0,
                wf(m0),
                out@.map_values(|o: OptedAccount| o@) == opted_accounts(
                    with_accounts(m0, m0.accounts.take(j as int)),
                ).map_values(|a: AccountModel| opted_entry(m0, a)),
            decreases self.accounts.len() - j,
        {
            proof {
                assert(m0.accounts.take(j as int + 1) =~= m0.accounts.take(j as int).push(
                    m0.accounts[j as int],
                ));
                lemma_filter_push(
                    m0.accounts.take(j as int),
                    m0.accounts[j as int],
                    |a: AccountModel| is_opted(a),
                );
            }
            let row = &self.accounts[j];
            if row.auto_claim {
                proof {
                    assert(uid_referenced(m0, (m0.accounts[j as int]).uid));
                    let k = choose|k: int|
                        0 <= k < m0.mappings.len() && (#[trigger] m0.mappings[k]).uid
                            == m0.accounts[j as int].uid;
                    assert(has_credential(m0, (m0.mappings[k]).uid));
                }
                let cred = self.credential_fields(&row.uid);
                let ids = self.identities_of_uid(&row.uid);
                let ghost before = out@.map_values(|o: OptedAccount| o@);
                out.push(OptedAccount { uid: row.uid.clone(), credential: cred, identities: ids });
                proof {
                    assert(out@.map_values(|o: OptedAccount| o@) =~= before.push(
                        opted_entry(m0, m0.accounts[j as int]),
                    ));
                    let prev = m0.accounts.take(j as int).filter(|a: AccountModel| is_opted(a));
                    assert(prev.push(m0.accounts[j as int]).map_values(
                        |a: AccountModel| opted_entry(m0, a),
                    ) =~= prev.map_values(|a: AccountModel| opted_entry(m0, a)).push(
                        opted_entry(m0, m0.accounts[j as int]),
                    ));
                }
            }
            j += 1;
        }
        proof {
            assert(m0.accounts.take(self.accounts@.len() as int) =~= m0.accounts);
        }
        out
    }

    /// The claim targets of one identity: each linked account with the
    /// credential to act with, in mapping order.
    pub fn linked_credentials(&self, identity: &String) -> (r: Vec<ClaimTarget>)
        requires
            self.wf(),
        ensures
            r@.map_values(|t: ClaimTarget| t@) == claim_targets(self@, identity@),
    {
        let ghost m0 = self@;
        let mm = Ghost(self@.mappings);
        let mut out: Vec<ClaimTarget> = Vec::new();
        let mut j: usize = 0;
        proof {
            assert(out@.map_values(|t: ClaimTarget| t@) =~= Seq::<ClaimTargetModel>::empty());
            assert(mm@.take(0) =~= Seq::<MappingModel>::empty());
            lemma_filter_none(mm@.take(0), |e: MappingModel| is_identity_mapping(e, identity@));
        }
        while j < self.mappings.len()
            invariant
                j <= self.mappings.len(),
                self@ == m0,
                wf(m0),
                mm@ == m0.mappings,
                out@.map_values(|t: ClaimTarget| t@) == linked_uids(
                    with_mappings(m0, mm@.take(j as int)),
                    identity@,
                ).map_values(|u: Seq<char>| claim_target_entry(m0, u)),
            decreases self.mappings.len() - j,
        {
            let ghost pred = |e: MappingModel| is_identity_mapping(e, identity@);
            proof {
                assert(mm@.take(j as int + 1) =~= mm@.take(j as int).push(mm@[j as int]));
                lemma_filter_push(mm@.take(j as int), mm@[j as int], pred);
            }
            let row = &self.mappings[j];
            if row.identity == *identity {
                proof {
                    assert(has_credential(m0, (m0.mappings[j as int]).uid));
                }
                let cred = self.credential_fields(&row.uid);
                let ghost before = out@.map_values(|t: ClaimTarget| t@);
                out.push(ClaimTarget { uid: row.uid.clone(), credential: cred });
                proof {
                    assert(out@.map_values(|t: ClaimTarget| t@) =~= before.push(
                        claim_target_entry(m0, mm@[j as int].uid),
                    ));
                    let prev = mm@.take(j as int).filter(pred);
                    assert(prev.push(mm@[j as int]).map_values(|e: MappingModel| e.uid)
                        =~= prev.map_values(|e: MappingModel| e.uid).push(mm@[j as int].uid));
                    let prevu = prev.map_values(|e: MappingModel| e.uid);
                    assert(prevu.push(mm@[j as int].uid).map_values(
                        |u: Seq<char>| claim_target_entry(m0, u),
                    ) =~= prevu.map_values(|u: Seq<char>| claim_target_entry(m0, u)).push(
                        claim_target_entry(m0, mm@[j as int].uid),
                    ));
                }
            }
            j += 1;
        }
        proof {
            assert(mm@.take(self.mappings@.len() as int) =~= mm@);
        }
        out
    }

    /// All UIDs reachable from one identity, in mapping order.
    pub fn list_accounts(&self, identity: &String) -> (r: Vec<String>)
        ensures
            string_views(r@) == linked_uids(self@, identity@),
    {
        let mm = Ghost(self@.mappings);
        let mut out: Vec<String> = Vec::new();
        let mut j: usize = 0;
        proof {
            assert(string_views(out@) =~= Seq::<Seq<char>>::empty());
            assert(mm@.take(0) =~= Seq::<MappingModel>::empty());
            lemma_filter_none(
                mm@.take(0),
                |e: MappingModel| is_identity_mapping(e, identity@),
            );
        }
        while j < self.mappings.len()
            invariant
                j <= self.mappings.len(),
                mm@ == self@.mappings,
                string_views(out@) == linked_uids(
                    with_mappings(self@, mm@.take(j as int)),
                    identity@,
                ),
            decreases self.mappings.len() - j,
        {
            let ghost pred = |e: MappingModel| is_identity_mapping(e, identity@);
            proof {
                assert(mm@.take(j as int + 1) =~= mm@.take(j as int).push(mm@[j as int]));
                lemma_filter_push(mm@.take(j as int), mm@[j as int], pred);
            }
            let row = &self.mappings[j];
            if row.identity == *identity {
                out.push(row.uid.clone());
                proof {
                    let prev = mm@.take(j as int).filter(pred);
                    assert(prev.push(mm@[j as int]).map_values(|e: MappingModel| e.uid)
                        =~= prev.map_values(|e: MappingModel| e.uid).push(mm@[j as int].uid));
                    assert(string_views(out@) =~= linked_uids(
                        with_mappings(self@, mm@.take(j as int + 1)),
                        identity@,
                    ));
                }
            }
            j += 1;
        }
        proof {
            assert(mm@.take(self.mappings@.len() as int) =~= mm@);
        }
        out
    }
}

} // verus!
