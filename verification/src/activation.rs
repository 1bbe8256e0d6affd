//! The catalog side of guarded activation transactions: what activating, deleting, adding and
//! importing do to the account catalog, and which auth.json must be published with it.
//! Locking, snapshots and publishing files are the caller's part.

use vstd::prelude::*;

use crate::catalog::{
    find_account_index, lemma_first_with_id, merge_accounts_store, name_taken,
    next_auto_account_name, spec_accepted, spec_auto_prefix, spec_candidate, spec_first_with_id,
    spec_id_present, spec_name_taken, spec_without_id, StoreError,
};
use crate::identity::{
    spec_catalog_unique, spec_validate_account, validate_catalog_credential_uniqueness,
    validate_stored_account_credentials,
};
use crate::live::{
    auth_json_for_account, reconcile_live_auth, spec_auth_json_for, spec_catalog_error,
    spec_reconciled, spec_refused, spec_resolution_matches, spec_resolve, LiveAuthError, LiveAuthFile, LiveOutcome,
    LiveAuthResolution,
};
use crate::types::{
    opt_view, same_account, AccountsStore, AuthDotJson, ImportAccountsSummary, StoredAccount,
};
use crate::live::{LiveAuthState, ReconcileOutcome};
use crate::identity::CatalogError;
use crate::text::{chars_of, parse_unsigned, spec_parse_unsigned, spec_starts_with, spec_trim, starts_with, sub_chars, trim_chars};

verus! {

/// The prefix of automatic account names given to imported and signed-in accounts.
pub const AUTO_ACCOUNT_NAME_PREFIX: &'static str = "AC";

/// Make an account active: it must exist and have usable credentials; its last-used time becomes
/// `now`. Returns the auth.json to publish for it.
pub fn activate_in_catalog(store: &mut AccountsStore, account_id: &str, now: String) -> (r: Result<
    AuthDotJson,
    StoreError,
>)
    ensures
        final(store).version == old(store).version,
        final(store).masked_account_ids == old(store).masked_account_ids,
        final(store).accounts@.len() == old(store).accounts@.len(),
        !spec_id_present(old(store).accounts@, account_id@) ==> (r matches Err(
            StoreError::AccountNotFound,
        )),
        r is Err ==> final(store).accounts@ == old(store).accounts@
            && final(store).active_account_id == old(store).active_account_id,
        spec_id_present(old(store).accounts@, account_id@) ==> {
            let k = spec_first_with_id(old(store).accounts@, account_id@);
            let a = old(store).accounts@[k];
            &&& r is Ok <==> spec_validate_account(a) is Ok
            &&& r matches Err(e) ==> (e matches StoreError::Credentials(c) && spec_validate_account(a)
                == Err::<(), crate::identity::CredentialError>(c))
            &&& r matches Ok(auth) ==> {
                &&& spec_auth_json_for(a, auth)
                &&& opt_view(final(store).active_account_id) == Some(account_id@)
                &&& forall|j: int|
                    0 <= j < old(store).accounts@.len() && j != k ==> final(store).accounts@[j]
                        == old(store).accounts@[j]
                &&& final(store).accounts@[k].last_used_at == Some(now)
                &&& crate::catalog::same_but_last_used(final(store).accounts@[k], a)
            }
        },
{
    let k = match find_account_index(&store.accounts, account_id) {
        Some(k) => k,
        None => {
            return Err(StoreError::AccountNotFound);
        },
    };
    proof {
        lemma_first_with_id(store.accounts@, account_id@, k as int);
    }
    let auth = match auth_json_for_account(&store.accounts[k]) {
        Ok(auth) => auth,
        Err(e) => {
            return Err(StoreError::Credentials(e));
        },
    };
    let mut acc = store.accounts[k].duplicate();
    acc.last_used_at = Some(now);
    store.accounts.set(k, acc);
    store.active_account_id = Some(crate::types::clone_string(&store.accounts[k].id));
    Ok(auth)
}

/// The auth.json to publish with a catalog change.
#[derive(Debug, Clone)]
pub enum DesiredAuth {
    /// Keep the live auth.json as it is.
    Preserve,
    /// Remove auth.json (the catalog became empty).
    Missing,
    /// Publish this auth.json.
    Publish(AuthDotJson),
}

/// Why a deletion is refused.
#[derive(Debug, Clone)]
pub enum DeleteError {
    Store(StoreError),
    /// No fallback was prepared but other accounts remain.
    CatalogChanged,
    /// The prepared fallback account is no longer in the catalog.
    FallbackGone,
}

/// The text a refused deletion of the account with id `account_id` is reported with.
pub open spec fn spec_delete_error_message(e: DeleteError, account_id: Seq<char>) -> Seq<char> {
    match e {
        DeleteError::Store(s) => crate::catalog::spec_store_error_message(s, account_id, account_id),
        DeleteError::CatalogChanged => "The account catalog changed while preparing the fallback account"@,
        DeleteError::FallbackGone => "The prepared fallback account is no longer available"@,
    }
}

impl DeleteError {
    /// The text the error is reported with, for a deletion of the account with id `account_id`.
    pub fn message(&self, account_id: &str) -> (r: String)
        ensures
            r@ == spec_delete_error_message(*self, account_id@),
    {
        match self {
            DeleteError::Store(s) => s.message(account_id, account_id),
            DeleteError::CatalogChanged =>
                "The account catalog changed while preparing the fallback account".to_string(),
            DeleteError::FallbackGone =>
                "The prepared fallback account is no longer available".to_string(),
        }
    }
}

/// Delete an account. Deleting the active account activates the prepared fallback (its last-used
/// time becomes `now`) and publishes its auth.json; without a fallback the catalog must become
/// empty and auth.json is removed. Deleting another account keeps auth.json.
pub fn delete_in_catalog(
    store: &mut AccountsStore,
    account_id: &str,
    fallback_id: Option<&str>,
    now: String,
) -> (r: Result<DesiredAuth, DeleteError>)
    ensures
        !spec_id_present(old(store).accounts@, account_id@) ==> (r matches Err(
            DeleteError::Store(StoreError::AccountNotFound),
        )),
        r is Ok ==> spec_id_present(old(store).accounts@, account_id@),
        spec_id_present(old(store).accounts@, account_id@) ==> {
            let rest = spec_without_id(old(store).accounts@, account_id@);
            let deleting_active = opt_view(old(store).active_account_id) == Some(account_id@);
            &&& !deleting_active ==> r is Ok
            &&& (deleting_active && fallback_id is None) ==> if rest.len() == 0 {
                r is Ok
            } else {
                r matches Err(DeleteError::CatalogChanged)
            }
            &&& deleting_active ==> (fallback_id matches Some(f) ==> if !spec_id_present(
                rest,
                f@,
            ) {
                r matches Err(DeleteError::FallbackGone)
            } else {
                match spec_validate_account(rest[spec_first_with_id(rest, f@)]) {
                    Ok(()) => r is Ok,
                    Err(c) => r matches Err(DeleteError::Store(StoreError::Credentials(e))) && e
                        == c,
                }
            })
        },
        ({
            let rest = spec_without_id(old(store).accounts@, account_id@);
            let deleting_active = opt_view(old(store).active_account_id) == Some(account_id@);
            r matches Ok(d) ==> {
                &&& final(store).version == old(store).version
                &&& final(store).masked_account_ids == old(store).masked_account_ids
                &&& final(store).accounts@.len() == rest.len()
                &&& if !deleting_active {
                    &&& d is Preserve
                    &&& final(store).accounts@ == rest
                    &&& final(store).active_account_id == old(store).active_account_id
                } else if fallback_id is None {
                    &&& d is Missing
                    &&& rest.len() == 0
                    &&& final(store).accounts@ == rest
                    &&& final(store).active_account_id is None
                } else {
                    let f = fallback_id->Some_0@;
                    let k = spec_first_with_id(rest, f);
                    &&& spec_id_present(rest, f)
                    &&& d matches DesiredAuth::Publish(auth) && spec_auth_json_for(rest[k], auth)
                    &&& spec_validate_account(rest[k]) is Ok
                    &&& opt_view(final(store).active_account_id) == Some(f)
                    &&& forall|j: int|
                        0 <= j < rest.len() && j != k ==> final(store).accounts@[j] == rest[j]
                    &&& final(store).accounts@[k].last_used_at == Some(now)
                    &&& crate::catalog::same_but_last_used(final(store).accounts@[k], rest[k])
                }
            }
        }),
{
    let deleting_active = crate::types::opt_is_str(&store.active_account_id, account_id);
    let mut rest_store = AccountsStore {
        version: store.version,
        accounts: Vec::new(),
        active_account_id: None,
        masked_account_ids: Vec::new(),
    };
    std::mem::swap(&mut rest_store.accounts, &mut store.accounts);
    let r = crate::catalog::remove_account(&mut rest_store, account_id);
    std::mem::swap(&mut rest_store.accounts, &mut store.accounts);
    match r {
        Ok(()) => {},
        Err(e) => {
            return Err(DeleteError::Store(e));
        },
    }
    if !deleting_active {
        return Ok(DesiredAuth::Preserve);
    }
    let fallback = match fallback_id {
        None => {
            if store.accounts.len() > 0 {
                return Err(DeleteError::CatalogChanged);
            }
            store.active_account_id = None;
            return Ok(DesiredAuth::Missing);
        },
        Some(f) => f,
    };
    match activate_in_catalog(store, fallback, now) {
        Ok(auth) => Ok(DesiredAuth::Publish(auth)),
        Err(StoreError::AccountNotFound) => Err(DeleteError::FallbackGone),
        Err(e) => Err(DeleteError::Store(e)),
    }
}


/// Save an account in the catalog without activating it. Its credentials must be usable and its
/// id new; a taken name is refused, or replaced by the next automatic name when a prefix is
/// given. Reports whether the catalog was empty before.
pub fn persist_catalog_account(
    store: &mut AccountsStore,
    account: StoredAccount,
    auto_name_prefix: Option<&str>,
) -> (r: Result<(StoredAccount, bool), StoreError>)
    requires
        old(store).accounts@.len() < u64::MAX,
    ensures
        spec_validate_account(account) is Err ==> (r matches Err(StoreError::Credentials(_))),
        spec_validate_account(account) is Ok && spec_id_present(old(store).accounts@, account.id@)
            ==> (r matches Err(StoreError::IdTaken)),
        spec_validate_account(account) is Ok && !spec_id_present(old(store).accounts@, account.id@)
            && spec_name_taken(old(store).accounts@, account.name@) && auto_name_prefix is None
            ==> (r matches Err(StoreError::NameTaken)),
        spec_validate_account(account) is Ok && !spec_id_present(old(store).accounts@, account.id@)
            && (!spec_name_taken(old(store).accounts@, account.name@) || auto_name_prefix is Some)
            ==> {
            &&& r is Ok <==> spec_catalog_unique(old(store).accounts@.push(account))
            &&& r matches Err(e) ==> e is Catalog
        },
        r is Err ==> final(store).accounts@ == old(store).accounts@,
        r matches Ok((a, was_empty)) ==> {
            &&& was_empty == (old(store).accounts@.len() == 0)
            &&& spec_validate_account(account) is Ok
            &&& !spec_id_present(old(store).accounts@, account.id@)
            &&& a.id == account.id
            &&& a.auth_data == account.auth_data
            &&& !spec_name_taken(old(store).accounts@, a.name@)
            &&& (!spec_name_taken(old(store).accounts@, account.name@) ==> a.name == account.name)
            &&& final(store).accounts@.drop_last() == old(store).accounts@
            &&& same_account(final(store).accounts@.last(), a)
            &&& spec_catalog_unique(final(store).accounts@)
        },
        final(store).active_account_id == old(store).active_account_id,
        final(store).version == old(store).version,
{
    match validate_stored_account_credentials(&account) {
        Ok(()) => {},
        Err(e) => {
            return Err(StoreError::Credentials(e));
        },
    }
    let was_empty = store.accounts.len() == 0;
    if find_account_index(&store.accounts, account.id.as_str()).is_some() {
        return Err(StoreError::IdTaken);
    }
    let ghost orig = account;
    let mut account = account;
    if name_taken(&store.accounts, account.name.as_str()) {
        match auto_name_prefix {
            Some(prefix) => {
                account.name = next_auto_account_name(store, prefix);
                proof {
                    if spec_name_taken(old(store).accounts@, account.name@) {
                        let j = choose|j: int|
                            0 <= j < old(store).accounts@.len()
                                && (#[trigger] old(store).accounts@[j]).name@ == account.name@;
                        assert(old(store).names()[j] == account.name@);
                    }
                }
            },
            None => {
                return Err(StoreError::NameTaken);
            },
        }
    }
    let copy = account.duplicate();
    let ghost before = store.accounts@;
    store.accounts.push(account);
    proof {
        let pushed = before.push(orig);
        assert forall|i: int| 0 <= i < store.accounts@.len() implies (#[trigger] store.accounts@[i]).auth_mode
            == pushed[i].auth_mode && store.accounts@[i].auth_data == pushed[i].auth_data by {}
        crate::identity::lemma_catalog_unique_by_credentials(store.accounts@, pushed);
    }
    match validate_catalog_credential_uniqueness(store) {
        Ok(()) => {},
        Err(e) => {
            let _ = store.accounts.pop();
            assert(store.accounts@ =~= before);
            return Err(StoreError::Catalog(e));
        },
    }
    assert(store.accounts@.drop_last() =~= before);
    Ok((copy, was_empty))
}

/// Whether a catalog-only addition happened.
#[derive(Debug, Clone)]
pub enum CatalogAddOutcome {
    /// The account was added to a non-empty catalog.
    Added(StoredAccount),
    /// The catalog is empty, so the account has to be activated as it is added.
    NeedsActivation(StoredAccount),
}

/// Add an account to a non-empty catalog without activating it (a blank name gets the next
/// automatic name). An empty catalog is left alone: the account must be activated instead.
pub fn add_catalog_account_if_nonempty(
    store: &mut AccountsStore,
    account: StoredAccount,
    auto_name_prefix: &str,
) -> (r: Result<CatalogAddOutcome, StoreError>)
    requires
        old(store).accounts@.len() < u64::MAX,
    ensures
        spec_validate_account(account) is Err ==> (r matches Err(StoreError::Credentials(_))),
        spec_validate_account(account) is Ok && old(store).accounts@.len() == 0 ==> (r matches Ok(
            CatalogAddOutcome::NeedsActivation(a),
        ) && a == account),
        spec_validate_account(account) is Ok && old(store).accounts@.len() > 0 ==> {
            &&& spec_id_present(old(store).accounts@, account.id@) ==> (r matches Err(
                StoreError::IdTaken,
            ))
            &&& !spec_id_present(old(store).accounts@, account.id@) && !crate::text::spec_is_blank(
                account.name@,
            ) && spec_name_taken(old(store).accounts@, account.name@) ==> (r matches Err(
                StoreError::NameTaken,
            ))
            &&& !spec_id_present(old(store).accounts@, account.id@) && (crate::text::spec_is_blank(
                account.name@,
            ) || !spec_name_taken(old(store).accounts@, account.name@)) ==> {
                &&& (r matches Ok(CatalogAddOutcome::Added(_))) <==> spec_catalog_unique(
                    old(store).accounts@.push(account),
                )
                &&& r matches Err(e) ==> e is Catalog
            }
        },
        r is Err ==> final(store).accounts@ == old(store).accounts@,
        r matches Ok(CatalogAddOutcome::NeedsActivation(_)) ==> final(store).accounts@ == old(
            store,
        ).accounts@,
        r matches Ok(CatalogAddOutcome::Added(a)) ==> {
            &&& old(store).accounts@.len() > 0
            &&& a.id == account.id
            &&& a.auth_data == account.auth_data
            &&& !spec_id_present(old(store).accounts@, account.id@)
            &&& !spec_name_taken(old(store).accounts@, a.name@)
            &&& (!crate::text::spec_is_blank(account.name@) ==> a.name == account.name)
            &&& final(store).accounts@.drop_last() == old(store).accounts@
            &&& same_account(final(store).accounts@.last(), a)
            &&& spec_catalog_unique(final(store).accounts@)
        },
        final(store).active_account_id == old(store).active_account_id,
        final(store).version == old(store).version,
{
    match validate_stored_account_credentials(&account) {
        Ok(()) => {},
        Err(e) => {
            return Err(StoreError::Credentials(e));
        },
    }
    if store.accounts.len() == 0 {
        return Ok(CatalogAddOutcome::NeedsActivation(account));
    }
    let ghost orig = account;
    let mut account = account;
    if crate::text::is_blank(account.name.as_str()) {
        account.name = next_auto_account_name(store, auto_name_prefix);
        proof {
            if spec_name_taken(old(store).accounts@, account.name@) {
                let j = choose|j: int|
                    0 <= j < old(store).accounts@.len()
                        && (#[trigger] old(store).accounts@[j]).name@ == account.name@;
                assert(old(store).names()[j] == account.name@);
            }
        }
    }
    if find_account_index(&store.accounts, account.id.as_str()).is_some() {
        return Err(StoreError::IdTaken);
    }
    if name_taken(&store.accounts, account.name.as_str()) {
        return Err(StoreError::NameTaken);
    }
    let copy = account.duplicate();
    let ghost before = store.accounts@;
    store.accounts.push(account);
    proof {
        let pushed = before.push(orig);
        assert forall|i: int| 0 <= i < store.accounts@.len() implies (#[trigger] store.accounts@[i]).auth_mode
            == pushed[i].auth_mode && store.accounts@[i].auth_data == pushed[i].auth_data by {}
        crate::identity::lemma_catalog_unique_by_credentials(store.accounts@, pushed);
    }
    match validate_catalog_credential_uniqueness(store) {
        Ok(()) => {},
        Err(e) => {
            let _ = store.accounts.pop();
            assert(store.accounts@ =~= before);
            return Err(StoreError::Catalog(e));
        },
    }
    assert(store.accounts@.drop_last() =~= before);
    Ok(CatalogAddOutcome::Added(copy))
}

/// The active id, when it names an account of the catalog.
fn valid_active_id(store: &AccountsStore) -> (r: Option<String>)
    ensures
        match store.active_account_id {
            Some(id) => if spec_id_present(store.accounts@, id@) {
                r == store.active_account_id
            } else {
                r is None
            },
            None => r is None,
        },
{
    match &store.active_account_id {
        Some(id) => {
            if find_account_index(&store.accounts, id.as_str()).is_some() {
                Some(id.clone())
            } else {
                None
            }
        },
        None => None,
    }
}

/// Whether a catalog-only merge happened.
#[derive(Debug, Clone)]
pub enum CatalogMergeOutcome {
    Merged(ImportAccountsSummary),
    /// The catalog is empty and the import is not, so an imported account must be activated.
    NeedsActivation(AccountsStore),
}

/// Merge an imported catalog without changing the live login: the active account stays the same
/// (cleared when it names no account). An empty catalog receiving accounts is left alone: an
/// imported account has to be activated instead.
pub fn merge_catalog_if_activation_not_needed(store: &mut AccountsStore, imported: AccountsStore) -> (r:
    Result<CatalogMergeOutcome, StoreError>)
    ensures
        old(store).accounts@.len() == 0 && imported.accounts@.len() > 0 ==> (r matches Ok(
            CatalogMergeOutcome::NeedsActivation(i),
        ) && i == imported) && *final(store) == *old(store),
        !(old(store).accounts@.len() == 0 && imported.accounts@.len() > 0) ==> {
            let merged = old(store).accounts@ + spec_accepted(
                old(store).accounts@,
                imported.accounts@,
            );
            &&& final(store).accounts@ == merged
            &&& r is Ok <==> spec_catalog_unique(merged)
            &&& r matches Ok(CatalogMergeOutcome::Merged(s)) ==> s.imported_count == spec_accepted(
                old(store).accounts@,
                imported.accounts@,
            ).len() && s.total_in_payload == imported.accounts@.len()
            &&& r is Ok ==> match old(store).active_account_id {
                Some(id) => if spec_id_present(old(store).accounts@, id@) {
                    final(store).active_account_id == old(store).active_account_id
                } else {
                    final(store).active_account_id is None
                },
                None => final(store).active_account_id is None,
            }
        },
{
    if store.accounts.len() == 0 && imported.accounts.len() > 0 {
        return Ok(CatalogMergeOutcome::NeedsActivation(imported));
    }
    let previous_active = valid_active_id(store);
    let summary = merge_accounts_store(store, imported);
    store.active_account_id = previous_active;
    match summary {
        Ok(s) => Ok(CatalogMergeOutcome::Merged(s)),
        Err(e) => Err(e),
    }
}

/// Merge an imported catalog keeping the current active account, and choose which account to
/// activate: when the catalog was empty and accounts were imported, the preferred account if it is
/// in the catalog, else the first account.
pub fn persist_imported_store_catalog_only(
    store: &mut AccountsStore,
    imported: AccountsStore,
    preferred_id: Option<String>,
) -> (r: Result<(ImportAccountsSummary, Option<String>), StoreError>)
    ensures
        ({
            let merged = old(store).accounts@ + spec_accepted(
                old(store).accounts@,
                imported.accounts@,
            );
            &&& final(store).accounts@ == merged
            &&& final(store).active_account_id == old(store).active_account_id
            &&& r is Ok <==> spec_catalog_unique(merged)
            &&& r matches Ok((s, target)) ==> {
                &&& s.imported_count == spec_accepted(old(store).accounts@, imported.accounts@).len()
                &&& s.total_in_payload == imported.accounts@.len()
                &&& if old(store).accounts@.len() == 0 && s.imported_count > 0 {
                    if preferred_id matches Some(p) && spec_id_present(merged, p@) {
                        target == preferred_id
                    } else {
                        target == Some(merged[0].id)
                    }
                } else {
                    target is None
                }
            }
        }),
{
    let was_empty = store.accounts.len() == 0;
    let previous_active = crate::types::clone_opt_string(&store.active_account_id);
    let merged = merge_accounts_store(store, imported);
    store.active_account_id = previous_active;
    let summary = match merged {
        Ok(s) => s,
        Err(e) => {
            return Err(e);
        },
    };
    let target = if was_empty && summary.imported_count > 0 {
        let preferred_present = match &preferred_id {
            Some(p) => find_account_index(&store.accounts, p.as_str()).is_some(),
            None => false,
        };
        if preferred_present {
            preferred_id
        } else {
            Some(crate::types::clone_string(&store.accounts[0].id))
        }
    } else {
        None
    };
    Ok((summary, target))
}


/// Whether a catalog-only deletion happened.
#[derive(Debug, Clone, Copy, PartialEq, Eq, Structural)]
pub enum CatalogDeleteOutcome {
    Removed,
    /// The account is the live, active one: deleting it needs a guarded activation.
    NeedsActivation,
}

/// Why a catalog-only deletion is refused.
#[derive(Debug, Clone)]
pub enum InactiveDeleteError {
    NotFound,
    /// The live credentials cannot be reconciled, with or without the account.
    Live(LiveAuthError),
}

/// The text a refused catalog-only deletion of the account with id `account_id` is reported
/// with.
pub open spec fn spec_inactive_delete_error_message(e: InactiveDeleteError, account_id: Seq<char>) -> Seq<
    char,
> {
    match e {
        InactiveDeleteError::NotFound => "Account not found: "@ + account_id,
        InactiveDeleteError::Live(l) => crate::live::spec_live_error_message(l),
    }
}

impl InactiveDeleteError {
    /// The text the error is reported with, for a deletion of the account with id `account_id`.
    pub fn message(&self, account_id: &str) -> (r: String)
        ensures
            r@ == spec_inactive_delete_error_message(*self, account_id@),
    {
        match self {
            InactiveDeleteError::NotFound => crate::text::concat_strs("Account not found: ", account_id),
            InactiveDeleteError::Live(l) => l.message(),
        }
    }
}

/// The id of the stored account the live credentials resolve to, where they resolve to one.
pub open spec fn spec_live_account_id(accounts: Seq<StoredAccount>, live: LiveAuthFile) -> Option<
    Seq<char>,
> {
    match spec_resolve(accounts, live) {
        LiveOutcome::Exact(k) => Some(accounts[k].id@),
        LiveOutcome::Stale(k) => Some(accounts[k].id@),
        LiveOutcome::Newer(k) => Some(accounts[k].id@),
        _ => None,
    }
}

/// Delete an account from the catalog when it is not the live one, after reconciling the live
/// credentials. When the live credentials only fail to reconcile because of this very account (a
/// legacy duplicate), dropping it resolves them and counts as the deletion.
pub fn remove_catalog_account_if_inactive(
    store: &mut AccountsStore,
    account_id: &str,
    live: &LiveAuthFile,
) -> (r: Result<CatalogDeleteOutcome, InactiveDeleteError>)
    ensures
        !spec_id_present(old(store).accounts@, account_id@) ==> (r matches Err(
            InactiveDeleteError::NotFound,
        )) && *final(store) == *old(store),
        spec_id_present(old(store).accounts@, account_id@) ==> {
            let without = spec_without_id(old(store).accounts@, account_id@);
            &&& r is Ok <==> (!spec_refused(old(store).accounts@, *live) || !spec_refused(
                without,
                *live,
            ))
            &&& r matches Err(InactiveDeleteError::Live(e)) ==> spec_resolution_matches(
                old(store).accounts@,
                *live,
                Err::<LiveAuthResolution, LiveAuthError>(e),
            )
            &&& r is Err ==> {
                &&& final(store).version == old(store).version
                &&& final(store).active_account_id == old(store).active_account_id
                &&& final(store).masked_account_ids@ == old(store).masked_account_ids@
                &&& final(store).accounts@.len() == old(store).accounts@.len()
                &&& forall|i: int|
                    0 <= i < old(store).accounts@.len() ==> same_account(
                        #[trigger] final(store).accounts@[i],
                        old(store).accounts@[i],
                    )
            }
            &&& (r matches Ok(CatalogDeleteOutcome::NeedsActivation)) <==> (!spec_refused(
                old(store).accounts@,
                *live,
            ) && spec_live_account_id(old(store).accounts@, *live) == Some(account_id@))
            &&& r matches Ok(CatalogDeleteOutcome::NeedsActivation) ==> exists|o: ReconcileOutcome|
                spec_reconciled(*old(store), *final(store), *live, o)
            &&& (r matches Ok(CatalogDeleteOutcome::Removed) && !spec_refused(
                old(store).accounts@,
                *live,
            )) ==> exists|mid: AccountsStore, o: ReconcileOutcome|
                {
                    &&& spec_reconciled(*old(store), mid, *live, o)
                    &&& final(store).accounts@ == spec_without_id(mid.accounts@, account_id@)
                    &&& final(store).active_account_id == mid.active_account_id
                    &&& final(store).version == mid.version
                    &&& final(store).masked_account_ids == mid.masked_account_ids
                }
            &&& (r matches Ok(CatalogDeleteOutcome::Removed) && spec_refused(
                old(store).accounts@,
                *live,
            )) ==> exists|mid: AccountsStore, o: ReconcileOutcome|
                {
                    &&& mid.accounts@ == without
                    &&& mid.active_account_id == old(store).active_account_id
                    &&& mid.version == old(store).version
                    &&& mid.masked_account_ids == old(store).masked_account_ids
                    &&& spec_reconciled(mid, *final(store), *live, o)
                }
            &&& r matches Ok(CatalogDeleteOutcome::Removed) ==> !spec_id_present(
                final(store).accounts@,
                account_id@,
            )
        },
{
    if find_account_index(&store.accounts, account_id).is_none() {
        return Err(InactiveDeleteError::NotFound);
    }
    match reconcile_live_auth(store, live) {
        Ok(o) => {
            let ghost mid = *store;
            proof {
                lemma_reconciled_active(*old(store), mid, *live, o);
            }
            if crate::types::opt_is_str(&store.active_account_id, account_id) {
                return Ok(CatalogDeleteOutcome::NeedsActivation);
            }
            crate::catalog::retain_other_ids(&mut store.accounts, account_id);
            proof {
                lemma_without_id_absent(mid.accounts@, account_id@);
                assert(spec_reconciled(*old(store), mid, *live, o) && store.accounts@
                    == spec_without_id(mid.accounts@, account_id@) && store.active_account_id
                    == mid.active_account_id && store.version == mid.version
                    && store.masked_account_ids == mid.masked_account_ids);
            }
            Ok(CatalogDeleteOutcome::Removed)
        },
        Err(first_error) => {
            let backup = store.duplicate();
            crate::catalog::retain_other_ids(&mut store.accounts, account_id);
            let ghost mid = *store;
            proof {
                lemma_without_id_absent(old(store).accounts@, account_id@);
            }
            match reconcile_live_auth(store, live) {
                Ok(o) => {
                    proof {
                        assert(spec_reconciled(mid, *store, *live, o));
                        assert(mid.accounts@ == spec_without_id(old(store).accounts@, account_id@));
                        crate::live::lemma_reconciled_ids(mid, *store, *live, o);
                        if spec_id_present(store.accounts@, account_id@) {
                            let j = choose|j: int|
                                0 <= j < store.accounts@.len()
                                    && (#[trigger] store.accounts@[j]).id@ == account_id@;
                            assert(mid.accounts@[j].id@ == account_id@);
                        }
                    }
                    Ok(CatalogDeleteOutcome::Removed)
                },
                Err(_) => {
                    *store = backup;
                    Err(InactiveDeleteError::Live(first_error))
                },
            }
        },
    }
}


/// After reconciling, the active account is the one the live credentials resolve to.
proof fn lemma_reconciled_active(
    old: AccountsStore,
    new: AccountsStore,
    live: LiveAuthFile,
    o: ReconcileOutcome,
)
    requires
        spec_reconciled(old, new, live, o),
    ensures
        opt_view(new.active_account_id) == spec_live_account_id(old.accounts@, live),
{
}

pub proof fn lemma_without_id_absent(s: Seq<StoredAccount>, id: Seq<char>)
    ensures
        !spec_id_present(spec_without_id(s, id), id),
    decreases s.len(),
{
    if s.len() > 0 {
        lemma_without_id_absent(s.drop_last(), id);
        let w = spec_without_id(s, id);
        if spec_id_present(w, id) {
            let j = choose|j: int| 0 <= j < w.len() && (#[trigger] w[j]).id@ == id;
            let p = spec_without_id(s.drop_last(), id);
            if s.last().id@ != id && j == p.len() {
            } else {
                assert(p[j].id@ == id);
            }
        }
    }
}


/// The catalog made ready for an activation or a deletion: reconciled with the live auth.json,
/// the active id it had on disk, and whether its accounts changed (and must be written back,
/// with that durable active id).
#[derive(Debug)]
pub struct PreparedCatalog {
    pub store: AccountsStore,
    pub durable_active_id: Option<String>,
    pub write_needed: bool,
}

/// Reconcile the catalog with the live auth.json before an activation or a deletion. A refused
/// live state is an error.
pub fn prepare_catalog(store: AccountsStore, live: &LiveAuthFile) -> (r: Result<
    PreparedCatalog,
    LiveAuthError,
>)
    ensures
        r is Err <==> spec_refused(store.accounts@, *live),
        r matches Ok(p) ==> {
            &&& p.durable_active_id == store.active_account_id
            &&& exists|o: ReconcileOutcome|
                spec_reconciled(store, p.store, *live, o) && p.write_needed == o.accounts_changed
        },
{
    let mut store = store;
    let ghost before = store;
    let durable_active_id = crate::types::clone_opt_string(&store.active_account_id);
    match reconcile_live_auth(&mut store, live) {
        Ok(outcome) => {
            let write_needed = outcome.accounts_changed;
            Ok(PreparedCatalog { store, durable_active_id, write_needed })
        },
        Err(e) => Err(e),
    }
}

/// A name given automatically: the prefix `AC` followed by a number (blanks around it allowed).
pub open spec fn spec_is_auto_named(name: Seq<char>) -> bool {
    &&& spec_starts_with(name, AUTO_ACCOUNT_NAME_PREFIX@)
    &&& spec_parse_unsigned(
        spec_trim(name.skip(AUTO_ACCOUNT_NAME_PREFIX@.len() as int)),
        usize::MAX as nat,
    ) is Some
}

pub fn is_auto_named(name: &str) -> (r: bool)
    ensures
        r == spec_is_auto_named(name@),
{
    let n = chars_of(name);
    let prefix = chars_of(AUTO_ACCOUNT_NAME_PREFIX);
    if !starts_with(n.as_slice(), prefix.as_slice()) {
        return false;
    }
    let rest = sub_chars(n.as_slice(), prefix.len(), n.len());
    assert(rest@ =~= n@.skip(prefix@.len() as int));
    let t = trim_chars(rest.as_slice());
    parse_unsigned(t.as_slice(), usize::MAX as u64).is_some()
}

/// The account to activate after importing into an empty catalog: the import's active account,
/// else its first account.
pub fn preferred_import_target(imported: &AccountsStore) -> (r: Option<String>)
    ensures
        opt_view(r) == match imported.active_account_id {
            Some(id) => Some(id@),
            None => if imported.accounts@.len() > 0 {
                Some(imported.accounts@[0].id@)
            } else {
                None
            },
        },
{
    match &imported.active_account_id {
        Some(id) => Some(crate::types::clone_string(id)),
        None => if imported.accounts.len() > 0 {
            Some(crate::types::clone_string(&imported.accounts[0].id))
        } else {
            None
        },
    }
}

/// Index of the first account whose id differs from `id` (or the length).
pub open spec fn spec_first_other(accounts: Seq<StoredAccount>, id: Seq<char>, k: int) -> int
    decreases accounts.len() - k,
{
    if k >= accounts.len() {
        accounts.len() as int
    } else if accounts[k].id@ != id {
        k
    } else {
        spec_first_other(accounts, id, k + 1)
    }
}

/// Some account's id differs from `id`.
pub open spec fn spec_some_other(accounts: Seq<StoredAccount>, id: Seq<char>) -> bool {
    exists|j: int| 0 <= j < accounts.len() && (#[trigger] accounts[j]).id@ != id
}

/// `k` is the least index of an account whose id differs from `id`.
pub open spec fn spec_is_first_other(accounts: Seq<StoredAccount>, id: Seq<char>, k: int) -> bool {
    &&& 0 <= k < accounts.len()
    &&& accounts[k].id@ != id
    &&& forall|j: int| 0 <= j < k ==> (#[trigger] accounts[j]).id@ == id
}

proof fn lemma_first_other_from(accounts: Seq<StoredAccount>, id: Seq<char>, k: int)
    requires
        0 <= k <= accounts.len(),
        forall|j: int| 0 <= j < k ==> (#[trigger] accounts[j]).id@ == id,
    ensures
        spec_first_other(accounts, id, k) < accounts.len() ==> spec_is_first_other(
            accounts,
            id,
            spec_first_other(accounts, id, k),
        ),
        spec_first_other(accounts, id, k) >= accounts.len() ==> !spec_some_other(accounts, id),
    decreases accounts.len() - k,
{
    if k < accounts.len() && accounts[k].id@ == id {
        lemma_first_other_from(accounts, id, k + 1);
    }
}

/// The fallback of deleting the active account is the first account with another id: there is
/// one exactly when some account has another id, and every account before it has the deleted id.
pub proof fn law_fallback_is_the_first_other_account(accounts: Seq<StoredAccount>, id: Seq<char>)
    ensures
        spec_first_other(accounts, id, 0) < accounts.len() <==> spec_some_other(accounts, id),
        spec_some_other(accounts, id) ==> spec_is_first_other(
            accounts,
            id,
            spec_first_other(accounts, id, 0),
        ),
{
    lemma_first_other_from(accounts, id, 0);
}

/// What deleting an account needs once it is known not to be removable as an inactive one.
#[derive(Debug)]
pub enum ActiveDeletionPlan {
    /// It is not the active account after all: try removing it as an inactive one again.
    RetryInactiveRemoval,
    /// It is the active account: activate the fallback (the first other account), if any.
    DeleteActive { fallback: Option<StoredAccount> },
}

/// Plan the deletion of an account in the prepared catalog.
pub fn plan_active_deletion(prepared: &AccountsStore, account_id: &str) -> (r: Result<
    ActiveDeletionPlan,
    StoreError,
>)
    ensures
        !spec_id_present(prepared.accounts@, account_id@) ==> r matches Err(
            StoreError::AccountNotFound,
        ),
        spec_id_present(prepared.accounts@, account_id@) && opt_view(prepared.active_account_id)
            != Some(account_id@) ==> r matches Ok(ActiveDeletionPlan::RetryInactiveRemoval),
        spec_id_present(prepared.accounts@, account_id@) && opt_view(prepared.active_account_id)
            == Some(account_id@) ==> {
            let k = spec_first_other(prepared.accounts@, account_id@, 0);
            &&& r matches Ok(ActiveDeletionPlan::DeleteActive { fallback }) && if k
                < prepared.accounts@.len() {
                fallback matches Some(f) && same_account(f, prepared.accounts@[k])
            } else {
                fallback is None
            }
            &&& r matches Ok(ActiveDeletionPlan::DeleteActive { fallback }) && (fallback is Some
                <==> spec_some_other(prepared.accounts@, account_id@))
            &&& r matches Ok(ActiveDeletionPlan::DeleteActive { fallback: Some(f) }) ==> exists|
                j: int,
            |
                spec_is_first_other(prepared.accounts@, account_id@, j) && same_account(
                    f,
                    #[trigger] prepared.accounts@[j],
                )
        },
{
    proof {
        law_fallback_is_the_first_other_account(prepared.accounts@, account_id@);
    }
    if find_account_index(&prepared.accounts, account_id).is_none() {
        return Err(StoreError::AccountNotFound);
    }
    if !crate::types::opt_is_str(&prepared.active_account_id, account_id) {
        return Ok(ActiveDeletionPlan::RetryInactiveRemoval);
    }
    let mut k: usize = 0;
    while k < prepared.accounts.len() && crate::text::str_eq(
        prepared.accounts[k].id.as_str(),
        account_id,
    )
        invariant
            k <= prepared.accounts@.len(),
            spec_first_other(prepared.accounts@, account_id@, k as int) == spec_first_other(
                prepared.accounts@,
                account_id@,
                0,
            ),
        decreases prepared.accounts@.len() - k,
    {
        k += 1;
    }
    if k < prepared.accounts.len() {
        Ok(ActiveDeletionPlan::DeleteActive { fallback: Some(prepared.accounts[k].duplicate()) })
    } else {
        Ok(ActiveDeletionPlan::DeleteActive { fallback: None })
    }
}

/// An activation may go on after refreshing the account when auth.json is still the one the
/// catalog was prepared with, or already the refreshed account's.
pub fn activation_may_proceed(matches_prepared: bool, matches_refreshed: bool) -> (r: bool)
    ensures
        r == (matches_prepared || matches_refreshed),
{
    matches_prepared || matches_refreshed
}

/// Where a guarded catalog commit stands.
#[derive(Debug, Clone, Copy, PartialEq, Eq, Structural)]
pub enum CommitState {
    /// Waiting for the process guard (no Codex instance may run).
    Guard { publish: bool },
    /// Waiting for the new auth.json to be published.
    PublishingAuth,
    /// Waiting to learn whether auth.json is still the published one.
    ConfirmingPublished,
    /// Waiting to learn whether auth.json is still the expected one.
    CheckingExpected,
    /// Waiting for the catalog to be committed.
    CommittingCatalog { published: bool },
    /// Waiting for the previous auth.json to be restored.
    RollingBackAuth,
    /// Waiting to learn whether auth.json is still what the committed catalog goes with.
    VerifyingAfterCommit,
    /// Waiting for the previous catalog to be restored.
    RollingBackCatalog,
    Done,
    Failed(CommitFailure),
}

/// Why a guarded catalog commit failed.
#[derive(Debug, Clone, Copy, PartialEq, Eq, Structural)]
pub enum CommitFailure {
    /// A Codex instance is running.
    CodexRunning,
    /// Publishing auth.json failed.
    PublishFailed,
    /// auth.json changed right after publication; the catalog was left unchanged.
    ChangedAfterPublication,
    /// auth.json changed before the catalog was committed; the catalog was left unchanged.
    ChangedBeforeCommit,
    /// Committing the catalog failed; auth.json was restored.
    CatalogFailedAuthRestored,
    /// Committing the catalog failed, and auth.json could not be restored.
    CatalogFailedAuthNotRestored,
    /// Committing the catalog failed (auth.json was not touched).
    CatalogFailed,
    /// auth.json changed after the catalog was committed; the catalog was restored.
    ChangedAfterCommitRestored,
    /// auth.json changed after the catalog was committed, and the catalog could not be restored.
    ChangedAfterCommitNotRestored,
}

/// The text a failed guarded commit is reported with.
pub open spec fn spec_commit_failure_message(f: CommitFailure) -> Seq<char> {
    match f {
        CommitFailure::CodexRunning => "Close all running Codex windows before switching accounts."@,
        CommitFailure::PublishFailed => "Failed to publish Codex auth.json; the account catalog was left unchanged"@,
        CommitFailure::ChangedAfterPublication => "Codex auth.json changed immediately after publication; the account catalog was left unchanged"@,
        CommitFailure::ChangedBeforeCommit => "Codex auth.json changed before the account catalog was committed; the account catalog was left unchanged"@,
        CommitFailure::CatalogFailedAuthRestored => "Failed to commit the account catalog; Codex auth.json was restored"@,
        CommitFailure::CatalogFailedAuthNotRestored => "Failed to commit the account catalog, and auth rollback was not applied"@,
        CommitFailure::CatalogFailed => "Failed to commit the account catalog"@,
        CommitFailure::ChangedAfterCommitRestored => "Codex auth.json changed after the account catalog was committed; the account catalog was restored"@,
        CommitFailure::ChangedAfterCommitNotRestored => "Codex auth.json changed after the account catalog was committed, and catalog rollback was not applied"@,
    }
}

impl CommitFailure {
    /// The text the failure is reported with.
    pub fn message(&self) -> (r: &'static str)
        ensures
            r@ == spec_commit_failure_message(*self),
    {
        match self {
            CommitFailure::CodexRunning => "Close all running Codex windows before switching accounts.",
            CommitFailure::PublishFailed => "Failed to publish Codex auth.json; the account catalog was left unchanged",
            CommitFailure::ChangedAfterPublication => "Codex auth.json changed immediately after publication; the account catalog was left unchanged",
            CommitFailure::ChangedBeforeCommit => "Codex auth.json changed before the account catalog was committed; the account catalog was left unchanged",
            CommitFailure::CatalogFailedAuthRestored => "Failed to commit the account catalog; Codex auth.json was restored",
            CommitFailure::CatalogFailedAuthNotRestored => "Failed to commit the account catalog, and auth rollback was not applied",
            CommitFailure::CatalogFailed => "Failed to commit the account catalog",
            CommitFailure::ChangedAfterCommitRestored => "Codex auth.json changed after the account catalog was committed; the account catalog was restored",
            CommitFailure::ChangedAfterCommitNotRestored => "Codex auth.json changed after the account catalog was committed, and catalog rollback was not applied",
        }
    }
}

/// What the caller does next.
#[derive(Debug, Clone, Copy, PartialEq, Eq, Structural)]
pub enum CommitAction {
    EnsureNoCodexRunning,
    PublishAuth,
    CheckAuthIsPublished,
    CheckAuthIsExpected,
    CommitCatalog,
    RestorePreviousAuth,
    RestorePreviousCatalog,
    Finish,
    Abort(CommitFailure),
}

/// Start committing a catalog change, publishing a new auth.json with it or not: first the
/// process guard is checked.
pub fn commit_activation_start(publish: bool) -> (r: (CommitState, CommitAction))
    ensures
        r == (CommitState::Guard { publish }, CommitAction::EnsureNoCodexRunning),
{
    (CommitState::Guard { publish }, CommitAction::EnsureNoCodexRunning)
}

/// The transition table of a guarded catalog commit (see `commit_activation_step`).
pub open spec fn spec_commit_step(state: CommitState, ok: bool) -> (CommitState, CommitAction) {
    match state {
        CommitState::Guard { publish } => if !ok {
            (
                CommitState::Failed(CommitFailure::CodexRunning),
                CommitAction::Abort(CommitFailure::CodexRunning),
            )
        } else if publish {
            (CommitState::PublishingAuth, CommitAction::PublishAuth)
        } else {
            (CommitState::CheckingExpected, CommitAction::CheckAuthIsExpected)
        },
        CommitState::PublishingAuth => if ok {
            (CommitState::ConfirmingPublished, CommitAction::CheckAuthIsPublished)
        } else {
            (
                CommitState::Failed(CommitFailure::PublishFailed),
                CommitAction::Abort(CommitFailure::PublishFailed),
            )
        },
        CommitState::ConfirmingPublished => if ok {
            (CommitState::CommittingCatalog { published: true }, CommitAction::CommitCatalog)
        } else {
            (
                CommitState::Failed(CommitFailure::ChangedAfterPublication),
                CommitAction::Abort(CommitFailure::ChangedAfterPublication),
            )
        },
        CommitState::CheckingExpected => if ok {
            (CommitState::CommittingCatalog { published: false }, CommitAction::CommitCatalog)
        } else {
            (
                CommitState::Failed(CommitFailure::ChangedBeforeCommit),
                CommitAction::Abort(CommitFailure::ChangedBeforeCommit),
            )
        },
        CommitState::CommittingCatalog { published } => if ok {
            (CommitState::VerifyingAfterCommit, CommitAction::CheckAuthIsPublished)
        } else if published {
            (CommitState::RollingBackAuth, CommitAction::RestorePreviousAuth)
        } else {
            (
                CommitState::Failed(CommitFailure::CatalogFailed),
                CommitAction::Abort(CommitFailure::CatalogFailed),
            )
        },
        CommitState::RollingBackAuth => if ok {
            (
                CommitState::Failed(CommitFailure::CatalogFailedAuthRestored),
                CommitAction::Abort(CommitFailure::CatalogFailedAuthRestored),
            )
        } else {
            (
                CommitState::Failed(CommitFailure::CatalogFailedAuthNotRestored),
                CommitAction::Abort(CommitFailure::CatalogFailedAuthNotRestored),
            )
        },
        CommitState::VerifyingAfterCommit => if ok {
            (CommitState::Done, CommitAction::Finish)
        } else {
            (CommitState::RollingBackCatalog, CommitAction::RestorePreviousCatalog)
        },
        CommitState::RollingBackCatalog => if ok {
            (
                CommitState::Failed(CommitFailure::ChangedAfterCommitRestored),
                CommitAction::Abort(CommitFailure::ChangedAfterCommitRestored),
            )
        } else {
            (
                CommitState::Failed(CommitFailure::ChangedAfterCommitNotRestored),
                CommitAction::Abort(CommitFailure::ChangedAfterCommitNotRestored),
            )
        },
        CommitState::Done => (CommitState::Done, CommitAction::Finish),
        CommitState::Failed(f) => (CommitState::Failed(f), CommitAction::Abort(f)),
    }
}

/// One step of a guarded catalog commit: the outcome (`ok`) of the last action gives the next
/// state and action. With a new auth.json it is published first, confirmed, and then the
/// catalog committed (a failed commit restores the previous auth.json); without one, auth.json
/// must still be the expected one before the catalog is committed. After every catalog commit
/// auth.json is checked once more, and a change restores the previous catalog.
pub fn commit_activation_step(state: CommitState, ok: bool) -> (r: (CommitState, CommitAction))
    ensures
        r == spec_commit_step(state, ok),
{
    match state {
        CommitState::Guard { publish } => if !ok {
            (
                CommitState::Failed(CommitFailure::CodexRunning),
                CommitAction::Abort(CommitFailure::CodexRunning),
            )
        } else if publish {
            (CommitState::PublishingAuth, CommitAction::PublishAuth)
        } else {
            (CommitState::CheckingExpected, CommitAction::CheckAuthIsExpected)
        },
        CommitState::PublishingAuth => if ok {
            (CommitState::ConfirmingPublished, CommitAction::CheckAuthIsPublished)
        } else {
            (
                CommitState::Failed(CommitFailure::PublishFailed),
                CommitAction::Abort(CommitFailure::PublishFailed),
            )
        },
        CommitState::ConfirmingPublished => if ok {
            (CommitState::CommittingCatalog { published: true }, CommitAction::CommitCatalog)
        } else {
            (
                CommitState::Failed(CommitFailure::ChangedAfterPublication),
                CommitAction::Abort(CommitFailure::ChangedAfterPublication),
            )
        },
        CommitState::CheckingExpected => if ok {
            (CommitState::CommittingCatalog { published: false }, CommitAction::CommitCatalog)
        } else {
            (
                CommitState::Failed(CommitFailure::ChangedBeforeCommit),
                CommitAction::Abort(CommitFailure::ChangedBeforeCommit),
            )
        },
        CommitState::CommittingCatalog { published } => if ok {
            (CommitState::VerifyingAfterCommit, CommitAction::CheckAuthIsPublished)
        } else if published {
            (CommitState::RollingBackAuth, CommitAction::RestorePreviousAuth)
        } else {
            (
                CommitState::Failed(CommitFailure::CatalogFailed),
                CommitAction::Abort(CommitFailure::CatalogFailed),
            )
        },
        CommitState::RollingBackAuth => if ok {
            (
                CommitState::Failed(CommitFailure::CatalogFailedAuthRestored),
                CommitAction::Abort(CommitFailure::CatalogFailedAuthRestored),
            )
        } else {
            (
                CommitState::Failed(CommitFailure::CatalogFailedAuthNotRestored),
                CommitAction::Abort(CommitFailure::CatalogFailedAuthNotRestored),
            )
        },
        CommitState::VerifyingAfterCommit => if ok {
            (CommitState::Done, CommitAction::Finish)
        } else {
            (CommitState::RollingBackCatalog, CommitAction::RestorePreviousCatalog)
        },
        CommitState::RollingBackCatalog => if ok {
            (
                CommitState::Failed(CommitFailure::ChangedAfterCommitRestored),
                CommitAction::Abort(CommitFailure::ChangedAfterCommitRestored),
            )
        } else {
            (
                CommitState::Failed(CommitFailure::ChangedAfterCommitNotRestored),
                CommitAction::Abort(CommitFailure::ChangedAfterCommitNotRestored),
            )
        },
        CommitState::Done => (CommitState::Done, CommitAction::Finish),
        CommitState::Failed(f) => (CommitState::Failed(f), CommitAction::Abort(f)),
    }
}


/// Start committing a catalog-only change that no running Codex instance blocks (deleting an
/// account that is not the live one): auth.json must still be the expected one, and is checked
/// again after the commit.
pub fn commit_catalog_only_start() -> (r: (CommitState, CommitAction))
    ensures
        r == (CommitState::CheckingExpected, CommitAction::CheckAuthIsExpected),
{
    (CommitState::CheckingExpected, CommitAction::CheckAuthIsExpected)
}

/// The state a guarded catalog commit reaches from `state` when its actions have the outcomes
/// `oks`, in order.
pub open spec fn spec_commit_run(state: CommitState, oks: Seq<bool>) -> CommitState
    decreases oks.len(),
{
    if oks.len() == 0 {
        state
    } else {
        spec_commit_run(spec_commit_step(state, oks[0]).0, oks.drop_first())
    }
}

/// A guarded commit that failed stays failed, for the same reason, whatever follows.
pub proof fn law_commit_failure_is_final(f: CommitFailure, oks: Seq<bool>)
    ensures
        spec_commit_run(CommitState::Failed(f), oks) == CommitState::Failed(f),
    decreases oks.len(),
{
    if oks.len() > 0 {
        law_commit_failure_is_final(f, oks.drop_first());
    }
}

/// When publishing the new auth.json fails, the commit fails for that reason and never goes on
/// to commit the catalog: the catalog is left unchanged.
pub proof fn law_publication_failure_leaves_catalog_unchanged(rest: Seq<bool>)
    ensures
        spec_commit_run(CommitState::Guard { publish: true }, seq![true, false] + rest)
            == CommitState::Failed(CommitFailure::PublishFailed),
{
    let oks = seq![true, false] + rest;
    assert(oks.drop_first().drop_first() =~= rest);
    assert(oks[0] == true);
    assert(oks.drop_first()[0] == false);
    law_commit_failure_is_final(CommitFailure::PublishFailed, rest);
    assert(spec_commit_run(CommitState::PublishingAuth, oks.drop_first()) == spec_commit_run(
        CommitState::Failed(CommitFailure::PublishFailed),
        oks.drop_first().drop_first(),
    ));
    assert(spec_commit_run(CommitState::Guard { publish: true }, oks) == spec_commit_run(
        CommitState::PublishingAuth,
        oks.drop_first(),
    ));
}

/// A catalog-only change is rolled back when auth.json changes right after the catalog was
/// committed: the next action restores the previous catalog, and the change ends failed, with the
/// catalog restored or not as that restoration went.
pub proof fn law_catalog_only_change_rolls_back_after_live_change(restored: bool)
    ensures
        spec_commit_step(
            spec_commit_step(spec_commit_step(CommitState::CheckingExpected, true).0, true).0,
            false,
        ) == (CommitState::RollingBackCatalog, CommitAction::RestorePreviousCatalog),
        spec_commit_run(CommitState::CheckingExpected, seq![true, true, false, restored])
            == CommitState::Failed(
            if restored {
                CommitFailure::ChangedAfterCommitRestored
            } else {
                CommitFailure::ChangedAfterCommitNotRestored
            },
        ),
{
    let oks = seq![true, true, false, restored];
    assert(oks.drop_first() =~= seq![true, false, restored]);
    assert(oks.drop_first().drop_first() =~= seq![false, restored]);
    assert(oks.drop_first().drop_first().drop_first() =~= seq![restored]);
    assert(oks.drop_first().drop_first().drop_first().drop_first() =~= Seq::<bool>::empty());
    reveal_with_fuel(spec_commit_run, 5);
}

/// When committing the catalog fails after the new auth.json was published, the next action
/// restores the previous auth.json.
pub proof fn law_catalog_failure_restores_previous_auth()
    ensures
        spec_commit_step(CommitState::CommittingCatalog { published: true }, false) == (
            CommitState::RollingBackAuth,
            CommitAction::RestorePreviousAuth,
        ),
{
}

/// A guarded commit only ends well after the catalog was committed and auth.json was then found
/// unchanged: some prefix of the outcomes leads to that final check, and its outcome is success.
pub proof fn law_commit_done_only_after_verified_commit(state: CommitState, oks: Seq<bool>)
    requires
        state != CommitState::Done,
        spec_commit_run(state, oks) == CommitState::Done,
    ensures
        exists|i: int|
            0 <= i < oks.len() && spec_commit_run(state, #[trigger] oks.take(i))
                == CommitState::VerifyingAfterCommit && oks[i],
    decreases oks.len(),
{
    if oks.len() == 0 {
        assert(false);
    } else {
        let next = spec_commit_step(state, oks[0]).0;
        if next == CommitState::Done {
            assert(oks.take(0) =~= Seq::<bool>::empty());
            assert(spec_commit_run(state, oks.take(0)) == state);
        } else {
            match next {
                CommitState::Failed(f) => {
                    law_commit_failure_is_final(f, oks.drop_first());
                },
                _ => {},
            }
            law_commit_done_only_after_verified_commit(next, oks.drop_first());
            let j = choose|j: int|
                0 <= j < oks.drop_first().len() && spec_commit_run(
                    next,
                    #[trigger] oks.drop_first().take(j),
                ) == CommitState::VerifyingAfterCommit && oks.drop_first()[j];
            assert(oks.take(j + 1).drop_first() =~= oks.drop_first().take(j));
            assert(oks.take(j + 1)[0] == oks[0]);
            assert(spec_commit_run(state, oks.take(j + 1)) == spec_commit_run(
                next,
                oks.take(j + 1).drop_first(),
            ));
            assert(oks[j + 1] == oks.drop_first()[j]);
        }
    }
}

/// What keeps restored account `i` from being added after the catalog's accounts and the
/// restored accounts before it: a taken name, or a taken id.
pub open spec fn spec_restore_issue(
    accounts: Seq<StoredAccount>,
    restored: Seq<StoredAccount>,
    i: int,
) -> Option<StoreError> {
    let w = accounts + restored.take(i);
    if crate::catalog::spec_name_taken(w, restored[i].name@) {
        Some(StoreError::NameTaken)
    } else if spec_id_present(w, restored[i].id@) {
        Some(StoreError::IdTaken)
    } else {
        None
    }
}

fn taken_before(
    accounts: &Vec<StoredAccount>,
    restored: &Vec<StoredAccount>,
    i: usize,
) -> (r: Option<StoreError>)
    requires
        i < restored@.len(),
    ensures
        r == spec_restore_issue(accounts@, restored@, i as int),
{
    let ghost w = accounts@ + restored@.take(i as int);
    let name = restored[i].name.as_str();
    let id = restored[i].id.as_str();
    let mut name_hit = crate::catalog::name_taken(accounts, name);
    let mut id_hit = find_account_index(accounts, id).is_some();
    let mut j: usize = 0;
    while j < i
        invariant
            j <= i < restored@.len(),
            name@ == restored@[i as int].name@,
            id@ == restored@[i as int].id@,
            name_hit == (crate::catalog::spec_name_taken(accounts@, name@) || exists|k: int|
                0 <= k < j && (#[trigger] restored@[k]).name@ == name@),
            id_hit == (spec_id_present(accounts@, id@) || exists|k: int|
                0 <= k < j && (#[trigger] restored@[k]).id@ == id@),
        decreases i - j,
    {
        if crate::text::str_eq(restored[j].name.as_str(), name) {
            name_hit = true;
        }
        if crate::text::str_eq(restored[j].id.as_str(), id) {
            id_hit = true;
        }
        j += 1;
    }
    proof {
        assert(crate::catalog::spec_name_taken(w, name@) == name_hit) by {
            if name_hit {
                if crate::catalog::spec_name_taken(accounts@, name@) {
                    let k = choose|k: int| 0 <= k < accounts@.len() && (#[trigger] accounts@[k]).name@ == name@;
                    assert(w[k] == accounts@[k]);
                } else {
                    let k = choose|k: int| 0 <= k < i && (#[trigger] restored@[k]).name@ == name@;
                    assert(w[accounts@.len() + k] == restored@[k]);
                }
            }
            if crate::catalog::spec_name_taken(w, name@) {
                let k = choose|k: int| 0 <= k < w.len() && (#[trigger] w[k]).name@ == name@;
                if k >= accounts@.len() {
                    assert(restored@[k - accounts@.len()] == w[k]);
                } else {
                    assert(accounts@[k] == w[k]);
                }
            }
        }
        assert(spec_id_present(w, id@) == id_hit) by {
            if id_hit {
                if spec_id_present(accounts@, id@) {
                    let k = choose|k: int| 0 <= k < accounts@.len() && (#[trigger] accounts@[k]).id@ == id@;
                    assert(w[k] == accounts@[k]);
                } else {
                    let k = choose|k: int| 0 <= k < i && (#[trigger] restored@[k]).id@ == id@;
                    assert(w[accounts@.len() + k] == restored@[k]);
                }
            }
            if spec_id_present(w, id@) {
                let k = choose|k: int| 0 <= k < w.len() && (#[trigger] w[k]).id@ == id@;
                if k >= accounts@.len() {
                    assert(restored@[k - accounts@.len()] == w[k]);
                } else {
                    assert(accounts@[k] == w[k]);
                }
            }
        }
    }
    if name_hit {
        Some(StoreError::NameTaken)
    } else if id_hit {
        Some(StoreError::IdTaken)
    } else {
        None
    }
}

/// Save the accounts a slim import restored, all of them or none: each needs a name and an id
/// not taken by the catalog or by the restored accounts before it (the first conflict is
/// reported), and the catalog with all of them must be free of unusable and shared
/// credentials. A refusal leaves the catalog as it was. Returns the saved accounts.
pub fn persist_restored_accounts_catalog_only(
    store: &mut AccountsStore,
    restored: Vec<StoredAccount>,
) -> (r: Result<Vec<StoredAccount>, StoreError>)
    ensures
        final(store).version == old(store).version,
        final(store).active_account_id == old(store).active_account_id,
        final(store).masked_account_ids == old(store).masked_account_ids,
        r is Err ==> final(store).accounts@ == old(store).accounts@,
        r is Ok <==> (forall|i: int|
            0 <= i < restored@.len() ==> #[trigger] spec_restore_issue(
                old(store).accounts@,
                restored@,
                i,
            ) is None) && crate::identity::spec_catalog_unique(old(store).accounts@ + restored@),
        r matches Err(e) ==> {
            ||| exists|i: int|
                #![trigger restored@[i]]
                {
                    &&& 0 <= i < restored@.len()
                    &&& forall|j: int|
                        0 <= j < i ==> #[trigger] spec_restore_issue(
                            old(store).accounts@,
                            restored@,
                            j,
                        ) is None
                    &&& spec_restore_issue(old(store).accounts@, restored@, i) == Some(e)
                }
            ||| e is Catalog
        },
        r matches Ok(saved) ==> {
            &&& final(store).accounts@ == old(store).accounts@ + restored@
            &&& saved@.len() == restored@.len()
            &&& forall|i: int|
                0 <= i < saved@.len() ==> same_account(#[trigger] saved@[i], restored@[i])
        },
{
    let mut i: usize = 0;
    while i < restored.len()
        invariant
            i <= restored@.len(),
            forall|j: int|
                0 <= j < i ==> #[trigger] spec_restore_issue(store.accounts@, restored@, j) is None,
        decreases restored@.len() - i,
    {
        match taken_before(&store.accounts, &restored, i) {
            Some(e) => {
                return Err(e);
            },
            None => {},
        }
        i += 1;
    }
    let mut saved: Vec<StoredAccount> = Vec::new();
    let mut k: usize = 0;
    while k < restored.len()
        invariant
            k <= restored@.len(),
            saved@.len() == k,
            forall|j: int| 0 <= j < k ==> same_account(#[trigger] saved@[j], restored@[j]),
        decreases restored@.len() - k,
    {
        saved.push(restored[k].duplicate());
        k += 1;
    }
    let n = store.accounts.len();
    let ghost before = store.accounts@;
    let mut incoming = restored;
    store.accounts.append(&mut incoming);
    match crate::identity::validate_catalog_credential_uniqueness(store) {
        Ok(()) => Ok(saved),
        Err(e) => {
            store.accounts.truncate(n);
            assert(store.accounts@ =~= before);
            Err(StoreError::Catalog(e))
        },
    }
}


/// Why the catalog cannot be brought in line with the live auth.json.
#[derive(Debug, Clone)]
pub enum ReconcileCurrentError {
    /// The live credentials are refused.
    Live(LiveAuthError),
    /// The reconciled catalog would hold unusable or shared credentials.
    Catalog(CatalogError),
}

/// What reconciling the catalog with the live credentials asks the caller to write.
#[derive(Debug, Clone)]
pub struct CurrentAuthReconcilePlan {
    pub outcome: ReconcileOutcome,
    /// The auth.json to publish: stale live credentials are replaced by the catalog's.
    pub publish_auth: Option<AuthDotJson>,
}

/// Reconcile the catalog with the live auth.json and check the result; where the live
/// credentials are stale, the matched account's auth.json is to be published in their place.
/// The catalog is to be written only where the outcome says it changed.
pub fn plan_current_auth_reconcile(store: &mut AccountsStore, live: &LiveAuthFile) -> (r: Result<
    CurrentAuthReconcilePlan,
    ReconcileCurrentError,
>)
    ensures
        r matches Err(ReconcileCurrentError::Live(_)) <==> spec_refused(old(store).accounts@, *live),
        spec_refused(old(store).accounts@, *live) ==> *final(store) == *old(store),
        r matches Err(ReconcileCurrentError::Live(e)) ==> spec_resolution_matches(
            old(store).accounts@,
            *live,
            Err::<LiveAuthResolution, LiveAuthError>(e),
        ),
        !spec_refused(old(store).accounts@, *live) ==> (r is Ok <==> spec_catalog_unique(
            final(store).accounts@,
        )),
        r matches Err(ReconcileCurrentError::Catalog(e)) ==> spec_catalog_error(
            final(store).accounts@,
            e,
        ),
        r matches Ok(p) ==> {
            &&& spec_reconciled(*old(store), *final(store), *live, p.outcome)
            &&& (p.publish_auth is Some <==> p.outcome.state == LiveAuthState::Stale)
            &&& p.publish_auth matches Some(a) ==> p.outcome.matched_account_id matches Some(id)
                && spec_id_present(final(store).accounts@, id@) && spec_auth_json_for(
                final(store).accounts@[spec_first_with_id(final(store).accounts@, id@)],
                a,
            )
        },
{
    let outcome = match reconcile_live_auth(store, live) {
        Ok(o) => o,
        Err(e) => {
            return Err(ReconcileCurrentError::Live(e));
        },
    };
    match validate_catalog_credential_uniqueness(store) {
        Ok(()) => {},
        Err(e) => {
            return Err(ReconcileCurrentError::Catalog(e));
        },
    }
    if outcome.state == LiveAuthState::Stale {
        let id = match &outcome.matched_account_id {
            Some(id) => id,
            None => {
                assert(false);
                return Err(ReconcileCurrentError::Live(LiveAuthError::UnknownAccount));
            },
        };
        let k = match find_account_index(&store.accounts, id.as_str()) {
            Some(k) => k,
            None => {
                assert(false);
                return Err(ReconcileCurrentError::Live(LiveAuthError::UnknownAccount));
            },
        };
        proof {
            lemma_first_with_id(store.accounts@, id@, k as int);
        }
        match auth_json_for_account(&store.accounts[k]) {
            Ok(auth) => Ok(CurrentAuthReconcilePlan { outcome, publish_auth: Some(auth) }),
            Err(_) => {
                assert(spec_validate_account(store.accounts@[k as int]) is Ok);
                assert(false);
                Err(ReconcileCurrentError::Live(LiveAuthError::UnknownAccount))
            },
        }
    } else {
        Ok(CurrentAuthReconcilePlan { outcome, publish_auth: None })
    }
}

/// What finishing a live-credential reconciliation does, once auth.json has been checked
/// before and after the catalog was written.
#[derive(Debug, Clone, Copy, PartialEq, Eq, Structural)]
pub enum ReconcileFinish {
    /// auth.json still holds what was expected: the reconciliation stands.
    Done,
    /// auth.json changed before the catalog was written: fail, leaving the catalog unchanged.
    AbortUnchanged,
    /// auth.json changed right after, and no catalog had been written: fail.
    ChangedAfterNoCatalog,
    /// auth.json changed after the catalog was written: restore the previous catalog and fail.
    RollBackCatalog,
}

/// Decide how a reconciliation ends. `matches_after_commit` is only looked at once the
/// first check passed.
pub fn reconcile_finish(
    matches_before_commit: bool,
    catalog_staged: bool,
    matches_after_commit: bool,
) -> (r: ReconcileFinish)
    ensures
        !matches_before_commit ==> r == ReconcileFinish::AbortUnchanged,
        matches_before_commit && matches_after_commit ==> r == ReconcileFinish::Done,
        matches_before_commit && !matches_after_commit && !catalog_staged ==> r
            == ReconcileFinish::ChangedAfterNoCatalog,
        matches_before_commit && !matches_after_commit && catalog_staged ==> r
            == ReconcileFinish::RollBackCatalog,
{
    if !matches_before_commit {
        ReconcileFinish::AbortUnchanged
    } else if matches_after_commit {
        ReconcileFinish::Done
    } else if catalog_staged {
        ReconcileFinish::RollBackCatalog
    } else {
        ReconcileFinish::ChangedAfterNoCatalog
    }
}

} // verus!
