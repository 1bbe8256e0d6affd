use codex_switcher::activation::{
    activate_in_catalog, add_catalog_account_if_nonempty, commit_activation_start,
    commit_activation_step, commit_catalog_only_start, delete_in_catalog, persist_catalog_account,
    DeleteError, DesiredAuth, InactiveDeleteError, merge_catalog_if_activation_not_needed, plan_active_deletion,
    reconcile_finish, remove_catalog_account_if_inactive, ActiveDeletionPlan,
    CatalogAddOutcome, CatalogDeleteOutcome, CatalogMergeOutcome, CommitAction, CommitFailure,
    CommitState, ReconcileFinish, AUTO_ACCOUNT_NAME_PREFIX,
};
use codex_switcher::catalog::{add_account, StoreError};
use codex_switcher::live::{create_auth_json, resolve_live_auth, LiveAuthFile, LiveAuthResolution};
use codex_switcher::types::{AccountsStore, StoredAccount};

fn api_account(name: &str, key: &str) -> StoredAccount {
    StoredAccount::new_api_key(name.to_string(), key.to_string())
}

fn live_for(account: &StoredAccount) -> LiveAuthFile {
    LiveAuthFile::Present(create_auth_json(account))
}

#[test]
fn catalog_only_add_cannot_create_an_active_account_in_an_empty_store() {
    let mut store = AccountsStore::empty();
    let account = api_account("Imported", "sk-imported");

    let outcome = add_catalog_account_if_nonempty(&mut store, account.clone(), AUTO_ACCOUNT_NAME_PREFIX)
        .expect("check catalog add");

    assert!(matches!(
        outcome,
        CatalogAddOutcome::NeedsActivation(pending) if pending.id == account.id
    ));
    assert!(store.accounts.is_empty());
    assert!(store.active_account_id.is_none());
}

#[test]
fn catalog_only_merge_cannot_activate_into_an_empty_store() {
    let mut store = AccountsStore::empty();
    let account = api_account("Imported", "sk-imported");
    let imported = AccountsStore {
        version: 1,
        accounts: vec![account.clone()],
        active_account_id: Some(account.id.clone()),
        masked_account_ids: Vec::new(),
    };

    let outcome =
        merge_catalog_if_activation_not_needed(&mut store, imported).expect("check catalog merge");

    assert!(matches!(
        outcome,
        CatalogMergeOutcome::NeedsActivation(pending)
            if pending.accounts.len() == 1 && pending.accounts[0].id == account.id
    ));
    assert!(store.accounts.is_empty());
    assert!(store.active_account_id.is_none());
}

#[test]
fn full_import_preserves_a_nonempty_catalog_without_live_auth() {
    let existing = api_account("Existing", "sk-existing");
    let mut store = AccountsStore {
        version: 1,
        accounts: vec![existing],
        active_account_id: None,
        masked_account_ids: Vec::new(),
    };
    let imported = api_account("Imported", "sk-imported");

    let outcome = merge_catalog_if_activation_not_needed(
        &mut store,
        AccountsStore {
            version: 1,
            accounts: vec![imported],
            active_account_id: None,
            masked_account_ids: Vec::new(),
        },
    )
    .expect("merge catalog");

    assert!(matches!(outcome, CatalogMergeOutcome::Merged(_)));
    assert_eq!(store.accounts.len(), 2);
    assert!(store.active_account_id.is_none());
}

#[test]
fn catalog_only_delete_refuses_the_active_account() {
    let mut store = AccountsStore::empty();
    let active = add_account(&mut store, api_account("Active", "sk-active")).expect("add active");
    let live = live_for(&active);

    let outcome = remove_catalog_account_if_inactive(&mut store, &active.id, &live)
        .expect("check catalog delete");

    assert!(matches!(outcome, CatalogDeleteOutcome::NeedsActivation));
    assert_eq!(store.accounts.len(), 1);
    assert_eq!(store.active_account_id.as_deref(), Some(active.id.as_str()));
}

#[test]
fn catalog_only_delete_reconciles_live_auth_before_deciding() {
    let mut store = AccountsStore::empty();
    let catalog_active =
        add_account(&mut store, api_account("Catalog active", "sk-catalog")).expect("add catalog active");
    let live_active =
        add_account(&mut store, api_account("Live active", "sk-live")).expect("add live active");
    let live = live_for(&live_active);

    let outcome = remove_catalog_account_if_inactive(&mut store, &live_active.id, &live)
        .expect("check catalog delete");

    assert!(matches!(outcome, CatalogDeleteOutcome::NeedsActivation));
    assert_eq!(store.accounts.len(), 2);
    assert_eq!(store.active_account_id.as_deref(), Some(live_active.id.as_str()));
    assert_ne!(store.active_account_id.as_deref(), Some(catalog_active.id.as_str()));
}

#[test]
fn inactive_account_is_removed_from_the_catalog_only() {
    let mut store = AccountsStore::empty();
    let active = add_account(&mut store, api_account("Active", "sk-active")).expect("add");
    let other = add_account(&mut store, api_account("Other", "sk-other")).expect("add");
    let live = live_for(&active);

    let outcome =
        remove_catalog_account_if_inactive(&mut store, &other.id, &live).expect("delete inactive");
    assert!(matches!(outcome, CatalogDeleteOutcome::Removed));
    assert_eq!(store.accounts.len(), 1);
    assert_eq!(store.active_account_id.as_deref(), Some(active.id.as_str()));
}

#[test]
fn active_deletion_falls_back_to_another_account() {
    let mut store = AccountsStore::empty();
    let active = add_account(&mut store, api_account("Active", "sk-active")).expect("add");
    let other = add_account(&mut store, api_account("Other", "sk-other")).expect("add");

    match plan_active_deletion(&store, &active.id).expect("plan") {
        ActiveDeletionPlan::DeleteActive { fallback } => {
            assert_eq!(fallback.map(|a| a.id), Some(other.id.clone()))
        }
        other_plan => panic!("unexpected plan {other_plan:?}"),
    }
    assert!(matches!(
        plan_active_deletion(&store, "missing"),
        Err(StoreError::AccountNotFound)
    ));
}

#[test]
fn activating_an_unknown_account_is_refused() {
    let mut store = AccountsStore::empty();
    let first = add_account(&mut store, api_account("First", "sk-first")).expect("add");
    let second = add_account(&mut store, api_account("Second", "sk-second")).expect("add");
    assert!(matches!(
        activate_in_catalog(&mut store, "missing", "2030-01-01T00:00:00Z".to_string()),
        Err(StoreError::AccountNotFound)
    ));
    let auth = activate_in_catalog(&mut store, &second.id, "2030-01-01T00:00:00Z".to_string())
        .expect("activate");
    assert_eq!(auth.openai_api_key.as_deref(), Some("sk-second"));
    assert_eq!(store.active_account_id.as_deref(), Some(second.id.as_str()));
    assert_eq!(store.accounts[1].last_used_at.as_deref(), Some("2030-01-01T00:00:00Z"));
    assert_ne!(store.active_account_id.as_deref(), Some(first.id.as_str()));
}

fn run(publish: bool, oks: &[bool]) -> (CommitState, Vec<CommitAction>) {
    let (mut state, first) = commit_activation_start(publish);
    let mut actions = vec![first];
    for ok in oks {
        let (next, action) = commit_activation_step(state, *ok);
        state = next;
        actions.push(action);
    }
    (state, actions)
}

#[test]
fn successful_commit_publishes_then_commits_then_verifies() {
    let (state, actions) = run(true, &[true, true, true, true, true]);
    assert_eq!(state, CommitState::Done);
    assert_eq!(
        actions,
        vec![
            CommitAction::EnsureNoCodexRunning,
            CommitAction::PublishAuth,
            CommitAction::CheckAuthIsPublished,
            CommitAction::CommitCatalog,
            CommitAction::CheckAuthIsPublished,
            CommitAction::Finish,
        ]
    );
}

#[test]
fn auth_publication_failure_never_commits_the_catalog() {
    let (state, actions) = run(true, &[true, false, true, true, true]);
    assert_eq!(state, CommitState::Failed(CommitFailure::PublishFailed));
    assert!(!actions.contains(&CommitAction::CommitCatalog));
}

#[test]
fn catalog_failure_restores_the_previous_auth() {
    let (state, actions) = run(true, &[true, true, true, false, true]);
    assert_eq!(state, CommitState::Failed(CommitFailure::CatalogFailedAuthRestored));
    assert_eq!(actions[4], CommitAction::RestorePreviousAuth);
    let (state, _) = run(true, &[true, true, true, false, false]);
    assert_eq!(state, CommitState::Failed(CommitFailure::CatalogFailedAuthNotRestored));
}

#[test]
fn change_after_commit_restores_the_catalog() {
    let (state, actions) = run(false, &[true, true, true, false, true]);
    assert_eq!(state, CommitState::Failed(CommitFailure::ChangedAfterCommitRestored));
    assert_eq!(actions[4], CommitAction::RestorePreviousCatalog);
    let (state, _) = run(false, &[false]);
    assert_eq!(state, CommitState::Failed(CommitFailure::CodexRunning));
    let (state, _) = run(false, &[true, false]);
    assert_eq!(state, CommitState::Failed(CommitFailure::ChangedBeforeCommit));
}

#[test]
fn reconciliation_finish_decisions() {
    assert_eq!(reconcile_finish(false, true, true), ReconcileFinish::AbortUnchanged);
    assert_eq!(reconcile_finish(true, true, true), ReconcileFinish::Done);
    assert_eq!(reconcile_finish(true, false, false), ReconcileFinish::ChangedAfterNoCatalog);
    assert_eq!(reconcile_finish(true, true, false), ReconcileFinish::RollBackCatalog);
}

#[test]
fn published_auth_resolves_to_the_activated_account() {
    let mut store = AccountsStore::empty();
    add_account(&mut store, api_account("First", "sk-first")).expect("add");
    let second = add_account(&mut store, api_account("Second", "sk-second")).expect("add");
    let auth = activate_in_catalog(&mut store, &second.id, "2030-01-01T00:00:00Z".to_string())
        .expect("activate");
    assert!(matches!(
        resolve_live_auth(&store, &LiveAuthFile::Present(auth)),
        Ok(LiveAuthResolution::Exact { index: 1 })
    ));
}

#[test]
fn non_active_deletion_is_catalog_only_even_when_codex_runs() {
    let mut store = AccountsStore::empty();
    let active = add_account(&mut store, api_account("Active", "sk-active")).expect("add active");
    let background =
        add_account(&mut store, api_account("Background", "sk-background")).expect("add background");
    let live = live_for(&active);

    let outcome = remove_catalog_account_if_inactive(&mut store, &background.id, &live)
        .expect("delete background account");

    assert!(matches!(outcome, CatalogDeleteOutcome::Removed));
    assert_eq!(store.accounts.len(), 1);
    assert_eq!(store.accounts[0].id, active.id);
    assert_eq!(store.active_account_id.as_deref(), Some(active.id.as_str()));
    // The commit of a catalog-only deletion never consults the process guard.
    let (state, action) = commit_catalog_only_start();
    assert_eq!(state, CommitState::CheckingExpected);
    assert_eq!(action, CommitAction::CheckAuthIsExpected);
}

#[test]
fn inactive_deletion_rolls_back_if_live_auth_changes_after_catalog_commit() {
    let (mut state, first) = commit_catalog_only_start();
    let mut actions = vec![first];
    for ok in [true, true, false, true] {
        let (next, action) = commit_activation_step(state, ok);
        state = next;
        actions.push(action);
    }
    assert_eq!(
        actions,
        vec![
            CommitAction::CheckAuthIsExpected,
            CommitAction::CommitCatalog,
            CommitAction::CheckAuthIsPublished,
            CommitAction::RestorePreviousCatalog,
            CommitAction::Abort(CommitFailure::ChangedAfterCommitRestored),
        ]
    );
    assert_eq!(state, CommitState::Failed(CommitFailure::ChangedAfterCommitRestored));
    assert!(CommitFailure::ChangedAfterCommitRestored
        .message()
        .contains("the account catalog was restored"));
}

#[test]
fn unknown_account_deletion_names_the_account() {
    let mut store = AccountsStore::empty();
    let active = add_account(&mut store, api_account("Active", "sk-active")).expect("add active");
    let error = remove_catalog_account_if_inactive(&mut store, "missing-id", &live_for(&active))
        .err()
        .expect("refused");
    assert!(matches!(error, InactiveDeleteError::NotFound));
    assert_eq!(error.message("missing-id"), "Account not found: missing-id");
    assert_eq!(
        StoreError::NameTaken.message("id", "Work"),
        "An account with name 'Work' already exists"
    );
    assert_eq!(
        StoreError::AccountNotFound.message("abc", "Work"),
        "Account not found: abc"
    );
}

#[test]
fn deleting_the_active_account_without_fallback_needs_an_empty_catalog() {
    let mut store = AccountsStore::empty();
    let active = add_account(&mut store, api_account("Active", "sk-active")).expect("add active");
    add_account(&mut store, api_account("Other", "sk-other")).expect("add other");
    let mut copy = store.clone();
    let error = delete_in_catalog(&mut copy, &active.id, None, "2030-01-01T00:00:00Z".to_string())
        .err()
        .expect("refused");
    assert!(matches!(error, DeleteError::CatalogChanged));
    assert_eq!(
        error.message(&active.id),
        "The account catalog changed while preparing the fallback account"
    );
    let error = delete_in_catalog(&mut store, &active.id, Some("gone"), "2030-01-01T00:00:00Z".to_string())
        .err()
        .expect("refused");
    assert!(matches!(error, DeleteError::FallbackGone));

    let mut single = AccountsStore::empty();
    let only = add_account(&mut single, api_account("Only", "sk-only")).expect("add only");
    let desired = delete_in_catalog(&mut single, &only.id, None, "2030-01-01T00:00:00Z".to_string())
        .expect("delete the last account");
    assert!(matches!(desired, DesiredAuth::Missing));
    assert!(single.accounts.is_empty());
    assert!(single.active_account_id.is_none());
}

#[test]
fn persisting_a_new_account_with_a_taken_name_renames_it() {
    let mut store = AccountsStore::empty();
    add_account(&mut store, api_account("Work", "sk-one")).expect("add first");
    let (saved, was_empty) =
        persist_catalog_account(&mut store, api_account("Work", "sk-two"), Some(AUTO_ACCOUNT_NAME_PREFIX))
            .expect("persist");
    assert!(!was_empty);
    assert_ne!(saved.name, "Work");
    assert_eq!(store.accounts.len(), 2);
    let error = persist_catalog_account(&mut store, api_account("Work", "sk-three"), None)
        .err()
        .expect("refused");
    assert!(matches!(error, StoreError::NameTaken));
}
