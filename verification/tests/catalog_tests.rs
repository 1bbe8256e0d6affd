use codex_switcher::catalog::add_account_with_auto_name;
use codex_switcher::catalog::{
    add_account, get_account, get_masked_account_ids, merge_accounts_store, next_auto_account_name,
    remove_account, set_masked_account_ids, update_account_chatgpt_tokens,
    update_account_metadata, ChatGptTokenUpdate, StoreError,
};
use codex_switcher::digest::chatgpt_auth_data_fingerprint;
use codex_switcher::refresh::{update_account_chatgpt_tokens_after_refresh, RefreshCommitStep};
use codex_switcher::types::{AccountsStore, AuthData, StoredAccount};

fn api_account(name: &str, key: &str) -> StoredAccount {
    StoredAccount::new_api_key(name.to_string(), key.to_string())
}

fn chatgpt_account(name: &str, suffix: &str) -> StoredAccount {
    StoredAccount::new_chatgpt(
        name.to_string(),
        Some(format!("{name}@example.com")),
        Some("plus".to_string()),
        format!("id-{suffix}"),
        format!("access-{suffix}"),
        format!("refresh-{suffix}"),
        Some(format!("acct-{suffix}")),
    )
}

#[test]
fn catalog_mutations_do_not_publish_auth_json() {
    let mut store = AccountsStore::empty();

    let first = add_account(&mut store, api_account("First", "sk-first")).expect("add first");
    assert_eq!(store.active_account_id, Some(first.id));
}

#[test]
fn catalog_rejects_duplicate_credential_identities() {
    let mut store = AccountsStore::empty();

    add_account(&mut store, api_account("First", "sk-shared")).expect("add first account");
    let duplicate_key = add_account(&mut store, api_account("Second", "sk-shared"));
    assert!(duplicate_key.is_err());

    let oauth = add_account(&mut store, chatgpt_account("OAuth", "shared")).expect("add OAuth account");
    let mut duplicate_oauth = chatgpt_account("OAuth duplicate", "different");
    if let (
        AuthData::ChatGPT { account_id, .. },
        AuthData::ChatGPT {
            account_id: known,
            ..
        },
    ) = (&mut duplicate_oauth.auth_data, &oauth.auth_data)
    {
        *account_id = known.clone();
    }
    let duplicate_identity = add_account(&mut store, duplicate_oauth);
    assert!(duplicate_identity.is_err());

    assert_eq!(store.accounts.len(), 2);
}

#[test]
fn refreshed_credentials_cannot_introduce_a_duplicate_identity() {
    let mut store = AccountsStore::empty();

    add_account(&mut store, chatgpt_account("Known", "shared")).expect("add known account");
    let mut legacy = chatgpt_account("Legacy", "legacy");
    if let AuthData::ChatGPT {
        id_token,
        account_id,
        ..
    } = &mut legacy.auth_data
    {
        *id_token = "legacy-id-without-account-claim".to_string();
        *account_id = None;
    }
    let legacy = add_account(&mut store, legacy).expect("add identity-less legacy account");
    let expected =
        chatgpt_auth_data_fingerprint(&legacy.auth_data).expect("fingerprint legacy credentials");

    let result = update_account_chatgpt_tokens_after_refresh(
        &mut store,
        &legacy.id,
        &expected,
        ChatGptTokenUpdate {
            id_token: "refreshed-id".to_string(),
            access_token: "refreshed-access".to_string(),
            refresh_token: "refreshed-refresh".to_string(),
            account_id: Some("acct-shared".to_string()),
            email: None,
            plan_type: None,
            last_refresh: Some(chrono::Utc::now().to_rfc3339()),
        },
        None,
    );

    assert!(result.is_err());
    let stored = get_account(&store, &legacy.id).expect("legacy account exists");
    assert!(matches!(
        stored.auth_data,
        AuthData::ChatGPT {
            account_id: None,
            ..
        }
    ));
}

#[test]
fn stale_refresh_response_returns_catalog_winner() {
    let mut store = AccountsStore::empty();

    let stored = add_account(&mut store, chatgpt_account("ChatGPT", "old")).expect("add account");
    let expected =
        chatgpt_auth_data_fingerprint(&stored.auth_data).expect("fingerprint old credentials");
    update_account_chatgpt_tokens(
        &mut store,
        &stored.id,
        "id-winner".to_string(),
        "access-winner".to_string(),
        "refresh-winner".to_string(),
        Some("acct-winner".to_string()),
        None,
        None,
    )
    .expect("store winner");

    let step = update_account_chatgpt_tokens_after_refresh(
        &mut store,
        &stored.id,
        &expected,
        ChatGptTokenUpdate {
            id_token: "id-stale".to_string(),
            access_token: "access-stale".to_string(),
            refresh_token: "refresh-stale".to_string(),
            account_id: Some("acct-stale".to_string()),
            email: None,
            plan_type: None,
            last_refresh: Some(chrono::Utc::now().to_rfc3339()),
        },
        None,
    )
    .expect("discard stale response");

    let winner = match step {
        RefreshCommitStep::Winner { account } => account,
        RefreshCommitStep::Updated { .. } => panic!("the stale response must not be stored"),
    };
    assert!(matches!(
        winner.auth_data,
        AuthData::ChatGPT {
            access_token,
            refresh_token,
            ..
        } if access_token == "access-winner" && refresh_token == "refresh-winner"
    ));
}

#[test]
fn remove_undoes_add() {
    let mut store = AccountsStore::empty();
    let first = add_account(&mut store, api_account("First", "sk-first")).expect("add first");
    let before: Vec<String> = store.accounts.iter().map(|a| a.id.clone()).collect();

    let second = add_account(&mut store, api_account("Second", "sk-second")).expect("add second");
    assert_eq!(store.accounts.len(), 2);
    remove_account(&mut store, &second.id).expect("remove second");

    let after: Vec<String> = store.accounts.iter().map(|a| a.id.clone()).collect();
    assert_eq!(after, before);
    assert_eq!(store.active_account_id, Some(first.id));
}

#[test]
fn removing_the_active_account_activates_the_first_remaining() {
    let mut store = AccountsStore::empty();
    let first = add_account(&mut store, api_account("First", "sk-first")).expect("add first");
    let second = add_account(&mut store, api_account("Second", "sk-second")).expect("add second");

    remove_account(&mut store, &first.id).expect("remove active");
    assert_eq!(store.active_account_id, Some(second.id.clone()));
    remove_account(&mut store, &second.id).expect("remove last");
    assert!(store.active_account_id.is_none());
    assert!(matches!(
        remove_account(&mut store, "missing"),
        Err(StoreError::AccountNotFound)
    ));
}

#[test]
fn duplicate_names_are_refused() {
    let mut store = AccountsStore::empty();
    add_account(&mut store, api_account("Same", "sk-first")).expect("add first");
    assert!(matches!(
        add_account(&mut store, api_account("Same", "sk-second")),
        Err(StoreError::NameTaken)
    ));
}

#[test]
fn masked_ids_read_back_what_was_written() {
    let mut store = AccountsStore::empty();
    set_masked_account_ids(&mut store, vec!["a".to_string(), "b".to_string()]);
    assert_eq!(get_masked_account_ids(&store), vec!["a".to_string(), "b".to_string()]);
}

#[test]
fn next_auto_name_skips_taken_numbers() {
    let mut store = AccountsStore::empty();
    add_account(&mut store, api_account("AC 1", "sk-1")).expect("add");
    add_account(&mut store, api_account("AC 3", "sk-3")).expect("add");
    assert_eq!(next_auto_account_name(&store, "AC"), "AC 2");
    assert_eq!(next_auto_account_name(&store, "  "), "Account 1");
}

#[test]
fn merging_the_same_import_twice_adds_nothing() {
    let mut store = AccountsStore::empty();
    add_account(&mut store, api_account("Existing", "sk-existing")).expect("add");
    let mut imported = AccountsStore::empty();
    add_account(&mut imported, api_account("Imported", "sk-imported")).expect("add");
    add_account(&mut imported, api_account("Existing", "sk-other")).expect("add");

    let first = merge_accounts_store(&mut store, imported.clone()).expect("merge");
    assert_eq!(first.imported_count, 1);
    assert_eq!(first.skipped_count, 1);
    assert_eq!(store.accounts.len(), 2);

    let second = merge_accounts_store(&mut store, imported).expect("merge again");
    assert_eq!(second.imported_count, 0);
    assert_eq!(store.accounts.len(), 2);
}

#[test]
fn renaming_to_a_taken_name_is_refused() {
    let mut store = AccountsStore::empty();
    let first = add_account(&mut store, api_account("First", "sk-first")).expect("add");
    add_account(&mut store, api_account("Second", "sk-second")).expect("add");
    assert!(matches!(
        update_account_metadata(&mut store, &first.id, Some("Second".to_string()), None, None),
        Err(StoreError::NameTaken)
    ));
    update_account_metadata(&mut store, &first.id, Some("Renamed".to_string()), None, None)
        .expect("rename");
    assert_eq!(store.accounts[0].name, "Renamed");
}

#[test]
fn background_token_update_preserves_live_auth_bytes() {
    let mut store = AccountsStore::empty();
    let active = add_account(&mut store, api_account("Active", "sk-active")).expect("add active");
    let background =
        add_account(&mut store, chatgpt_account("Background", "old")).expect("add background");
    let expected =
        chatgpt_auth_data_fingerprint(&background.auth_data).expect("fingerprint background");

    let step = update_account_chatgpt_tokens_after_refresh(
        &mut store,
        &background.id,
        &expected,
        ChatGptTokenUpdate {
            id_token: "id-new".to_string(),
            access_token: "access-new".to_string(),
            refresh_token: "refresh-new".to_string(),
            account_id: Some("acct-new".to_string()),
            email: None,
            plan_type: None,
            last_refresh: None,
        },
        Some(&active.id),
    )
    .expect("update catalog tokens");

    assert!(matches!(step, RefreshCommitStep::Updated { auth: None, .. }));
    assert_eq!(store.active_account_id.as_deref(), Some(active.id.as_str()));
}

#[test]
fn auto_named_accounts_take_the_least_free_name() {
    let mut store = AccountsStore::empty();
    add_account(&mut store, api_account("AC 1", "sk-1")).expect("add");
    let added = add_account_with_auto_name(&mut store, api_account("ignored", "sk-2"), "AC")
        .expect("add with automatic name");
    assert_eq!(added.name, "AC 2");
    assert_eq!(store.accounts.len(), 2);
    let shared = add_account_with_auto_name(&mut store, api_account("x", "sk-2"), "AC");
    assert!(matches!(shared, Err(StoreError::Catalog(_))));
    assert_eq!(store.accounts.len(), 2);
}

#[test]
fn merged_catalog_keeps_ids_and_names_distinct() {
    let mut store = AccountsStore::empty();
    let existing = add_account(&mut store, api_account("Existing", "sk-existing")).expect("add");
    let mut imported = AccountsStore::empty();
    add_account(&mut imported, api_account("Fresh", "sk-fresh")).expect("add");
    imported.accounts.push(api_account("Fresh", "sk-fresh-two"));
    let mut same_id = api_account("Other name", "sk-same-id");
    same_id.id = existing.id.clone();
    imported.accounts.push(same_id);

    let summary = merge_accounts_store(&mut store, imported).expect("merge");
    assert_eq!(summary.imported_count, 1);
    assert_eq!(summary.skipped_count, 2);
    for (i, a) in store.accounts.iter().enumerate() {
        for b in &store.accounts[i + 1..] {
            assert_ne!(a.id, b.id);
            assert_ne!(a.name, b.name);
        }
    }
}

#[test]
fn storing_fresh_tokens_updates_the_stored_account() {
    let mut store = AccountsStore::empty();
    let account = StoredAccount::new_chatgpt(
        "ChatGPT".to_string(),
        None,
        None,
        "id-old".to_string(),
        "access-old".to_string(),
        "refresh-old".to_string(),
        Some("acct-one".to_string()),
    );
    add_account(&mut store, account.clone()).expect("add");
    let updated = update_account_chatgpt_tokens(
        &mut store,
        &account.id,
        "id-new".to_string(),
        "access-new".to_string(),
        "refresh-new".to_string(),
        None,
        None,
        None,
    )
    .expect("store tokens");
    match &store.accounts[0].auth_data {
        AuthData::ChatGPT { refresh_token, account_id, last_refresh, .. } => {
            assert_eq!(refresh_token, "refresh-new");
            assert_eq!(account_id.as_deref(), Some("acct-one"));
            assert!(last_refresh.is_some());
        }
        AuthData::ApiKey { .. } => panic!("expected ChatGPT account"),
    }
    assert_eq!(updated.previous_chatgpt_credential_hashes.len(), 1);
    let error = update_account_chatgpt_tokens(
        &mut store,
        "missing",
        "i".to_string(),
        "a".to_string(),
        "r".to_string(),
        None,
        None,
        None,
    )
    .err()
    .expect("refused");
    assert!(matches!(error, StoreError::UpdatedAccountNotFound));
    assert_eq!(error.message("missing", ""), "Account not found");
}

#[test]
fn updating_an_unknown_account_reports_account_not_found() {
    let mut store = AccountsStore::empty();
    add_account(&mut store, api_account("First", "sk-first")).expect("add");
    let error = update_account_metadata(&mut store, "missing", Some("Other".to_string()), None, None)
        .err()
        .expect("refused");
    assert!(matches!(error, StoreError::UpdatedAccountNotFound));
    assert_eq!(error.message("missing", "Other"), "Account not found");
    let error = remove_account(&mut store, "missing").err().expect("refused");
    assert_eq!(error.message("missing", ""), "Account not found: missing");
}
