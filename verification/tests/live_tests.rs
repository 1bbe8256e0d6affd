use base64::engine::general_purpose::URL_SAFE_NO_PAD;
use base64::Engine as _;
use codex_switcher::activation::{plan_current_auth_reconcile, ReconcileCurrentError};
use codex_switcher::catalog::{update_account_chatgpt_tokens_with_last_refresh, ChatGptTokenUpdate};
use codex_switcher::digest::chatgpt_auth_data_fingerprint;
use codex_switcher::identity::validate_auth_dot_json;
use codex_switcher::jwt::{
    parse_id_token_subscription_active_until, token_expired_or_near_expiry,
    token_expired_or_near_expiry_at,
};
use codex_switcher::live::{
    create_auth_json, reconcile_live_auth, resolve_live_auth, LiveAuthError, LiveAuthFile,
    LiveAuthResolution, LiveAuthState,
};
use codex_switcher::types::{AccountsStore, AuthData, AuthDotJson, StoredAccount, TokenData};

fn jwt_with_payload(payload: &str) -> String {
    let encoded = URL_SAFE_NO_PAD.encode(payload.as_bytes());
    format!("header.{encoded}.signature")
}

fn id_token(email: &str, account_id: Option<&str>) -> String {
    let auth = match account_id {
        Some(id) => format!("{{\"chatgpt_account_id\":\"{id}\",\"chatgpt_plan_type\":\"plus\"}}"),
        None => "{\"chatgpt_plan_type\":\"plus\"}".to_string(),
    };
    jwt_with_payload(&format!(
        "{{\"email\":\"{email}\",\"https://api.openai.com/auth\":{auth}}}"
    ))
}

fn access_token(expiry: i64) -> String {
    jwt_with_payload(&format!("{{\"exp\":{expiry}}}"))
}

fn now() -> i64 {
    chrono::Utc::now().timestamp()
}

fn chatgpt_account(name: &str, account_id: Option<&str>) -> StoredAccount {
    StoredAccount::new_chatgpt_with_last_refresh(
        name.to_string(),
        Some("shared@example.com".to_string()),
        Some("plus".to_string()),
        id_token("shared@example.com", account_id),
        access_token(now() + 3600),
        "refresh-stored".to_string(),
        account_id.map(String::from),
        Some("2026-07-20T00:00:00Z".to_string()),
    )
}

fn store_with(accounts: Vec<StoredAccount>) -> AccountsStore {
    AccountsStore {
        version: 1,
        accounts,
        active_account_id: None,
        masked_account_ids: Vec::new(),
    }
}

fn refresh_token_of(account: &StoredAccount) -> String {
    match &account.auth_data {
        AuthData::ChatGPT { refresh_token, .. } => refresh_token.clone(),
        AuthData::ApiKey { .. } => panic!("expected ChatGPT account"),
    }
}

#[test]
fn parses_subscription_active_until_without_using_token_expiry() {
    let token = jwt_with_payload(
        "{\"exp\":1900000000,\"https://api.openai.com/auth\":{\"chatgpt_subscription_active_until\":\"2026-09-12T05:30:00Z\"}}",
    );

    let active_until =
        parse_id_token_subscription_active_until(&token).expect("subscription claim should parse");

    assert_eq!(active_until, "2026-09-12T05:30:00+00:00");
    let timestamp = chrono::DateTime::parse_from_rfc3339(&active_until)
        .expect("normalized time")
        .timestamp();
    assert_ne!(timestamp, 1_900_000_000);
}

#[test]
fn exact_bundle_resolves_without_timestamps() {
    let mut account = chatgpt_account("Exact", Some("acct-one"));
    if let AuthData::ChatGPT { last_refresh, .. } = &mut account.auth_data {
        *last_refresh = None;
    }
    let auth = create_auth_json(&account);
    let mut store = store_with(vec![account.clone()]);

    let outcome =
        reconcile_live_auth(&mut store, &LiveAuthFile::Present(auth)).expect("resolve");

    assert!(outcome.state == LiveAuthState::Exact);
    assert_eq!(outcome.matched_account_id.as_deref(), Some(account.id.as_str()));
}

#[test]
fn changed_bundle_without_stable_identity_does_not_fall_back_to_email() {
    let account = chatgpt_account("Stored", None);
    let auth = AuthDotJson {
        openai_api_key: None,
        tokens: Some(TokenData {
            id_token: id_token("shared@example.com", None),
            access_token: "access-live".to_string(),
            refresh_token: "refresh-live".to_string(),
            account_id: None,
        }),
        last_refresh: Some("2026-07-21T00:00:00Z".to_string()),
    };
    let mut store = store_with(vec![account]);

    let error = reconcile_live_auth(&mut store, &LiveAuthFile::Present(auth))
        .err()
        .expect("identity-less change should fail");

    assert!(error.message().contains("no stable ChatGPT account ID"));
}

#[test]
fn changed_bundle_with_equal_timestamp_is_imported_as_external_state() {
    let account = chatgpt_account("Stored", Some("acct-one"));
    let auth = AuthDotJson {
        openai_api_key: None,
        tokens: Some(TokenData {
            id_token: id_token("shared@example.com", Some("acct-one")),
            access_token: access_token(now() + 7200),
            refresh_token: "refresh-live".to_string(),
            account_id: Some("acct-one".to_string()),
        }),
        last_refresh: Some("2026-07-20T00:00:00Z".to_string()),
    };
    let mut store = store_with(vec![account]);

    let outcome = reconcile_live_auth(&mut store, &LiveAuthFile::Present(auth))
        .expect("import live auth");

    assert!(outcome.state == LiveAuthState::Newer);
    assert_eq!(refresh_token_of(&store.accounts[0]), "refresh-live");
}

#[test]
fn clock_rollback_does_not_replace_newer_external_credentials() {
    let account = chatgpt_account("Stored", Some("acct-one"));
    let auth = AuthDotJson {
        openai_api_key: None,
        tokens: Some(TokenData {
            id_token: id_token("shared@example.com", Some("acct-one")),
            access_token: access_token(now() + 7200),
            refresh_token: "refresh-after-clock-rollback".to_string(),
            account_id: Some("acct-one".to_string()),
        }),
        last_refresh: Some("2026-07-19T00:00:00Z".to_string()),
    };
    let mut store = store_with(vec![account]);

    let outcome = reconcile_live_auth(&mut store, &LiveAuthFile::Present(auth))
        .expect("import live auth");

    assert!(outcome.state == LiveAuthState::Newer);
    assert_eq!(
        refresh_token_of(&store.accounts[0]),
        "refresh-after-clock-rollback"
    );
}

#[test]
fn malformed_changed_live_tokens_cannot_replace_stored_credentials() {
    let account = chatgpt_account("Stored", Some("acct-one"));
    let auth = AuthDotJson {
        openai_api_key: None,
        tokens: Some(TokenData {
            id_token: "malformed-id-token".to_string(),
            access_token: "malformed-access-token".to_string(),
            refresh_token: "refresh-live".to_string(),
            account_id: Some("acct-one".to_string()),
        }),
        last_refresh: Some(chrono::Utc::now().to_rfc3339()),
    };
    let mut store = store_with(vec![account]);

    let error = reconcile_live_auth(&mut store, &LiveAuthFile::Present(auth))
        .err()
        .expect("malformed live auth should fail");

    assert!(error.message().contains("malformed ChatGPT tokens"));
    assert_eq!(refresh_token_of(&store.accounts[0]), "refresh-stored");
}

#[test]
fn mixed_auth_modes_are_rejected() {
    let auth = AuthDotJson {
        openai_api_key: Some("sk-test".to_string()),
        tokens: Some(TokenData {
            id_token: id_token("user@example.com", Some("acct-one")),
            access_token: "access".to_string(),
            refresh_token: "refresh".to_string(),
            account_id: Some("acct-one".to_string()),
        }),
        last_refresh: None,
    };

    assert!(validate_auth_dot_json(&auth).is_err());
}

#[test]
fn detects_expired_near_expiry_and_unknown_access_tokens() {
    let now = now();
    assert!(token_expired_or_near_expiry(&access_token(now - 1)));
    assert!(token_expired_or_near_expiry(&access_token(now + 30)));
    assert!(token_expired_or_near_expiry("not-a-jwt"));
    assert!(!token_expired_or_near_expiry(&access_token(now + 120)));
}

#[test]
fn expiry_skew_is_sixty_seconds_at_a_fixed_time() {
    let now = 1_800_000_000;
    assert!(token_expired_or_near_expiry_at(&access_token(now + 60), now));
    assert!(!token_expired_or_near_expiry_at(&access_token(now + 61), now));
}

#[test]
fn reconciling_twice_resolves_adopted_credentials_exactly() {
    let account = chatgpt_account("Stored", Some("acct-one"));
    let auth = AuthDotJson {
        openai_api_key: None,
        tokens: Some(TokenData {
            id_token: id_token("shared@example.com", Some("acct-one")),
            access_token: access_token(now() + 7200),
            refresh_token: "refresh-live".to_string(),
            account_id: Some("acct-one".to_string()),
        }),
        last_refresh: Some("2026-07-21T00:00:00Z".to_string()),
    };
    let live = LiveAuthFile::Present(auth);
    let mut store = store_with(vec![account.clone()]);

    let first = reconcile_live_auth(&mut store, &live).expect("adopt newer credentials");
    assert!(first.state == LiveAuthState::Newer);
    assert!(first.catalog_changed);
    assert_eq!(store.active_account_id.as_deref(), Some(account.id.as_str()));

    let second = reconcile_live_auth(&mut store, &live).expect("resolve again");
    assert!(second.state == LiveAuthState::Exact);
    assert!(!second.catalog_changed);
}

#[test]
fn replaced_generation_left_in_auth_json_is_repaired_from_the_catalog() {
    let stale = StoredAccount::new_chatgpt_with_last_refresh(
        "ChatGPT".to_string(),
        Some("ChatGPT@example.com".to_string()),
        Some("plus".to_string()),
        "id-stale".to_string(),
        "access-stale".to_string(),
        "refresh-stale".to_string(),
        Some("acct-current".to_string()),
        Some("2026-07-20T00:00:00Z".to_string()),
    );
    let stale_live = create_auth_json(&stale);
    let mut store = store_with(vec![stale.clone()]);
    update_account_chatgpt_tokens_with_last_refresh(
        &mut store,
        stale.id.as_str(),
        None,
        ChatGptTokenUpdate {
            id_token: "id-current".to_string(),
            access_token: "access-current".to_string(),
            refresh_token: "refresh-current".to_string(),
            account_id: None,
            email: None,
            plan_type: None,
            last_refresh: Some("2026-07-20T00:01:00Z".to_string()),
        },
    )
    .expect("store current generation");
    assert_eq!(store.accounts[0].previous_chatgpt_credential_hashes.len(), 1);

    let plan = plan_current_auth_reconcile(&mut store, &LiveAuthFile::Present(stale_live))
        .expect("repair stale live credentials");

    assert!(plan.outcome.state == LiveAuthState::Stale);
    let live = plan.publish_auth.expect("live credentials exist");
    assert!(matches!(
        live.tokens,
        Some(TokenData {
            access_token,
            refresh_token,
            ..
        }) if access_token == "access-current" && refresh_token == "refresh-current"
    ));
    assert_eq!(store.active_account_id.as_deref(), Some(stale.id.as_str()));
}

#[test]
fn recorded_fingerprint_is_that_of_the_replaced_bundle() {
    let account = chatgpt_account("Stored", Some("acct-one"));
    let replaced = chatgpt_auth_data_fingerprint(&account.auth_data).expect("fingerprint");
    let mut store = store_with(vec![account.clone()]);
    let updated = update_account_chatgpt_tokens_with_last_refresh(
        &mut store,
        account.id.as_str(),
        None,
        ChatGptTokenUpdate {
            id_token: id_token("shared@example.com", Some("acct-one")),
            access_token: access_token(now() + 7200),
            refresh_token: "refresh-next".to_string(),
            account_id: None,
            email: None,
            plan_type: None,
            last_refresh: Some("2026-07-21T00:00:00Z".to_string()),
        },
    )
    .expect("update tokens");
    assert_eq!(updated.previous_chatgpt_credential_hashes, vec![replaced]);
    assert_eq!(store.accounts[0].previous_chatgpt_credential_hashes.len(), 1);
}

#[test]
fn unknown_api_key_is_refused_and_leaves_the_catalog() {
    let account = StoredAccount::new_api_key("Primary".to_string(), "sk-primary".to_string());
    let mut store = store_with(vec![account]);
    let live = LiveAuthFile::Present(AuthDotJson {
        openai_api_key: Some("sk-unknown".to_string()),
        tokens: None,
        last_refresh: None,
    });

    let error = plan_current_auth_reconcile(&mut store, &live).err().expect("refused");
    assert!(matches!(
        error,
        ReconcileCurrentError::Live(LiveAuthError::UnknownApiKey)
    ));
    assert!(store.active_account_id.is_none());
}

#[test]
fn missing_auth_clears_the_active_account() {
    let account = StoredAccount::new_api_key("Primary".to_string(), "sk-primary".to_string());
    let mut store = store_with(vec![account.clone()]);
    store.active_account_id = Some(account.id.clone());

    let outcome = reconcile_live_auth(&mut store, &LiveAuthFile::Missing).expect("missing");
    assert!(outcome.state == LiveAuthState::Missing);
    assert!(outcome.catalog_changed);
    assert!(store.active_account_id.is_none());
}

#[test]
fn ambiguous_exact_match_is_refused() {
    let first = StoredAccount::new_api_key("First".to_string(), "sk-shared".to_string());
    let second = StoredAccount::new_api_key("Second".to_string(), "sk-shared".to_string());
    let store = store_with(vec![first, second]);
    let live = LiveAuthFile::Present(AuthDotJson {
        openai_api_key: Some("sk-shared".to_string()),
        tokens: None,
        last_refresh: None,
    });

    assert!(matches!(
        resolve_live_auth(&store, &live),
        Err(LiveAuthError::Catalog(_))
    ));
}

#[test]
fn unparseable_auth_is_refused() {
    let store = store_with(Vec::new());
    assert!(matches!(
        resolve_live_auth(&store, &LiveAuthFile::Unparseable),
        Err(LiveAuthError::Unparseable)
    ));
    assert!(matches!(
        resolve_live_auth(&store, &LiveAuthFile::Missing),
        Ok(LiveAuthResolution::Missing)
    ));
}

#[test]
fn unknown_api_key_refusal_says_it_is_not_in_the_catalog() {
    assert!(LiveAuthError::UnknownApiKey
        .message()
        .contains("not in the account catalog"));
    assert_eq!(LiveAuthError::Unparseable.message(), "Failed to parse Codex auth.json");
}
