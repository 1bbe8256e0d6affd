use codex_switcher::digest::{chatgpt_auth_data_fingerprint, hex, sha256};
use codex_switcher::files::{
    commit_locked_file, display_name, get_accounts_file, get_codex_auth_file, get_codex_home,
    get_config_dir, missing_auth_snapshot, publish_fail_point, recovery_path, stage_fail_point,
    store_lock_is_contended, swap_start, swap_step, test_fail_point, FileSnapshot,
    LockedCommitAction, SwapAction, SwapFailure, SwapState,
};
use codex_switcher::identity::{
    stored_accounts_share_credentials, validate_stored_account_credentials, CredentialError,
};
use codex_switcher::jwt::{
    base64_url_decode, base64_url_encode, jwt_expiration, parse_id_token_claims,
    resolved_chatgpt_account_id,
};
use codex_switcher::live::account_from_auth_json;
use codex_switcher::types::{AuthData, AuthDotJson, StoredAccount, TokenData};

fn swap_run(expected: bool, desired: bool, oks: &[bool]) -> (SwapState, Vec<SwapAction>) {
    let (mut state, first) = swap_start();
    let mut actions = vec![first];
    for ok in oks {
        let (next, action) = swap_step(state, expected, desired, *ok);
        state = next;
        actions.push(action);
    }
    (state, actions)
}

#[test]
fn replacing_a_file_moves_it_aside_and_verifies_it() {
    let (state, actions) = swap_run(true, true, &[true, false, true, true, true, true]);
    assert_eq!(state, SwapState::Done);
    assert_eq!(
        actions,
        vec![
            SwapAction::RemoveStaleSidecar,
            SwapAction::CheckSidecarExists,
            SwapAction::MoveFileAside,
            SwapAction::CheckAsideIsExpected,
            SwapAction::MoveStagedInWithoutReplacing,
            SwapAction::RemoveSidecarQuietly,
            SwapAction::Finish,
        ]
    );
}

#[test]
fn a_file_changed_by_someone_else_is_put_back() {
    let (state, actions) = swap_run(true, true, &[true, false, true, false, true]);
    assert_eq!(state, SwapState::Failed(SwapFailure::Changed));
    assert_eq!(actions[4], SwapAction::MoveAsideBack);
}

#[test]
fn a_pending_recovery_blocks_publication() {
    let (state, _) = swap_run(false, true, &[true, true]);
    assert_eq!(state, SwapState::Failed(SwapFailure::AwaitingRecovery));
    let (state, _) = swap_run(false, true, &[false]);
    assert_eq!(state, SwapState::Failed(SwapFailure::RecoveryFailed));
}

#[test]
fn a_new_file_never_replaces_one_that_appeared() {
    let (state, actions) = swap_run(false, true, &[true, false, false]);
    assert_eq!(actions[2], SwapAction::MoveStagedInWithoutReplacing);
    assert_eq!(state, SwapState::Failed(SwapFailure::Changed));
}

#[test]
fn failed_publication_restores_the_aside_copy_only_over_nothing() {
    let (state, actions) = swap_run(true, true, &[true, false, true, true, false, false, true]);
    assert_eq!(actions[5], SwapAction::CheckFileExists);
    assert_eq!(actions[6], SwapAction::MoveAsideBack);
    assert_eq!(state, SwapState::Failed(SwapFailure::NotAppliedRestored));
    let (state, _) = swap_run(true, true, &[true, false, true, true, false, true]);
    assert_eq!(state, SwapState::Failed(SwapFailure::PublicationFailed));
}

#[test]
fn locked_files_are_only_written_when_unchanged() {
    assert_eq!(commit_locked_file(false, true), LockedCommitAction::Changed);
    assert_eq!(commit_locked_file(true, true), LockedCommitAction::Replace);
    assert_eq!(commit_locked_file(true, false), LockedCommitAction::Remove);
    assert!(store_lock_is_contended(true, None, false));
    assert!(store_lock_is_contended(false, Some(33), true));
    assert!(!store_lock_is_contended(false, Some(33), false));
}

#[test]
fn snapshots_compare_their_bytes() {
    let a = FileSnapshot::present(b"x".to_vec());
    assert!(a.same_as(&FileSnapshot::present(b"x".to_vec())));
    assert!(!a.same_as(&missing_auth_snapshot()));
    assert!(missing_auth_snapshot().bytes().is_none());
}

#[test]
fn paths_are_joined_under_their_directories() {
    assert_eq!(get_config_dir(Some("  /tmp/cfg ".to_string())).expect("dir"), "/tmp/cfg");
    assert!(get_accounts_file("/tmp/cfg").ends_with("accounts.json"));
    assert_eq!(get_codex_home(Some("/tmp/codex".to_string())).expect("home"), "/tmp/codex");
    assert!(get_codex_auth_file("/tmp/codex").ends_with("auth.json"));
    assert_eq!(recovery_path("/a/auth.json"), "/a/auth.json.codex-switcher.recovery");
}

#[test]
fn change_labels_name_their_files_and_fail_points() {
    assert_eq!(display_name("rollback"), "Codex auth.json");
    assert_eq!(display_name("accounts"), "the account catalog");
    assert_eq!(stage_fail_point("auth"), "stage_auth");
    assert_eq!(publish_fail_point("other"), "publish_file");
    assert!(test_fail_point("stage_auth, publish_auth", "publish_auth"));
    assert!(!test_fail_point("stage_auth", "publish"));
}

#[test]
fn sha256_and_hex_match_the_standard_vector() {
    assert_eq!(
        hex(&sha256(b"abc")),
        "ba7816bf8f01cfea414140de5dae2223b00361a396177a9cb410ff61f20015ad"
    );
}

#[test]
fn fingerprints_tell_credential_bundles_apart() {
    let data = |refresh: &str| AuthData::ChatGPT {
        id_token: "id".to_string(),
        access_token: "access".to_string(),
        refresh_token: refresh.to_string(),
        account_id: None,
        last_refresh: None,
    };
    let a = chatgpt_auth_data_fingerprint(&data("one")).expect("fingerprint");
    assert_eq!(a.len(), 64);
    assert_eq!(Some(a.clone()), chatgpt_auth_data_fingerprint(&data("one")));
    assert_ne!(Some(a), chatgpt_auth_data_fingerprint(&data("two")));
    assert!(chatgpt_auth_data_fingerprint(&AuthData::ApiKey { key: "k".to_string() }).is_none());
}

#[test]
fn base64_url_round_trips() {
    let encoded = base64_url_encode(&[0xfb, 0xff, 0x00, 0x61]);
    assert_eq!(encoded, "-_8AYQ");
    assert_eq!(base64_url_decode(&encoded), Some(vec![0xfb, 0xff, 0x00, 0x61]));
    assert_eq!(base64_url_decode("***"), None);
}

#[test]
fn jwt_claims_are_read_from_the_payload() {
    let token = format!(
        "h.{}.s",
        base64_url_encode(b"{\"exp\":42,\"email\":\"a@b.c\",\"https://api.openai.com/auth\":{\"chatgpt_plan_type\":\"team\",\"chatgpt_account_id\":\" acct \"}}")
    );
    assert_eq!(jwt_expiration(&token), Some(42));
    assert_eq!(
        parse_id_token_claims(&token),
        (Some("a@b.c".to_string()), Some("team".to_string()))
    );
    assert_eq!(resolved_chatgpt_account_id(None, &token), Ok(Some("acct".to_string())));
    assert_eq!(resolved_chatgpt_account_id(Some("acct"), &token), Ok(Some("acct".to_string())));
    assert!(resolved_chatgpt_account_id(Some("other"), &token).is_err());
    assert_eq!(jwt_expiration("not.a-jwt"), None);
}

#[test]
fn stored_credentials_are_checked() {
    let mut blank = StoredAccount::new_api_key("Blank".to_string(), " ".to_string());
    assert_eq!(validate_stored_account_credentials(&blank), Err(CredentialError::MissingApiKey));
    blank.auth_data = AuthData::ChatGPT {
        id_token: "i".to_string(),
        access_token: "a".to_string(),
        refresh_token: "r".to_string(),
        account_id: None,
        last_refresh: None,
    };
    assert_eq!(validate_stored_account_credentials(&blank), Err(CredentialError::ModeMismatch));
    let a = StoredAccount::new_chatgpt("A".into(), None, None, "i1".into(), "a1".into(), "r".into(), None);
    let b = StoredAccount::new_chatgpt("B".into(), None, None, "i2".into(), "a2".into(), "r".into(), None);
    let c = StoredAccount::new_chatgpt("C".into(), None, None, "i3".into(), "a3".into(), "r3".into(), None);
    assert_eq!(stored_accounts_share_credentials(&a, &b), Ok(true));
    assert_eq!(stored_accounts_share_credentials(&a, &c), Ok(false));
}

#[test]
fn accounts_are_created_from_auth_files() {
    let api = account_from_auth_json(
        AuthDotJson { openai_api_key: Some("sk-1".to_string()), tokens: None, last_refresh: None },
        "Key".to_string(),
    )
    .expect("api key account");
    assert!(matches!(api.auth_data, AuthData::ApiKey { ref key } if key == "sk-1"));
    let empty = account_from_auth_json(
        AuthDotJson {
            openai_api_key: None,
            tokens: Some(TokenData {
                id_token: " ".to_string(),
                access_token: "a".to_string(),
                refresh_token: "r".to_string(),
                account_id: None,
            }),
            last_refresh: None,
        },
        "Chat".to_string(),
    );
    assert!(empty.is_err());
}

#[test]
fn sidecar_cleanup_failure_after_publication_keeps_the_new_file() {
    for cleanup_ok in [true, false] {
        let (state, actions) =
            swap_run(true, true, &[true, false, true, true, true, cleanup_ok, false, false]);
        assert_eq!(state, SwapState::Done);
        assert!(!actions.contains(&SwapAction::MoveAsideBack));
        assert_eq!(actions[6], SwapAction::Finish);
    }
}
