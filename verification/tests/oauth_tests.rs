use base64::engine::general_purpose::URL_SAFE_NO_PAD;
use base64::Engine as _;
use codex_switcher::oauth::{
    build_authorize_url, complete_oauth_exchange, generate_pkce, generate_state,
    handle_oauth_request, oauth_redirect_uri, token_exchange_body, OAuthCompletionError,
    OAuthFlows, OAuthRequestAction, PkceCodes, CLIENT_ID, DEFAULT_ISSUER, DEFAULT_PORT,
};
use codex_switcher::oauth::{
    login_completion_start, login_completion_step, LoginAction, LoginFailure, LoginState,
};
use codex_switcher::refresh::{
    check_refresh_token_for_new_account, create_chatgpt_account_from_refresh_token, needs_refresh,
    refresh_request_body, refresh_request_for, refresh_retry_delay_ms, refresh_winner_after_commit,
    refresh_winner_step, token_update_from_refresh, RefreshTokenResponse, RefreshWinnerStep,
    TokenRefreshError,
};
use codex_switcher::types::{AuthData, StoredAccount};
use sha2::Digest;

fn jwt(payload: &str) -> String {
    format!("header.{}.signature", URL_SAFE_NO_PAD.encode(payload.as_bytes()))
}

#[test]
fn redirect_uri_names_the_local_callback() {
    assert_eq!(oauth_redirect_uri(DEFAULT_PORT), "http://localhost:1455/auth/callback");
}

#[test]
fn authorize_url_carries_every_parameter_encoded() {
    let pkce = PkceCodes {
        code_verifier: "verifier".to_string(),
        code_challenge: "chal+lenge".to_string(),
    };
    let url = build_authorize_url(DEFAULT_ISSUER, CLIENT_ID, "http://localhost:1455/auth/callback", &pkce, "st ate");
    assert_eq!(
        url,
        "https://auth.openai.com/oauth/authorize?response_type=code&client_id=app_EMoamEEZ73f0CkXaXp7hrann&redirect_uri=http%3A%2F%2Flocalhost%3A1455%2Fauth%2Fcallback&scope=openid%20profile%20email%20offline_access&code_challenge=chal%2Blenge&code_challenge_method=S256&id_token_add_organizations=true&codex_cli_simplified_flow=true&state=st%20ate&originator=codex_cli_rs"
    );
}

#[test]
fn token_exchange_body_is_form_encoded() {
    let pkce = PkceCodes { code_verifier: "v~1".to_string(), code_challenge: String::new() };
    assert_eq!(
        token_exchange_body("c/d", "http://x", "id", &pkce),
        "grant_type=authorization_code&code=c%2Fd&redirect_uri=http%3A%2F%2Fx&client_id=id&code_verifier=v~1"
    );
    assert_eq!(
        refresh_request_body("r t"),
        "grant_type=refresh_token&refresh_token=r%20t&client_id=app_EMoamEEZ73f0CkXaXp7hrann"
    );
}

#[test]
fn pkce_challenge_is_the_hash_of_the_verifier() {
    let pkce = generate_pkce();
    let digest = sha2::Sha256::digest(pkce.code_verifier.as_bytes());
    assert_eq!(pkce.code_challenge, URL_SAFE_NO_PAD.encode(digest));
    assert_eq!(URL_SAFE_NO_PAD.decode(&pkce.code_verifier).expect("base64").len(), 64);
    assert_eq!(URL_SAFE_NO_PAD.decode(generate_state()).expect("base64").len(), 32);
}

#[test]
fn callback_requests_are_answered_by_their_kind() {
    assert!(matches!(
        handle_oauth_request("/favicon.ico", "s"),
        OAuthRequestAction::Respond { status: 404, .. }
    ));
    assert!(matches!(
        handle_oauth_request("/auth/callback?code=abc&state=wrong", "s"),
        OAuthRequestAction::Respond { status: 400, ref body } if body == "State mismatch"
    ));
    assert!(matches!(
        handle_oauth_request("/auth/callback?state=s&error=denied&error_description=no%20way", "s"),
        OAuthRequestAction::Fail { status: 400, ref error, .. } if error == "OAuth error: denied - no way"
    ));
    assert!(matches!(
        handle_oauth_request("/auth/callback?state=s", "s"),
        OAuthRequestAction::Fail { ref error, .. } if error == "Missing authorization code"
    ));
    assert!(matches!(
        handle_oauth_request("/auth/callback?state=s&code=abc", "s"),
        OAuthRequestAction::Exchange { ref code } if code == "abc"
    ));
}

#[test]
fn cancelled_flows_stay_cancelled() {
    let mut flows = OAuthFlows { pending: Some(1), active: Some(2), cancelled: vec![] };
    flows.signal_active_cancel();
    assert!(flows.is_cancelled(1));
    assert!(flows.is_cancelled(2));
    assert!(!flows.is_cancelled(3));
    flows.active = Some(3);
    flows.clear_active_cancel_if_matches(3);
    assert!(flows.active.is_none());
    assert!(flows.is_cancelled(2));
}

#[test]
fn completed_exchange_builds_the_account_unless_cancelled() {
    let id_token = jwt(
        "{\"email\":\"a@b.c\",\"https://api.openai.com/auth\":{\"chatgpt_account_id\":\"acct-9\",\"chatgpt_plan_type\":\"pro\"}}",
    );
    let account = complete_oauth_exchange(
        "Work".to_string(),
        id_token.clone(),
        "access".to_string(),
        "refresh".to_string(),
        false,
    )
    .expect("account");
    assert_eq!(account.email.as_deref(), Some("a@b.c"));
    assert_eq!(account.plan_type.as_deref(), Some("pro"));
    assert!(matches!(
        account.auth_data,
        AuthData::ChatGPT { ref account_id, .. } if account_id.as_deref() == Some("acct-9")
    ));
    assert!(matches!(
        complete_oauth_exchange("Work".to_string(), id_token, "a".to_string(), "r".to_string(), true),
        Err(OAuthCompletionError::Cancelled)
    ));
}

fn chatgpt(access_token: String, refresh_token: &str) -> StoredAccount {
    StoredAccount::new_chatgpt(
        "ChatGPT".to_string(),
        None,
        Some("plus".to_string()),
        jwt("{\"https://api.openai.com/auth\":{\"chatgpt_account_id\":\"acct-one\"}}"),
        access_token,
        refresh_token.to_string(),
        Some("acct-one".to_string()),
    )
}

#[test]
fn refresh_is_needed_only_for_expiring_chatgpt_tokens() {
    let now = 1_900_000_000;
    let fresh = chatgpt(jwt(&format!("{{\"exp\":{}}}", now + 3600)), "r");
    let expiring = chatgpt(jwt(&format!("{{\"exp\":{}}}", now + 30)), "r");
    let api = StoredAccount::new_api_key("Key".to_string(), "sk".to_string());
    assert!(!needs_refresh(&fresh, now));
    assert!(needs_refresh(&expiring, now));
    assert!(!needs_refresh(&api, now));
    assert_eq!(refresh_request_for(&api), Ok(None));
    assert_eq!(refresh_request_for(&fresh), Ok(Some("r".to_string())));
    assert!(matches!(
        refresh_request_for(&chatgpt("a".to_string(), "")),
        Err(TokenRefreshError::MissingRefreshToken(_))
    ));
}

#[test]
fn refresh_retries_twice_with_growing_delays() {
    assert_eq!(refresh_retry_delay_ms(1), Some(250));
    assert_eq!(refresh_retry_delay_ms(2), Some(500));
    assert_eq!(refresh_retry_delay_ms(3), None);
}

#[test]
fn refresh_response_keeps_tokens_it_does_not_rotate() {
    let account = chatgpt("old-access".to_string(), "old-refresh");
    let update = token_update_from_refresh(
        &account,
        RefreshTokenResponse { id_token: None, access_token: "new-access".to_string(), refresh_token: None },
        "2030-01-01T00:00:00Z".to_string(),
    )
    .expect("update");
    assert_eq!(update.access_token, "new-access");
    assert_eq!(update.refresh_token, "old-refresh");
    assert_eq!(update.account_id.as_deref(), Some("acct-one"));
    assert_eq!(update.last_refresh.as_deref(), Some("2030-01-01T00:00:00Z"));
}

#[test]
fn new_account_from_refresh_token_needs_an_id_token() {
    assert!(check_refresh_token_for_new_account(&"A".to_string(), &"  ".to_string()).is_err());
    assert!(matches!(
        create_chatgpt_account_from_refresh_token(
            "A".to_string(),
            "rt".to_string(),
            RefreshTokenResponse { id_token: None, access_token: "a".to_string(), refresh_token: None },
        ),
        Err(TokenRefreshError::MissingIdToken)
    ));
    let account = create_chatgpt_account_from_refresh_token(
        "A".to_string(),
        "rt".to_string(),
        RefreshTokenResponse {
            id_token: Some(jwt("{\"email\":\"x@y.z\"}")),
            access_token: "a".to_string(),
            refresh_token: Some("rotated".to_string()),
        },
    )
    .expect("account");
    assert!(matches!(
        account.auth_data,
        AuthData::ChatGPT { ref refresh_token, .. } if refresh_token == "rotated"
    ));
}

#[test]
fn refresh_winner_decisions() {
    assert_eq!(refresh_winner_step(true, false, true), RefreshWinnerStep::Retry);
    assert_eq!(refresh_winner_step(false, false, false), RefreshWinnerStep::ReturnWinner);
    assert_eq!(refresh_winner_step(true, true, true), RefreshWinnerStep::CommitCatalog);
    assert!(refresh_winner_after_commit(false, false));
    assert!(!refresh_winner_after_commit(true, false));
}

#[test]
fn cancelled_completed_flow_does_not_persist_the_account() {
    let mut flows = OAuthFlows { pending: Some(7), active: None, cancelled: Vec::new() };
    let (state, action) = login_completion_start(&mut flows, 7);
    assert_eq!(action, LoginAction::AwaitTokens);
    assert_eq!(flows.active, Some(7));
    flows.cancelled.push(7);

    let (state, action) = login_completion_step(&mut flows, 7, state, true);

    assert_eq!(state, LoginState::Failed(LoginFailure::Cancelled));
    assert_eq!(action, LoginAction::Abort(LoginFailure::Cancelled));
    assert!(LoginFailure::Cancelled.message().contains("cancelled"));
    assert!(flows.pending.is_none());
    assert!(flows.active.is_none());
}

#[test]
fn login_completion_stores_then_forgets_the_flow() {
    let mut flows = OAuthFlows { pending: Some(3), active: None, cancelled: Vec::new() };
    let (state, _) = login_completion_start(&mut flows, 3);
    let (state, action) = login_completion_step(&mut flows, 3, state, true);
    assert_eq!(action, LoginAction::StoreAccount);
    assert_eq!(flows.active, Some(3));
    let (state, action) = login_completion_step(&mut flows, 3, state, true);
    assert_eq!((state, action), (LoginState::Done, LoginAction::Finish));
    assert!(flows.active.is_none());

    let mut failing = OAuthFlows { pending: Some(4), active: None, cancelled: Vec::new() };
    let (state, _) = login_completion_start(&mut failing, 4);
    let (_, action) = login_completion_step(&mut failing, 4, state, false);
    assert_eq!(action, LoginAction::Abort(LoginFailure::ExchangeFailed));
    assert!(failing.active.is_none());
}
