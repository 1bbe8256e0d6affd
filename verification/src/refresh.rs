//! ChatGPT token refresh: when an account needs one, what the refresh request carries, what a
//! refresh response makes of an account, and how refreshed tokens are reconciled with the
//! catalog when another refresh may have won the race. Calling the token endpoint and writing
//! files is the caller's part.

use vstd::prelude::*;

use crate::catalog::{
    apply_chatgpt_token_update, find_account_index, lemma_first_with_id, spec_after_update,
    spec_first_with_id, spec_id_present, spec_token_updated, ChatGptTokenUpdate, StoreError,
};
use crate::digest::{chatgpt_auth_data_fingerprint, spec_credential_fingerprint};
use crate::identity::{spec_catalog_unique, spec_validate_account, validate_catalog_credential_uniqueness};
use crate::jwt::{
    parse_id_token_account_id, parse_id_token_claims, spec_claim_account_id, spec_claim_email,
    spec_claim_plan_type, spec_token_expired_or_near_expiry, token_expired_or_near_expiry_at,
};
use crate::live::{auth_json_for_account, spec_auth_json_for};
use crate::oauth::{pair, pair_views, query_string, spec_query, CLIENT_ID};
use crate::text::{chars_of, concat_chars, is_blank, spec_is_blank, str_eq, string_from_chars};
use crate::types::{
    clone_opt_string, clone_string, opt_view, same_account, AccountsStore, AuthData, AuthDotJson,
    StoredAccount,
};

verus! {

/// What the token endpoint answers to a refresh.
#[derive(Debug, Clone)]
pub struct RefreshTokenResponse {
    pub id_token: Option<String>,
    pub access_token: String,
    pub refresh_token: Option<String>,
}

/// Why a refresh cannot be made or used.
#[derive(Debug, Clone, PartialEq, Eq)]
pub enum TokenRefreshError {
    /// The account has no refresh token.
    MissingRefreshToken(String),
    /// The response lacks an ID token.
    MissingIdToken,
}

impl TokenRefreshError {
    pub fn message(&self) -> (r: String)
        ensures
            r@ == match *self {
                TokenRefreshError::MissingRefreshToken(name) => "Missing refresh token for account "@
                    + name@,
                TokenRefreshError::MissingIdToken => "Refresh response did not include id_token"@,
            },
    {
        match self {
            TokenRefreshError::MissingRefreshToken(name) => {
                let head = chars_of("Missing refresh token for account ");
                let n = chars_of(name.as_str());
                string_from_chars(concat_chars(head.as_slice(), n.as_slice()).as_slice())
            },
            TokenRefreshError::MissingIdToken => string_from_chars(
                chars_of("Refresh response did not include id_token").as_slice(),
            ),
        }
    }
}

/// Whether an account's tokens must be refreshed before use at time `now`: only a ChatGPT
/// account whose access token expires within a minute (or has no readable expiry).
pub fn needs_refresh(account: &StoredAccount, now: i64) -> (r: bool)
    ensures
        r == match account.auth_data {
            AuthData::ApiKey { .. } => false,
            AuthData::ChatGPT { access_token, .. } => spec_token_expired_or_near_expiry(
                access_token@,
                now,
            ),
        },
{
    match &account.auth_data {
        AuthData::ApiKey { .. } => false,
        AuthData::ChatGPT { access_token, .. } => token_expired_or_near_expiry_at(
            access_token.as_str(),
            now,
        ),
    }
}

/// The refresh token to redeem for an account: none for an API-key account (it is kept as it
/// is); an empty refresh token is refused.
pub fn refresh_request_for(account: &StoredAccount) -> (r: Result<Option<String>, TokenRefreshError>)
    ensures
        match account.auth_data {
            AuthData::ApiKey { .. } => r == Ok::<Option<String>, TokenRefreshError>(None),
            AuthData::ChatGPT { refresh_token, .. } => if refresh_token@.len() == 0 {
                r matches Err(TokenRefreshError::MissingRefreshToken(n)) && n@ == account.name@
            } else {
                r matches Ok(Some(t)) && t@ == refresh_token@
            },
        },
{
    match &account.auth_data {
        AuthData::ApiKey { .. } => Ok(None),
        AuthData::ChatGPT { refresh_token, .. } => {
            if refresh_token.as_str().is_empty() {
                Err(TokenRefreshError::MissingRefreshToken(clone_string(&account.name)))
            } else {
                Ok(Some(clone_string(refresh_token)))
            }
        },
    }
}

/// The form body of a refresh request.
pub fn refresh_request_body(refresh_token: &str) -> (r: String)
    ensures
        r@ == "grant_type=refresh_token&"@ + spec_query(
            seq![("refresh_token"@, refresh_token@), ("client_id"@, CLIENT_ID@)],
        ),
{
    let mut params: Vec<(String, String)> = Vec::new();
    params.push(pair("refresh_token", refresh_token));
    params.push(pair("client_id", CLIENT_ID));
    assert(pair_views(params@) =~= seq![("refresh_token"@, refresh_token@), ("client_id"@, CLIENT_ID@)]);
    let q = query_string(&params);
    let head = chars_of("grant_type=refresh_token&");
    string_from_chars(concat_chars(head.as_slice(), q.as_slice()).as_slice())
}

/// How long to wait before trying a failed refresh request again (attempts are numbered from
/// 1): 250 ms times the attempt number, and no further try after the third.
pub fn refresh_retry_delay_ms(attempt: u8) -> (r: Option<u64>)
    ensures
        r == if attempt < 3 {
            Some((250 * attempt) as u64)
        } else {
            None::<u64>
        },
{
    if attempt < 3 {
        Some(250 * (attempt as u64))
    } else {
        None
    }
}

/// The token update a refresh response makes of a ChatGPT account: the new access token; the
/// new ID and refresh tokens where the response has them, else the current ones; the e-mail,
/// plan and ChatGPT account id of the resulting ID token (the current account id when it has
/// none); refreshed at `now`. `None` for an API-key account.
pub fn token_update_from_refresh(
    account: &StoredAccount,
    response: RefreshTokenResponse,
    now: String,
) -> (r: Option<ChatGptTokenUpdate>)
    ensures
        match account.auth_data {
            AuthData::ApiKey { .. } => r is None,
            AuthData::ChatGPT { id_token, refresh_token, account_id, .. } => r matches Some(u) && {
                &&& u.id_token == match response.id_token {
                    Some(t) => t,
                    None => id_token,
                }
                &&& u.access_token == response.access_token
                &&& u.refresh_token == match response.refresh_token {
                    Some(t) => t,
                    None => refresh_token,
                }
                &&& u.email == spec_claim_email(u.id_token@)
                &&& u.plan_type == spec_claim_plan_type(u.id_token@)
                &&& u.account_id == if spec_claim_account_id(u.id_token@) is Some {
                    spec_claim_account_id(u.id_token@)
                } else {
                    account_id
                }
                &&& u.last_refresh == Some(now)
            },
        },
{
    match &account.auth_data {
        AuthData::ApiKey { .. } => None,
        AuthData::ChatGPT { id_token, refresh_token, account_id, .. } => {
            let next_id_token = match response.id_token {
                Some(t) => t,
                None => clone_string(id_token),
            };
            let next_refresh_token = match response.refresh_token {
                Some(t) => t,
                None => clone_string(refresh_token),
            };
            let (email, plan_type) = parse_id_token_claims(next_id_token.as_str());
            let parsed = parse_id_token_account_id(next_id_token.as_str());
            let next_account_id = if parsed.is_some() {
                parsed
            } else {
                clone_opt_string(account_id)
            };
            Some(
                ChatGptTokenUpdate {
                    id_token: next_id_token,
                    access_token: response.access_token,
                    refresh_token: next_refresh_token,
                    account_id: next_account_id,
                    email,
                    plan_type,
                    last_refresh: Some(now),
                },
            )
        },
    }
}

/// Before redeeming a refresh token for a new account: a blank token is refused.
pub fn check_refresh_token_for_new_account(account_name: &String, refresh_token: &String) -> (r:
    Result<(), TokenRefreshError>)
    ensures
        r is Ok <==> !spec_is_blank(refresh_token@),
        r matches Err(e) ==> e matches TokenRefreshError::MissingRefreshToken(n) && n@
            == account_name@,
{
    if is_blank(refresh_token.as_str()) {
        Err(TokenRefreshError::MissingRefreshToken(clone_string(account_name)))
    } else {
        Ok(())
    }
}

/// A new ChatGPT account from the answer to redeeming a refresh token: the response must carry
/// an ID token; the refresh token is the rotated one, or else the one redeemed.
pub fn create_chatgpt_account_from_refresh_token(
    account_name: String,
    refresh_token: String,
    response: RefreshTokenResponse,
) -> (r: Result<StoredAccount, TokenRefreshError>)
    ensures
        response.id_token is None ==> r == Err::<StoredAccount, TokenRefreshError>(
            TokenRefreshError::MissingIdToken,
        ),
        response.id_token matches Some(id) ==> (r matches Ok(a) && a.name == account_name
            && a.email == spec_claim_email(id@) && a.plan_type == spec_claim_plan_type(id@)
            && a.auth_mode == crate::types::AuthMode::ChatGPT && a.auth_data == (AuthData::ChatGPT {
            id_token: id,
            access_token: response.access_token,
            refresh_token: match response.refresh_token {
                Some(t) => t,
                None => refresh_token,
            },
            account_id: spec_claim_account_id(id@),
            last_refresh: None,
        })),
{
    let id_token = match response.id_token {
        Some(t) => t,
        None => {
            return Err(TokenRefreshError::MissingIdToken);
        },
    };
    let next_refresh_token = match response.refresh_token {
        Some(t) => t,
        None => refresh_token,
    };
    let (email, plan_type) = parse_id_token_claims(id_token.as_str());
    let account_id = parse_id_token_account_id(id_token.as_str());
    Ok(
        StoredAccount::new_chatgpt(
            account_name,
            email,
            plan_type,
            id_token,
            response.access_token,
            next_refresh_token,
            account_id,
        ),
    )
}

/// What storing refreshed tokens amounts to.
#[derive(Debug)]
pub enum RefreshCommitStep {
    /// Another refresh already replaced the account's credentials; this one is dropped and the
    /// account is kept as it is.
    Winner { account: StoredAccount },
    /// The tokens were stored; when the account is the live one, `auth` is what to publish.
    Updated { account: StoredAccount, auth: Option<AuthDotJson> },
}

/// Store refreshed tokens in the catalog, unless the account's credentials no longer are the
/// ones the refresh started from (their fingerprint differs): then the account that won stays.
/// Either way the catalog must be free of unusable and shared credentials.
pub fn update_account_chatgpt_tokens_after_refresh(
    store: &mut AccountsStore,
    account_id: &str,
    expected_fingerprint: &String,
    update: ChatGptTokenUpdate,
    live_account_id: Option<&str>,
) -> (r: Result<RefreshCommitStep, StoreError>)
    ensures
        final(store).version == old(store).version,
        final(store).active_account_id == old(store).active_account_id,
        final(store).masked_account_ids == old(store).masked_account_ids,
        final(store).accounts@.len() == old(store).accounts@.len(),
        !spec_id_present(old(store).accounts@, account_id@) ==> (r matches Err(
            StoreError::UpdatedAccountNotFound,
        )) && final(store).accounts@ == old(store).accounts@,
        spec_id_present(old(store).accounts@, account_id@) ==> {
            let k = spec_first_with_id(old(store).accounts@, account_id@);
            let before = old(store).accounts@[k];
            let after = final(store).accounts@[k];
            &&& forall|j: int|
                0 <= j < old(store).accounts@.len() && j != k ==> final(store).accounts@[j]
                    == old(store).accounts@[j]
            &&& match spec_credential_fingerprint(before.auth_data) {
                None => (r matches Err(StoreError::NotChatGpt)) && final(store).accounts@ == old(
                    store,
                ).accounts@,
                Some(fp) => if fp != expected_fingerprint@ {
                    &&& final(store).accounts@ == old(store).accounts@
                    &&& r is Ok <==> spec_catalog_unique(old(store).accounts@)
                    &&& r matches Ok(step) ==> (step matches RefreshCommitStep::Winner { account }
                        && same_account(account, before))
                    &&& r matches Err(e) ==> e is Catalog
                } else if spec_validate_account(spec_after_update(before, update)) is Err {
                    &&& r matches Err(StoreError::Credentials(_))
                    &&& final(store).accounts@ == old(store).accounts@
                } else {
                    &&& r is Ok <==> spec_catalog_unique(old(store).accounts@.update(
                        k,
                        spec_after_update(before, update),
                    ))
                    &&& r is Ok ==> spec_token_updated(before, update, after)
                    &&& r is Err ==> final(store).accounts@ == old(store).accounts@
                    &&& r matches Ok(step) ==> (step matches RefreshCommitStep::Updated {
                        account,
                        auth,
                    } && same_account(account, after) && (live_account_id matches Some(l) && l@
                        == account_id@ <==> auth is Some) && (auth matches Some(a)
                        ==> spec_auth_json_for(after, a)))
                    &&& r matches Err(e) ==> e is Catalog
                }
            }
        },
{
    let k = match find_account_index(&store.accounts, account_id) {
        Some(k) => k,
        None => {
            return Err(StoreError::UpdatedAccountNotFound);
        },
    };
    proof {
        lemma_first_with_id(store.accounts@, account_id@, k as int);
    }
    let fingerprint = match chatgpt_auth_data_fingerprint(&store.accounts[k].auth_data) {
        Some(f) => f,
        None => {
            return Err(StoreError::NotChatGpt);
        },
    };
    if !str_eq(fingerprint.as_str(), expected_fingerprint.as_str()) {
        let winner = store.accounts[k].duplicate();
        return match validate_catalog_credential_uniqueness(store) {
            Ok(()) => Ok(RefreshCommitStep::Winner { account: winner }),
            Err(e) => Err(StoreError::Catalog(e)),
        };
    }
    let ghost before_all = store.accounts@;
    let mut account = store.accounts[k].duplicate();
    let ghost update_view = update;
    let applied = apply_chatgpt_token_update(&mut account, update);
    match applied {
        Ok(()) => {},
        Err(e) => {
            return Err(e);
        },
    }
    store.accounts.set_and_swap(k, &mut account);
    proof {
        let spec_next = before_all.update(k as int, spec_after_update(before_all[k as int], update_view));
        assert forall|i: int| 0 <= i < store.accounts@.len() implies (#[trigger] store.accounts@[i]).auth_mode
            == spec_next[i].auth_mode && store.accounts@[i].auth_data == spec_next[i].auth_data by {}
        crate::identity::lemma_catalog_unique_by_credentials(store.accounts@, spec_next);
    }
    let updated = store.accounts[k].duplicate();
    match validate_catalog_credential_uniqueness(store) {
        Ok(()) => {},
        Err(e) => {
            store.accounts.set_and_swap(k, &mut account);
            assert(store.accounts@ =~= before_all);
            return Err(StoreError::Catalog(e));
        },
    }
    let is_live = match live_account_id {
        Some(l) => str_eq(l, account_id),
        None => false,
    };
    if !is_live {
        return Ok(RefreshCommitStep::Updated { account: updated, auth: None });
    }
    proof {
        assert(spec_catalog_unique(store.accounts@));
        assert(spec_validate_account(store.accounts@[k as int]) is Ok);
    }
    match auth_json_for_account(&updated) {
        Ok(auth) => Ok(RefreshCommitStep::Updated { account: updated, auth: Some(auth) }),
        Err(e) => Err(StoreError::Credentials(e)),
    }
}

/// What to do when another refresh won: retry while the live account's auth.json changed
/// meanwhile; keep the winner when the catalog needs no write; else write the catalog.
#[derive(Debug, Clone, Copy, PartialEq, Eq, Structural)]
pub enum RefreshWinnerStep {
    Retry,
    ReturnWinner,
    CommitCatalog,
}

pub fn refresh_winner_step(live_is_this: bool, auth_unchanged: bool, catalog_changed: bool) -> (r:
    RefreshWinnerStep)
    ensures
        r == if live_is_this && !auth_unchanged {
            RefreshWinnerStep::Retry
        } else if !catalog_changed {
            RefreshWinnerStep::ReturnWinner
        } else {
            RefreshWinnerStep::CommitCatalog
        },
{
    if live_is_this && !auth_unchanged {
        RefreshWinnerStep::Retry
    } else if !catalog_changed {
        RefreshWinnerStep::ReturnWinner
    } else {
        RefreshWinnerStep::CommitCatalog
    }
}

/// After writing the catalog for a winner: keep it, unless the live account's auth.json changed
/// meanwhile, in which case the previous catalog is restored and the reconciliation retried
/// (`false`).
pub fn refresh_winner_after_commit(live_is_this: bool, auth_unchanged: bool) -> (r: bool)
    ensures
        r == (!live_is_this || auth_unchanged),
{
    !live_is_this || auth_unchanged
}

} // verus!
