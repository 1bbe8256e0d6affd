//! Reconciling the live Codex credentials (auth.json) with the account catalog.

use vstd::prelude::*;

use crate::digest::{chatgpt_auth_data_fingerprint, spec_chatgpt_fingerprint};
use crate::identity::{
    opt_as_str, spec_catalog_unique, spec_validate_account, spec_validate_auth,
    validate_auth_dot_json, validate_catalog_credential_uniqueness, AuthFileError, CatalogError,
    CredentialError,
};
use crate::jwt::{
    jwt_expiration, jwt_payload_is_json, opt_str_view, parse_id_token_claims,
    resolved_chatgpt_account_id, spec_claim_email, spec_claim_plan_type, spec_jwt_expiration,
    spec_claim_account_id, spec_nonblank_trimmed, spec_parse_jwt, spec_resolved_account_id,
};
use crate::text::{lemma_trim_idempotent, spec_trim, str_eq};
use crate::types::{
    clone_opt_string, opt_view, AccountsStore, AuthData, AuthDotJson, AuthMode, StoredAccount,
    TokenData,
};

verus! {

/// The live auth.json as read from disk.
#[derive(Debug, Clone)]
pub enum LiveAuthFile {
    /// There is no auth.json.
    Missing,
    /// auth.json exists but does not parse as Codex's format.
    Unparseable,
    /// auth.json parsed.
    Present(AuthDotJson),
}

/// How the live credentials relate to the catalog.
#[derive(Debug, Clone, Copy, PartialEq, Eq, Structural)]
pub enum LiveAuthState {
    Missing,
    Exact,
    Newer,
    Stale,
}

/// Which stored account the live credentials belong to, by index into the catalog.
#[derive(Debug, Clone)]
pub enum LiveAuthResolution {
    Missing,
    Exact { index: usize },
    Newer { index: usize, updated_account: StoredAccount },
    Stale { index: usize },
}

/// Why live credentials cannot be reconciled with the catalog.
#[derive(Debug, Clone)]
pub enum LiveAuthError {
    /// The catalog itself is refused.
    Catalog(CatalogError),
    /// auth.json does not parse.
    Unparseable,
    /// auth.json parsed but is refused.
    InvalidLive(AuthFileError),
    /// auth.json matches more than one stored account exactly.
    AmbiguousExact,
    /// auth.json holds an API key that no stored account has.
    UnknownApiKey,
    /// auth.json changed but has no stable ChatGPT account id.
    NoStableIdentity,
    /// auth.json belongs to a ChatGPT account that is not in the catalog.
    UnknownAccount,
    /// More than one stored account has the live ChatGPT identity.
    AmbiguousIdentity,
    /// The credentials changed without refresh timestamps on both sides.
    MissingRefreshTimestamps,
    /// The changed live tokens are not well-formed JWTs.
    MalformedLiveTokens,
}

/// The text live credentials that cannot be reconciled are reported with.
pub open spec fn spec_live_error_message(e: LiveAuthError) -> Seq<char> {
    match e {
        LiveAuthError::Catalog(c) => crate::identity::spec_catalog_message(c),
        LiveAuthError::InvalidLive(a) => crate::identity::spec_auth_file_message(a),
        LiveAuthError::Unparseable => "Failed to parse Codex auth.json"@,
        LiveAuthError::AmbiguousExact => "Codex auth.json matches more than one stored account. Remove the duplicate account before switching."@,
        LiveAuthError::UnknownApiKey => "Codex auth.json contains an API key that is not in the account catalog. Import it or sign out of Codex before switching."@,
        LiveAuthError::NoStableIdentity => "Codex auth.json changed but has no stable ChatGPT account ID. Sign in again before switching accounts."@,
        LiveAuthError::UnknownAccount => "Codex auth.json belongs to an account that is not in the catalog. Import it or sign out of Codex before switching."@,
        LiveAuthError::AmbiguousIdentity => "More than one stored account has the ChatGPT identity used by Codex. Remove the duplicate account before switching."@,
        LiveAuthError::MissingRefreshTimestamps => "Codex auth.json credentials changed without complete refresh timestamps. Sign in again before switching accounts."@,
        LiveAuthError::MalformedLiveTokens => "Codex auth.json contains malformed ChatGPT tokens and cannot replace stored credentials"@,
    }
}

impl LiveAuthError {
    /// The text the error is reported with.
    pub fn message(&self) -> (r: String)
        ensures
            r@ == spec_live_error_message(*self),
    {
        match self {
            LiveAuthError::Catalog(c) => c.message(),
            LiveAuthError::InvalidLive(e) => e.message().to_string(),
            LiveAuthError::Unparseable => "Failed to parse Codex auth.json".to_string(),
            LiveAuthError::AmbiguousExact => "Codex auth.json matches more than one stored account. Remove the duplicate account before switching.".to_string(),
            LiveAuthError::UnknownApiKey => "Codex auth.json contains an API key that is not in the account catalog. Import it or sign out of Codex before switching.".to_string(),
            LiveAuthError::NoStableIdentity => "Codex auth.json changed but has no stable ChatGPT account ID. Sign in again before switching accounts.".to_string(),
            LiveAuthError::UnknownAccount => "Codex auth.json belongs to an account that is not in the catalog. Import it or sign out of Codex before switching.".to_string(),
            LiveAuthError::AmbiguousIdentity => "More than one stored account has the ChatGPT identity used by Codex. Remove the duplicate account before switching.".to_string(),
            LiveAuthError::MissingRefreshTimestamps => "Codex auth.json credentials changed without complete refresh timestamps. Sign in again before switching accounts.".to_string(),
            LiveAuthError::MalformedLiveTokens => "Codex auth.json contains malformed ChatGPT tokens and cannot replace stored credentials".to_string(),
        }
    }
}

pub open spec fn ok_or_none(r: Result<Option<Seq<char>>, ()>) -> Option<Option<Seq<char>>> {
    match r {
        Ok(v) => Some(v),
        Err(_) => None,
    }
}

/// The stored account's credentials are exactly the live ones.
pub open spec fn spec_matches_exact(account: StoredAccount, live: AuthDotJson) -> bool {
    match (account.auth_data, account.auth_mode) {
        (AuthData::ApiKey { key }, AuthMode::ApiKey) => live.tokens is None && opt_view(
            live.openai_api_key,
        ) == Some(key@),
        (
            AuthData::ChatGPT { id_token, access_token, refresh_token, account_id, .. },
            AuthMode::ChatGPT,
        ) => {
            &&& live.openai_api_key is None
            &&& live.tokens matches Some(t)
            &&& t.id_token@ == id_token@
            &&& t.access_token@ == access_token@
            &&& t.refresh_token@ == refresh_token@
            &&& ok_or_none(spec_resolved_account_id(opt_view(account_id), id_token@)) == ok_or_none(
                spec_resolved_account_id(opt_view(t.account_id), t.id_token@),
            )
        },
        _ => false,
    }
}

/// The stored account is a ChatGPT account whose resolved identity is `id`.
pub open spec fn spec_has_identity(account: StoredAccount, id: Seq<char>) -> bool {
    &&& account.auth_mode == AuthMode::ChatGPT
    &&& account.auth_data matches AuthData::ChatGPT { id_token, account_id, .. }
    &&& spec_resolved_account_id(opt_view(account_id), id_token@) == Ok::<Option<Seq<char>>, ()>(
        Some(id),
    )
}

pub open spec fn spec_some_exact(accounts: Seq<StoredAccount>, live: AuthDotJson) -> bool {
    exists|k: int| 0 <= k < accounts.len() && spec_matches_exact(#[trigger] accounts[k], live)
}

pub open spec fn spec_ambiguous_exact(accounts: Seq<StoredAccount>, live: AuthDotJson) -> bool {
    exists|i: int, j: int|
        0 <= i < j < accounts.len() && spec_matches_exact(#[trigger] accounts[i], live)
            && spec_matches_exact(#[trigger] accounts[j], live)
}

pub open spec fn spec_some_identity(accounts: Seq<StoredAccount>, id: Seq<char>) -> bool {
    exists|k: int| 0 <= k < accounts.len() && spec_has_identity(#[trigger] accounts[k], id)
}

pub open spec fn spec_ambiguous_identity(accounts: Seq<StoredAccount>, id: Seq<char>) -> bool {
    exists|i: int, j: int|
        0 <= i < j < accounts.len() && spec_has_identity(#[trigger] accounts[i], id)
            && spec_has_identity(#[trigger] accounts[j], id)
}

/// The live ChatGPT identity of a valid token set.
pub open spec fn spec_live_identity(t: TokenData) -> Option<Seq<char>> {
    spec_resolved_account_id(opt_view(t.account_id), t.id_token@)->Ok_0
}

/// The fingerprint of the live credentials, with the live identity filled in.
pub open spec fn spec_live_fingerprint(auth: AuthDotJson, t: TokenData, id: Seq<char>) -> Seq<
    char,
> {
    spec_chatgpt_fingerprint(
        t.id_token@,
        t.access_token@,
        t.refresh_token@,
        Some(id),
        opt_view(auth.last_refresh),
    )
}

pub open spec fn spec_hash_views(hashes: Seq<String>) -> Seq<Seq<char>> {
    Seq::new(hashes.len(), |i: int| hashes[i]@)
}

/// What the live credentials resolve to, by index into the catalog.
pub enum LiveOutcome {
    CatalogRefused,
    Missing,
    Exact(int),
    Stale(int),
    Newer(int),
    Refused(LiveAuthError),
}

/// How live credentials are resolved against a catalog. The catalog must be valid and free of
/// shared logins. A missing auth.json resolves to `Missing`. Otherwise auth.json must parse and be
/// valid; the one account it matches exactly is `Exact`. Failing that, an API key is refused; a
/// ChatGPT login must carry a stable identity that exactly one stored account has. If the live
/// bundle's fingerprint is among that account's previous bundles it is `Stale`; otherwise, with
/// refresh timestamps on both sides and well-formed tokens, it is `Newer`.
pub open spec fn spec_resolve(accounts: Seq<StoredAccount>, live: LiveAuthFile) -> LiveOutcome {
    if !spec_catalog_unique(accounts) {
        LiveOutcome::CatalogRefused
    } else {
        match live {
            LiveAuthFile::Missing => LiveOutcome::Missing,
            LiveAuthFile::Unparseable => LiveOutcome::Refused(LiveAuthError::Unparseable),
            LiveAuthFile::Present(auth) => {
                if let Err(e) = spec_validate_auth(auth) {
                    LiveOutcome::Refused(LiveAuthError::InvalidLive(e))
                } else if spec_ambiguous_exact(accounts, auth) {
                    LiveOutcome::Refused(LiveAuthError::AmbiguousExact)
                } else if spec_some_exact(accounts, auth) {
                    LiveOutcome::Exact(
                        choose|k: int| 0 <= k < accounts.len() && spec_matches_exact(accounts[k], auth),
                    )
                } else if auth.openai_api_key is Some {
                    LiveOutcome::Refused(LiveAuthError::UnknownApiKey)
                } else {
                    let t = auth.tokens->Some_0;
                    match spec_live_identity(t) {
                        None => LiveOutcome::Refused(LiveAuthError::NoStableIdentity),
                        Some(id) => if !spec_some_identity(accounts, id) {
                            LiveOutcome::Refused(LiveAuthError::UnknownAccount)
                        } else if spec_ambiguous_identity(accounts, id) {
                            LiveOutcome::Refused(LiveAuthError::AmbiguousIdentity)
                        } else {
                            let k = choose|k: int|
                                0 <= k < accounts.len() && spec_has_identity(accounts[k], id);
                            let stored = accounts[k];
                            if spec_hash_views(stored.previous_chatgpt_credential_hashes@).contains(
                                spec_live_fingerprint(auth, t, id),
                            ) {
                                LiveOutcome::Stale(k)
                            } else if auth.last_refresh is None || !(stored.auth_data matches AuthData::ChatGPT {
                                last_refresh: Some(_),
                                ..
                            }) {
                                LiveOutcome::Refused(LiveAuthError::MissingRefreshTimestamps)
                            } else if spec_parse_jwt(t.id_token@) is None || spec_jwt_expiration(
                                t.access_token@,
                            ) is None {
                                LiveOutcome::Refused(LiveAuthError::MalformedLiveTokens)
                            } else {
                                LiveOutcome::Newer(k)
                            }
                        },
                    }
                }
            },
        }
    }
}

/// The stored account after adopting newer live credentials: the live token bundle with the live
/// identity and refresh time, no previous bundles, and e-mail and plan from the live ID token
/// where it has them.
pub open spec fn spec_adopted(
    orig: StoredAccount,
    auth: AuthDotJson,
    t: TokenData,
    id: Seq<char>,
    updated: StoredAccount,
) -> bool {
    &&& updated.id == orig.id
    &&& updated.name == orig.name
    &&& updated.auth_mode == orig.auth_mode
    &&& updated.created_at == orig.created_at
    &&& updated.last_used_at == orig.last_used_at
    &&& updated.previous_chatgpt_credential_hashes@.len() == 0
    &&& updated.auth_data matches AuthData::ChatGPT {
        id_token,
        access_token,
        refresh_token,
        account_id,
        last_refresh,
    }
    &&& id_token == t.id_token
    &&& access_token == t.access_token
    &&& refresh_token == t.refresh_token
    &&& opt_view(account_id) == Some(id)
    &&& last_refresh == auth.last_refresh
    &&& updated.email == (if spec_claim_email(t.id_token@) is Some {
        spec_claim_email(t.id_token@)
    } else {
        orig.email
    })
    &&& updated.plan_type == (if spec_claim_plan_type(t.id_token@) is Some {
        spec_claim_plan_type(t.id_token@)
    } else {
        orig.plan_type
    })
}

/// What a catalog error says of the catalog (see `validate_catalog_credential_uniqueness`).
pub open spec fn spec_catalog_error(accounts: Seq<StoredAccount>, e: CatalogError) -> bool {
    match e {
        CatalogError::Invalid { index, name, reason } => {
            &&& index < accounts.len()
            &&& (forall|j: int| 0 <= j < index ==> spec_validate_account(#[trigger] accounts[j]) is Ok)
            &&& spec_validate_account(accounts[index as int]) == Err::<(), CredentialError>(reason)
            &&& name == accounts[index as int].name
        },
        CatalogError::Shared { first, second, first_name, second_name } => {
            &&& crate::identity::spec_all_valid(accounts)
            &&& first < second < accounts.len()
            &&& crate::identity::spec_share_credentials(accounts[first as int], accounts[second as int])
                == Ok::<bool, ()>(true)
            &&& first_name == accounts[first as int].name
            &&& second_name == accounts[second as int].name
        },
    }
}

/// The resolution matches `spec_resolve`.
pub open spec fn spec_resolution_matches(
    accounts: Seq<StoredAccount>,
    live: LiveAuthFile,
    r: Result<LiveAuthResolution, LiveAuthError>,
) -> bool {
    match spec_resolve(accounts, live) {
        LiveOutcome::CatalogRefused => r matches Err(LiveAuthError::Catalog(e)) && spec_catalog_error(
            accounts,
            e,
        ),
        LiveOutcome::Missing => r matches Ok(LiveAuthResolution::Missing),
        LiveOutcome::Exact(k) => r matches Ok(LiveAuthResolution::Exact { index }) && index == k,
        LiveOutcome::Stale(k) => r matches Ok(LiveAuthResolution::Stale { index }) && index == k,
        LiveOutcome::Newer(k) => {
            &&& r matches Ok(LiveAuthResolution::Newer { index, updated_account })
            &&& index == k
            &&& live matches LiveAuthFile::Present(auth)
            &&& auth.tokens matches Some(t)
            &&& spec_live_identity(t) matches Some(id)
            &&& spec_adopted(accounts[k], auth, t, id, updated_account)
        },
        LiveOutcome::Refused(e) => r == Err::<LiveAuthResolution, LiveAuthError>(e),
    }
}

fn opt_tokens_none(t: &Option<TokenData>) -> (r: bool)
    ensures
        r == t is None,
{
    t.is_none()
}

/// Whether a stored account's credentials are exactly the live ones.
pub fn stored_auth_matches_exact(account: &StoredAccount, live: &AuthDotJson) -> (r: bool)
    ensures
        r == spec_matches_exact(*account, *live),
{
    match (&account.auth_data, &account.auth_mode) {
        (AuthData::ApiKey { key }, AuthMode::ApiKey) => {
            opt_tokens_none(&live.tokens) && crate::types::opt_is_str(
                &live.openai_api_key,
                key.as_str(),
            )
        },
        (
            AuthData::ChatGPT { id_token, access_token, refresh_token, account_id, .. },
            AuthMode::ChatGPT,
        ) => {
            if live.openai_api_key.is_some() {
                return false;
            }
            match &live.tokens {
                Some(t) => {
                    if !(str_eq(t.id_token.as_str(), id_token.as_str()) && str_eq(
                        t.access_token.as_str(),
                        access_token.as_str(),
                    ) && str_eq(t.refresh_token.as_str(), refresh_token.as_str())) {
                        return false;
                    }
                    let stored = resolved_chatgpt_account_id(
                        opt_as_str(account_id),
                        id_token.as_str(),
                    );
                    let lived = resolved_chatgpt_account_id(
                        opt_as_str(&t.account_id),
                        t.id_token.as_str(),
                    );
                    match (stored, lived) {
                        (Ok(a), Ok(b)) => crate::types::opt_str_eq(&a, &b),
                        (Err(_), Err(_)) => true,
                        _ => false,
                    }
                },
                None => false,
            }
        },
        _ => false,
    }
}

fn has_identity(account: &StoredAccount, id: &str) -> (r: bool)
    requires
        spec_validate_account(*account) is Ok,
    ensures
        r == spec_has_identity(*account, id@),
{
    match (&account.auth_mode, &account.auth_data) {
        (AuthMode::ChatGPT, AuthData::ChatGPT { id_token, account_id, .. }) => {
            match resolved_chatgpt_account_id(opt_as_str(account_id), id_token.as_str()) {
                Ok(Some(s)) => str_eq(s.as_str(), id),
                _ => false,
            }
        },
        _ => false,
    }
}

/// Index of the first exact match, and whether there is a second.
fn scan_exact(accounts: &Vec<StoredAccount>, live: &AuthDotJson) -> (r: (Option<usize>, bool))
    ensures
        r.0 is Some == spec_some_exact(accounts@, *live),
        r.1 == spec_ambiguous_exact(accounts@, *live),
        r.0 matches Some(k) ==> k < accounts@.len() && spec_matches_exact(accounts@[k as int], *live)
            && (!r.1 ==> forall|j: int|
            0 <= j < accounts@.len() && spec_matches_exact(#[trigger] accounts@[j], *live) ==> j
                == k),
{
    let mut first: Option<usize> = None;
    let mut i: usize = 0;
    while i < accounts.len()
        invariant
            i <= accounts@.len(),
            first is None ==> forall|j: int|
                0 <= j < i ==> !spec_matches_exact(#[trigger] accounts@[j], *live),
            first matches Some(k) ==> k < i && spec_matches_exact(accounts@[k as int], *live)
                && forall|j: int|
                0 <= j < i && j != k ==> !spec_matches_exact(#[trigger] accounts@[j], *live),
        decreases accounts.len() - i,
    {
        if stored_auth_matches_exact(&accounts[i], live) {
            match first {
                Some(k) => {
                    assert(spec_matches_exact(accounts@[k as int], *live));
                    assert(spec_matches_exact(accounts@[i as int], *live));
                    return (first, true);
                },
                None => {
                    first = Some(i);
                },
            }
        }
        i += 1;
    }
    proof {
        if let Some(k) = first {
            assert(spec_matches_exact(accounts@[k as int], *live));
        }
        if spec_ambiguous_exact(accounts@, *live) {
            let (a, b) = choose|a: int, b: int|
                0 <= a < b < accounts@.len() && spec_matches_exact(#[trigger] accounts@[a], *live)
                    && spec_matches_exact(#[trigger] accounts@[b], *live);
            assert(false);
        }
    }
    (first, false)
}

/// Index of the first account with the identity, and whether there is a second.
fn scan_identity(accounts: &Vec<StoredAccount>, id: &str) -> (r: (Option<usize>, bool))
    requires
        crate::identity::spec_all_valid(accounts@),
    ensures
        r.0 is Some == spec_some_identity(accounts@, id@),
        r.1 == spec_ambiguous_identity(accounts@, id@),
        r.0 matches Some(k) ==> k < accounts@.len() && spec_has_identity(accounts@[k as int], id@)
            && (!r.1 ==> forall|j: int|
            0 <= j < accounts@.len() && spec_has_identity(#[trigger] accounts@[j], id@) ==> j == k),
{
    let mut first: Option<usize> = None;
    let mut i: usize = 0;
    while i < accounts.len()
        invariant
            crate::identity::spec_all_valid(accounts@),
            i <= accounts@.len(),
            first is None ==> forall|j: int|
                0 <= j < i ==> !spec_has_identity(#[trigger] accounts@[j], id@),
            first matches Some(k) ==> k < i && spec_has_identity(accounts@[k as int], id@) && forall|
                j: int,
            | 0 <= j < i && j != k ==> !spec_has_identity(#[trigger] accounts@[j], id@),
        decreases accounts.len() - i,
    {
        assert(spec_validate_account(accounts@[i as int]) is Ok);
        if has_identity(&accounts[i], id) {
            match first {
                Some(k) => {
                    assert(spec_has_identity(accounts@[k as int], id@));
                    assert(spec_has_identity(accounts@[i as int], id@));
                    return (first, true);
                },
                None => {
                    first = Some(i);
                },
            }
        }
        i += 1;
    }
    proof {
        if let Some(k) = first {
            assert(spec_has_identity(accounts@[k as int], id@));
        }
        if spec_ambiguous_identity(accounts@, id@) {
            let (a, b) = choose|a: int, b: int|
                0 <= a < b < accounts@.len() && spec_has_identity(#[trigger] accounts@[a], id@)
                    && spec_has_identity(#[trigger] accounts@[b], id@);
            assert(false);
        }
    }
    (first, false)
}

fn contains_hash(hashes: &Vec<String>, h: &str) -> (r: bool)
    ensures
        r == spec_hash_views(hashes@).contains(h@),
{
    let mut i: usize = 0;
    while i < hashes.len()
        invariant
            i <= hashes@.len(),
            forall|j: int| 0 <= j < i ==> hashes@[j]@ != h@,
        decreases hashes.len() - i,
    {
        if str_eq(hashes[i].as_str(), h) {
            assert(spec_hash_views(hashes@)[i as int] == h@);
            return true;
        }
        i += 1;
    }
    proof {
        if spec_hash_views(hashes@).contains(h@) {
            let j = choose|j: int| 0 <= j < spec_hash_views(hashes@).len() && spec_hash_views(hashes@)[j] == h@;
            assert(hashes@[j]@ == h@);
        }
    }
    false
}


/// Which stored account the live auth.json belongs to (see `spec_resolve`).
pub fn resolve_live_auth(store: &AccountsStore, live: &LiveAuthFile) -> (r: Result<
    LiveAuthResolution,
    LiveAuthError,
>)
    ensures
        spec_resolution_matches(store.accounts@, *live, r),
        r matches Ok(LiveAuthResolution::Newer { updated_account: u, .. }) ==> {
            &&& *live matches LiveAuthFile::Present(auth)
            &&& auth.tokens matches Some(t)
            &&& spec_claim_plan_type(t.id_token@) is Some ==> u.plan_type == spec_claim_plan_type(
                t.id_token@,
            )
            &&& spec_claim_email(t.id_token@) is Some ==> u.email == spec_claim_email(t.id_token@)
        },
{
    match validate_catalog_credential_uniqueness(store) {
        Ok(()) => {},
        Err(e) => {
            return Err(LiveAuthError::Catalog(e));
        },
    }
    let auth = match live {
        LiveAuthFile::Missing => {
            return Ok(LiveAuthResolution::Missing);
        },
        LiveAuthFile::Unparseable => {
            return Err(LiveAuthError::Unparseable);
        },
        LiveAuthFile::Present(a) => a,
    };
    match validate_auth_dot_json(auth) {
        Ok(()) => {},
        Err(e) => {
            return Err(LiveAuthError::InvalidLive(e));
        },
    }
    let (first, ambiguous) = scan_exact(&store.accounts, auth);
    if ambiguous {
        return Err(LiveAuthError::AmbiguousExact);
    }
    if let Some(k) = first {
        return Ok(LiveAuthResolution::Exact { index: k });
    }
    if auth.openai_api_key.is_some() {
        return Err(LiveAuthError::UnknownApiKey);
    }
    let t = match &auth.tokens {
        Some(t) => t,
        None => {
            assert(false);
            return Err(LiveAuthError::UnknownApiKey);
        },
    };
    let lid = match resolved_chatgpt_account_id(opt_as_str(&t.account_id), t.id_token.as_str()) {
        Ok(Some(s)) => s,
        Ok(None) => {
            return Err(LiveAuthError::NoStableIdentity);
        },
        Err(_) => {
            assert(false);
            return Err(LiveAuthError::NoStableIdentity);
        },
    };
    let (found, ambiguous_identity) = scan_identity(&store.accounts, lid.as_str());
    let k = match found {
        None => {
            return Err(LiveAuthError::UnknownAccount);
        },
        Some(k) => k,
    };
    if ambiguous_identity {
        return Err(LiveAuthError::AmbiguousIdentity);
    }
    let stored = &store.accounts[k];
    let live_data = AuthData::ChatGPT {
        id_token: t.id_token.clone(),
        access_token: t.access_token.clone(),
        refresh_token: t.refresh_token.clone(),
        account_id: Some(lid.clone()),
        last_refresh: clone_opt_string(&auth.last_refresh),
    };
    let fingerprint = match chatgpt_auth_data_fingerprint(&live_data) {
        Some(h) => h,
        None => {
            assert(false);
            return Err(LiveAuthError::NoStableIdentity);
        },
    };
    if contains_hash(&stored.previous_chatgpt_credential_hashes, fingerprint.as_str()) {
        return Ok(LiveAuthResolution::Stale { index: k });
    }
    let stored_has_refresh = match &stored.auth_data {
        AuthData::ChatGPT { last_refresh: Some(_), .. } => true,
        _ => false,
    };
    if auth.last_refresh.is_none() || !stored_has_refresh {
        return Err(LiveAuthError::MissingRefreshTimestamps);
    }
    if !jwt_payload_is_json(t.id_token.as_str()) || jwt_expiration(t.access_token.as_str()).is_none() {
        return Err(LiveAuthError::MalformedLiveTokens);
    }
    let (email, plan_type) = parse_id_token_claims(t.id_token.as_str());
    let mut updated = stored.duplicate();
    updated.auth_data = live_data;
    updated.previous_chatgpt_credential_hashes = Vec::new();
    if email.is_some() {
        updated.email = email;
    }
    if plan_type.is_some() {
        updated.plan_type = plan_type;
    }
    Ok(LiveAuthResolution::Newer { index: k, updated_account: updated })
}


/// Result of reconciling the catalog with the live credentials.
#[derive(Debug, Clone)]
pub struct ReconcileOutcome {
    pub state: LiveAuthState,
    pub matched_account_id: Option<String>,
    pub catalog_changed: bool,
    /// Whether the accounts themselves changed (not only the active account).
    pub accounts_changed: bool,
}

/// Two accounts agree in every field but the list of previous credential fingerprints.
pub open spec fn spec_same_but_hashes(a: StoredAccount, b: StoredAccount) -> bool {
    &&& a.id == b.id
    &&& a.name == b.name
    &&& a.email == b.email
    &&& a.plan_type == b.plan_type
    &&& a.auth_mode == b.auth_mode
    &&& a.auth_data == b.auth_data
    &&& a.created_at == b.created_at
    &&& a.last_used_at == b.last_used_at
}

/// The catalog `new` is `old` with the active account set to match the live credentials:
/// nothing matched (no auth.json) clears it; a matched account becomes active.
pub open spec fn spec_active_follows(
    old: AccountsStore,
    new: AccountsStore,
    matched: Option<Seq<char>>,
) -> bool {
    match matched {
        Some(id) => opt_view(new.active_account_id) == Some(id),
        None => new.active_account_id is None,
    }
}

/// What reconciling does to the catalog and reports, for a live auth.json that resolves.
pub open spec fn spec_reconciled(
    old: AccountsStore,
    new: AccountsStore,
    live: LiveAuthFile,
    o: ReconcileOutcome,
) -> bool {
    let n = old.accounts@.len();
    &&& new.version == old.version
    &&& new.masked_account_ids == old.masked_account_ids
    &&& new.accounts@.len() == n
    &&& match spec_resolve(old.accounts@, live) {
        LiveOutcome::Missing => {
            &&& o.state == LiveAuthState::Missing
            &&& o.matched_account_id is None
            &&& new.accounts@ == old.accounts@
            &&& spec_active_follows(old, new, None)
            &&& o.catalog_changed == old.active_account_id is Some
            &&& !o.accounts_changed
        },
        LiveOutcome::Exact(k) => {
            let id = old.accounts@[k].id@;
            &&& o.state == LiveAuthState::Exact
            &&& opt_view(o.matched_account_id) == Some(id)
            &&& (forall|j: int| 0 <= j < n && j != k ==> new.accounts@[j] == old.accounts@[j])
            &&& spec_same_but_hashes(new.accounts@[k], old.accounts@[k])
            &&& new.accounts@[k].previous_chatgpt_credential_hashes@.len() == 0
            &&& spec_active_follows(old, new, Some(id))
            &&& o.catalog_changed == (old.accounts@[k].previous_chatgpt_credential_hashes@.len()
                > 0 || opt_view(old.active_account_id) != Some(id))
            &&& o.accounts_changed == (old.accounts@[k].previous_chatgpt_credential_hashes@.len()
                > 0)
        },
        LiveOutcome::Stale(k) => {
            let id = old.accounts@[k].id@;
            &&& o.state == LiveAuthState::Stale
            &&& opt_view(o.matched_account_id) == Some(id)
            &&& new.accounts@ == old.accounts@
            &&& spec_active_follows(old, new, Some(id))
            &&& o.catalog_changed == (opt_view(old.active_account_id) != Some(id))
            &&& !o.accounts_changed
        },
        LiveOutcome::Newer(k) => {
            let id = old.accounts@[k].id@;
            &&& o.state == LiveAuthState::Newer
            &&& opt_view(o.matched_account_id) == Some(id)
            &&& (forall|j: int| 0 <= j < n && j != k ==> new.accounts@[j] == old.accounts@[j])
            &&& live matches LiveAuthFile::Present(auth)
            &&& auth.tokens matches Some(t)
            &&& spec_live_identity(t) matches Some(lid)
            &&& spec_adopted(old.accounts@[k], auth, t, lid, new.accounts@[k])
            &&& spec_active_follows(old, new, Some(id))
            &&& o.catalog_changed
            &&& o.accounts_changed
        },
        _ => false,
    }
}

/// Whether live credentials are refused rather than resolved.
pub open spec fn spec_refused(accounts: Seq<StoredAccount>, live: LiveAuthFile) -> bool {
    spec_resolve(accounts, live) matches LiveOutcome::CatalogRefused
        || spec_resolve(accounts, live) matches LiveOutcome::Refused(_)
}

/// Bring the catalog in line with the live credentials: adopt newer live tokens, forget previous
/// fingerprints of an exactly matching account, and make the matched account active (or none,
/// when there is no auth.json). A refused live state leaves the catalog untouched.
pub fn reconcile_live_auth(store: &mut AccountsStore, live: &LiveAuthFile) -> (r: Result<
    ReconcileOutcome,
    LiveAuthError,
>)
    ensures
        r is Err <==> spec_refused(old(store).accounts@, *live),
        r is Err ==> *final(store) == *old(store),
        r matches Err(e) ==> spec_resolution_matches(
            old(store).accounts@,
            *live,
            Err::<LiveAuthResolution, LiveAuthError>(e),
        ),
        r matches Ok(o) ==> spec_reconciled(*old(store), *final(store), *live, o),
{
    let resolution = match resolve_live_auth(store, live) {
        Ok(res) => res,
        Err(e) => {
            return Err(e);
        },
    };
    let ghost old_store = *store;
    match resolution {
        LiveAuthResolution::Missing => {
            let changed = store.active_account_id.is_some();
            store.active_account_id = None;
            Ok(
                ReconcileOutcome {
                    state: LiveAuthState::Missing,
                    matched_account_id: None,
                    catalog_changed: changed,
                    accounts_changed: false,
                },
            )
        },
        LiveAuthResolution::Exact { index } => {
            let mut changed = false;
            if store.accounts[index].previous_chatgpt_credential_hashes.len() > 0 {
                let mut acc = store.accounts[index].duplicate();
                acc.previous_chatgpt_credential_hashes = Vec::new();
                store.accounts.set(index, acc);
                changed = true;
            }
            let id = store.accounts[index].id.clone();
            let active_changed = activate_id(store, &id);
            Ok(ReconcileOutcome {
                state: LiveAuthState::Exact,
                matched_account_id: Some(id),
                catalog_changed: changed || active_changed,
                accounts_changed: changed,
            })
        },
        LiveAuthResolution::Stale { index } => {
            let id = store.accounts[index].id.clone();
            let active_changed = activate_id(store, &id);
            Ok(ReconcileOutcome {
                state: LiveAuthState::Stale,
                matched_account_id: Some(id),
                catalog_changed: active_changed,
                accounts_changed: false,
            })
        },
        LiveAuthResolution::Newer { index, updated_account } => {
            store.accounts.set(index, updated_account);
            let id = store.accounts[index].id.clone();
            let _ = activate_id(store, &id);
            Ok(
                ReconcileOutcome {
                    state: LiveAuthState::Newer,
                    matched_account_id: Some(id),
                    catalog_changed: true,
                    accounts_changed: true,
                },
            )
        },
    }
}

/// An identity resolved from an explicit id and an ID token resolves to itself when given as
/// the explicit id for the same ID token.
proof fn lemma_resolved_identity_stable(explicit: Option<Seq<char>>, id_token: Seq<char>, id: Seq<char>)
    requires
        spec_resolved_account_id(explicit, id_token) == Ok::<Option<Seq<char>>, ()>(Some(id)),
    ensures
        spec_resolved_account_id(Some(id), id_token) == Ok::<Option<Seq<char>>, ()>(Some(id)),
{
    let e = spec_nonblank_trimmed(explicit);
    let m = spec_nonblank_trimmed(opt_view(spec_claim_account_id(id_token)));
    match explicit {
        Some(v) => lemma_trim_idempotent(v),
        None => {},
    }
    match opt_view(spec_claim_account_id(id_token)) {
        Some(v) => lemma_trim_idempotent(v),
        None => {},
    }
    assert(spec_trim(id) == id);
    assert(spec_nonblank_trimmed(Some(id)) == Some(id));
}

/// Only `k` matches exactly, so resolution picks it.
proof fn lemma_sole_exact(accounts: Seq<StoredAccount>, auth: AuthDotJson, k: int)
    requires
        0 <= k < accounts.len(),
        spec_matches_exact(accounts[k], auth),
        forall|j: int| 0 <= j < accounts.len() && j != k ==> !spec_matches_exact(#[trigger] accounts[j], auth),
    ensures
        spec_some_exact(accounts, auth),
        !spec_ambiguous_exact(accounts, auth),
        (choose|i: int| 0 <= i < accounts.len() && spec_matches_exact(accounts[i], auth)) == k,
{
    assert(spec_matches_exact(accounts[k], auth));
    if spec_ambiguous_exact(accounts, auth) {
        let (i, j) = choose|i: int, j: int|
            0 <= i < j < accounts.len() && spec_matches_exact(#[trigger] accounts[i], auth)
                && spec_matches_exact(#[trigger] accounts[j], auth);
        assert(i == k && j == k);
    }
}

/// Reconciling brings the catalog in line with auth.json: once reconciled (and still free of
/// unusable and shared credentials), the same auth.json resolves exactly to the account that
/// matched exactly or whose newer credentials were adopted, and resolves as before otherwise.
pub proof fn law_reconciled_catalog_resolves_live_auth_exactly(
    old: AccountsStore,
    new: AccountsStore,
    live: LiveAuthFile,
    o: ReconcileOutcome,
)
    requires
        spec_reconciled(old, new, live, o),
        spec_catalog_unique(new.accounts@),
    ensures
        match spec_resolve(old.accounts@, live) {
            LiveOutcome::Exact(k) => spec_resolve(new.accounts@, live) == LiveOutcome::Exact(k),
            LiveOutcome::Newer(k) => spec_resolve(new.accounts@, live) == LiveOutcome::Exact(k),
            LiveOutcome::Stale(k) => spec_resolve(new.accounts@, live) == LiveOutcome::Stale(k),
            LiveOutcome::Missing => spec_resolve(new.accounts@, live) == LiveOutcome::Missing,
            _ => false,
        },
{
    let oa = old.accounts@;
    let na = new.accounts@;
    match spec_resolve(oa, live) {
        LiveOutcome::Exact(k) => {
            let auth = live->Present_0;
            assert(spec_matches_exact(oa[k], auth));
            assert(spec_matches_exact(na[k], auth));
            assert forall|j: int| 0 <= j < na.len() && j != k implies !spec_matches_exact(
                #[trigger] na[j],
                auth,
            ) by {
                assert(na[j] == oa[j]);
                if spec_matches_exact(oa[j], auth) {
                    if j < k {
                        assert(spec_matches_exact(oa[j], auth) && spec_matches_exact(oa[k], auth));
                    } else {
                        assert(spec_matches_exact(oa[k], auth) && spec_matches_exact(oa[j], auth));
                    }
                    assert(spec_ambiguous_exact(oa, auth));
                }
            }
            lemma_sole_exact(na, auth, k);
        },
        LiveOutcome::Newer(k) => {
            let auth = live->Present_0;
            let t = auth.tokens->Some_0;
            let id = spec_live_identity(t)->Some_0;
            assert(spec_has_identity(oa[k], id));
            lemma_resolved_identity_stable(opt_view(t.account_id), t.id_token@, id);
            assert(spec_matches_exact(na[k], auth));
            assert forall|j: int| 0 <= j < na.len() && j != k implies !spec_matches_exact(
                #[trigger] na[j],
                auth,
            ) by {
                assert(na[j] == oa[j]);
            }
            lemma_sole_exact(na, auth, k);
        },
        _ => {},
    }
}

/// Two valid accounts that both match the same auth.json exactly hold credentials for the same
/// login.
proof fn lemma_exact_matches_share(a: StoredAccount, b: StoredAccount, auth: AuthDotJson)
    requires
        spec_validate_account(a) is Ok,
        spec_validate_account(b) is Ok,
        spec_matches_exact(a, auth),
        spec_matches_exact(b, auth),
    ensures
        crate::identity::spec_share_credentials(a, b) == Ok::<bool, ()>(true),
{
}

/// The auth.json published for an account of a catalog free of unusable and shared
/// credentials resolves exactly to that account: what switching writes is what the catalog
/// then recognizes as the live account.
pub proof fn law_published_auth_resolves_to_its_account(
    accounts: Seq<StoredAccount>,
    k: int,
    auth: AuthDotJson,
)
    requires
        spec_catalog_unique(accounts),
        0 <= k < accounts.len(),
        spec_auth_json_for(accounts[k], auth),
    ensures
        spec_resolve(accounts, LiveAuthFile::Present(auth)) == LiveOutcome::Exact(k),
{
    let a = accounts[k];
    assert(spec_validate_account(a) is Ok);
    assert(spec_validate_auth(auth) is Ok);
    assert(spec_matches_exact(a, auth));
    assert forall|j: int| 0 <= j < accounts.len() && j != k implies !spec_matches_exact(
        #[trigger] accounts[j],
        auth,
    ) by {
        if spec_matches_exact(accounts[j], auth) {
            assert(spec_validate_account(accounts[j]) is Ok);
            lemma_exact_matches_share(accounts[j], a, auth);
            lemma_exact_matches_share(a, accounts[j], auth);
            if j < k {
                assert(crate::identity::spec_share_credentials(accounts[j], accounts[k]) == Ok::<
                    bool,
                    (),
                >(false));
            } else {
                assert(crate::identity::spec_share_credentials(accounts[k], accounts[j]) == Ok::<
                    bool,
                    (),
                >(false));
            }
        }
    }
    lemma_sole_exact(accounts, auth, k);
}

/// Once an account's ChatGPT tokens have been replaced, an auth.json still holding the replaced
/// bundle, as it was published for the account, is recognized as stale for that account: the
/// catalog can then put its current bundle back. This holds where the account keeps the ChatGPT
/// identity that the replaced bundle names by its account id, and no stored account holds the
/// replaced bundle any more.
pub proof fn law_replaced_bundle_resolves_stale(
    accounts: Seq<StoredAccount>,
    k: int,
    before: StoredAccount,
    update: crate::catalog::ChatGptTokenUpdate,
    auth: AuthDotJson,
    aid: Seq<char>,
)
    requires
        spec_catalog_unique(accounts),
        0 <= k < accounts.len(),
        spec_validate_account(before) is Ok,
        crate::catalog::spec_token_updated(before, update, accounts[k]),
        spec_auth_json_for(before, auth),
        opt_view(before.auth_data->ChatGPT_account_id) == Some(aid),
        spec_has_identity(before, aid),
        spec_has_identity(accounts[k], aid),
        !spec_some_exact(accounts, auth),
    ensures
        spec_resolve(accounts, LiveAuthFile::Present(auth)) == LiveOutcome::Stale(k),
{
    let t = auth.tokens->Some_0;
    assert(spec_validate_auth(auth) is Ok);
    assert(!spec_ambiguous_exact(accounts, auth));
    assert(spec_live_identity(t) == Some(aid));
    assert(spec_some_identity(accounts, aid));
    assert(!spec_ambiguous_identity(accounts, aid)) by {
        if spec_ambiguous_identity(accounts, aid) {
            let (i, j) = choose|i: int, j: int|
                0 <= i < j < accounts.len() && spec_has_identity(#[trigger] accounts[i], aid)
                    && spec_has_identity(#[trigger] accounts[j], aid);
            assert(spec_validate_account(accounts[i]) is Ok);
            assert(spec_validate_account(accounts[j]) is Ok);
            assert(crate::identity::spec_share_credentials(accounts[i], accounts[j]) == Ok::<
                bool,
                (),
            >(false));
        }
    }
    let c = choose|c: int| 0 <= c < accounts.len() && spec_has_identity(accounts[c], aid);
    assert(c == k) by {
        if c != k {
            let (i, j) = if c < k {
                (c, k)
            } else {
                (k, c)
            };
            assert(spec_has_identity(accounts[i], aid) && spec_has_identity(accounts[j], aid));
            assert(spec_ambiguous_identity(accounts, aid));
        }
    }
    let fp = spec_live_fingerprint(auth, t, aid);
    assert(crate::digest::spec_credential_fingerprint(before.auth_data)->Some_0 == fp);
    let hv = spec_hash_views(accounts[k].previous_chatgpt_credential_hashes@);
    assert(hv[hv.len() - 1] == fp);
    assert(hv.contains(fp));
}

/// The account that live credentials resolve to is one of the catalog.
proof fn lemma_resolve_index_in_range(accounts: Seq<StoredAccount>, live: LiveAuthFile)
    ensures
        spec_resolve(accounts, live) matches LiveOutcome::Newer(k) ==> 0 <= k < accounts.len(),
        spec_resolve(accounts, live) matches LiveOutcome::Stale(k) ==> 0 <= k < accounts.len(),
        spec_resolve(accounts, live) matches LiveOutcome::Exact(k) ==> 0 <= k < accounts.len(),
{
}

/// Adopting newer live credentials takes them as they are: the stored account gets the live
/// tokens and refresh time, and the e-mail and plan of the live ID token wherever that token
/// carries them, whatever the account held before.
pub proof fn law_adopted_account_takes_live_claims(
    accounts: Seq<StoredAccount>,
    live: LiveAuthFile,
    r: Result<LiveAuthResolution, LiveAuthError>,
)
    requires
        spec_resolution_matches(accounts, live, r),
        r matches Ok(LiveAuthResolution::Newer { .. }),
    ensures
        ({
            &&& live matches LiveAuthFile::Present(auth)
            &&& auth.tokens matches Some(t)
            &&& r matches Ok(LiveAuthResolution::Newer { updated_account: u, .. })
            &&& spec_claim_plan_type(t.id_token@) is Some ==> u.plan_type == spec_claim_plan_type(
                t.id_token@,
            )
            &&& spec_claim_email(t.id_token@) is Some ==> u.email == spec_claim_email(t.id_token@)
            &&& u.auth_data matches AuthData::ChatGPT {
                id_token,
                access_token,
                refresh_token,
                last_refresh,
                ..
            }
            &&& id_token == t.id_token
            &&& access_token == t.access_token
            &&& refresh_token == t.refresh_token
            &&& last_refresh == auth.last_refresh
        }),
{
}

/// Reconciling newer live credentials stores the e-mail and plan of the live ID token wherever
/// that token carries them, in the account that the live credentials belong to.
pub proof fn law_reconciled_newer_account_takes_live_claims(
    old: AccountsStore,
    new: AccountsStore,
    live: LiveAuthFile,
    o: ReconcileOutcome,
)
    requires
        spec_reconciled(old, new, live, o),
        o.state == LiveAuthState::Newer,
    ensures
        ({
            &&& live matches LiveAuthFile::Present(auth)
            &&& auth.tokens matches Some(t)
            &&& spec_resolve(old.accounts@, live) matches LiveOutcome::Newer(k)
            &&& 0 <= k < new.accounts@.len()
            &&& spec_claim_plan_type(t.id_token@) is Some ==> new.accounts@[k].plan_type
                == spec_claim_plan_type(t.id_token@)
            &&& spec_claim_email(t.id_token@) is Some ==> new.accounts@[k].email
                == spec_claim_email(t.id_token@)
        }),
{
    match spec_resolve(old.accounts@, live) {
        LiveOutcome::Newer(k) => {
            lemma_resolve_index_in_range(old.accounts@, live);
        },
        _ => {},
    }
}

/// Make `id` the active account; reports whether that changed anything.
fn activate_id(store: &mut AccountsStore, id: &String) -> (changed: bool)
    ensures
        final(store).accounts == old(store).accounts,
        final(store).version == old(store).version,
        final(store).masked_account_ids == old(store).masked_account_ids,
        opt_view(final(store).active_account_id) == Some(id@),
        changed == (opt_view(old(store).active_account_id) != Some(id@)),
{
    if crate::types::opt_is_str(&store.active_account_id, id.as_str()) {
        false
    } else {
        store.active_account_id = Some(id.clone());
        true
    }
}


/// The auth.json that logs Codex into a stored account.
pub open spec fn spec_auth_json_for(account: StoredAccount, auth: AuthDotJson) -> bool {
    match account.auth_data {
        AuthData::ApiKey { key } => {
            &&& auth.openai_api_key == Some(key)
            &&& auth.tokens is None
            &&& auth.last_refresh is None
        },
        AuthData::ChatGPT { id_token, access_token, refresh_token, account_id, last_refresh } => {
            &&& auth.openai_api_key is None
            &&& auth.tokens == Some(
                TokenData { id_token, access_token, refresh_token, account_id },
            )
            &&& auth.last_refresh == last_refresh
        },
    }
}

/// Codex's auth.json for a stored account.
pub fn create_auth_json(account: &StoredAccount) -> (r: AuthDotJson)
    ensures
        spec_auth_json_for(*account, r),
{
    match &account.auth_data {
        AuthData::ApiKey { key } => AuthDotJson {
            openai_api_key: Some(key.clone()),
            tokens: None,
            last_refresh: None,
        },
        AuthData::ChatGPT { id_token, access_token, refresh_token, account_id, last_refresh } =>
        AuthDotJson {
            openai_api_key: None,
            tokens: Some(
                TokenData {
                    id_token: id_token.clone(),
                    access_token: access_token.clone(),
                    refresh_token: refresh_token.clone(),
                    account_id: clone_opt_string(account_id),
                },
            ),
            last_refresh: clone_opt_string(last_refresh),
        },
    }
}

/// The auth.json to publish for a stored account, after checking its credentials.
pub fn auth_json_for_account(account: &StoredAccount) -> (r: Result<AuthDotJson, CredentialError>)
    ensures
        r is Ok <==> spec_validate_account(*account) is Ok,
        r matches Err(e) ==> spec_validate_account(*account) == Err::<(), CredentialError>(e),
        r matches Ok(auth) ==> spec_auth_json_for(*account, auth),
{
    match crate::identity::validate_stored_account_credentials(account) {
        Ok(()) => Ok(create_auth_json(account)),
        Err(e) => Err(e),
    }
}

/// A new stored account (fresh id, current time) built from a parsed auth.json, or why the file
/// is refused. ChatGPT accounts take e-mail and plan from the ID token.
pub fn account_from_auth_json(auth: AuthDotJson, account_name: String) -> (r: Result<
    StoredAccount,
    AuthFileError,
>)
    ensures
        r is Ok <==> spec_validate_auth(auth) is Ok,
        r matches Err(e) ==> spec_validate_auth(auth) == Err::<(), AuthFileError>(e),
        r matches Ok(a) ==> {
            &&& a.name == account_name
            &&& a.last_used_at is None
            &&& a.previous_chatgpt_credential_hashes@.len() == 0
            &&& match auth.openai_api_key {
                Some(key) => {
                    &&& a.auth_mode == AuthMode::ApiKey
                    &&& a.auth_data == (AuthData::ApiKey { key })
                    &&& a.email is None
                    &&& a.plan_type is None
                },
                None => {
                    &&& auth.tokens matches Some(t)
                    &&& a.auth_mode == AuthMode::ChatGPT
                    &&& a.auth_data == (AuthData::ChatGPT {
                        id_token: t.id_token,
                        access_token: t.access_token,
                        refresh_token: t.refresh_token,
                        account_id: t.account_id,
                        last_refresh: auth.last_refresh,
                    })
                    &&& a.email == spec_claim_email(t.id_token@)
                    &&& a.plan_type == spec_claim_plan_type(t.id_token@)
                },
            }
        },
{
    match validate_auth_dot_json(&auth) {
        Ok(()) => {},
        Err(e) => {
            return Err(e);
        },
    }
    let AuthDotJson { openai_api_key, tokens, last_refresh } = auth;
    if let Some(api_key) = openai_api_key {
        return Ok(StoredAccount::new_api_key(account_name, api_key));
    }
    let t = match tokens {
        Some(t) => t,
        None => {
            return Err(AuthFileError::NoCredentials);
        },
    };
    let (email, plan_type) = parse_id_token_claims(t.id_token.as_str());
    Ok(
        StoredAccount::new_chatgpt_with_last_refresh(
            account_name,
            email,
            plan_type,
            t.id_token,
            t.access_token,
            t.refresh_token,
            t.account_id,
            last_refresh,
        ),
    )
}

/// The current auth.json, strictly validated; `None` when there is none.
pub fn read_current_auth(live: &LiveAuthFile) -> (r: Result<Option<AuthDotJson>, LiveAuthError>)
    ensures
        match *live {
            LiveAuthFile::Missing => r matches Ok(None),
            LiveAuthFile::Unparseable => r matches Err(LiveAuthError::Unparseable),
            LiveAuthFile::Present(auth) => match spec_validate_auth(auth) {
                Ok(()) => r matches Ok(Some(a)) && a == auth,
                Err(e) => r matches Err(LiveAuthError::InvalidLive(x)) && x == e,
            },
        },
{
    match live {
        LiveAuthFile::Missing => Ok(None),
        LiveAuthFile::Unparseable => Err(LiveAuthError::Unparseable),
        LiveAuthFile::Present(auth) => match validate_auth_dot_json(auth) {
            Ok(()) => Ok(Some(clone_auth(auth))),
            Err(e) => Err(LiveAuthError::InvalidLive(e)),
        },
    }
}

fn clone_auth(auth: &AuthDotJson) -> (r: AuthDotJson)
    ensures
        r == *auth,
{
    AuthDotJson {
        openai_api_key: clone_opt_string(&auth.openai_api_key),
        tokens: match &auth.tokens {
            Some(t) => Some(
                TokenData {
                    id_token: t.id_token.clone(),
                    access_token: t.access_token.clone(),
                    refresh_token: t.refresh_token.clone(),
                    account_id: clone_opt_string(&t.account_id),
                },
            ),
            None => None,
        },
        last_refresh: clone_opt_string(&auth.last_refresh),
    }
}

/// There is an active Codex login: auth.json exists and is valid.
pub fn has_active_login(live: &LiveAuthFile) -> (r: Result<bool, LiveAuthError>)
    ensures
        match *live {
            LiveAuthFile::Missing => r == Ok::<bool, LiveAuthError>(false),
            LiveAuthFile::Unparseable => r matches Err(LiveAuthError::Unparseable),
            LiveAuthFile::Present(auth) => match spec_validate_auth(auth) {
                Ok(()) => r == Ok::<bool, LiveAuthError>(true),
                Err(e) => r matches Err(LiveAuthError::InvalidLive(x)) && x == e,
            },
        },
{
    match read_current_auth(live) {
        Ok(a) => Ok(a.is_some()),
        Err(e) => Err(e),
    }
}

/// Changed live ChatGPT tokens may only replace stored ones when they are well-formed JWTs.
pub fn validate_live_chatgpt_tokens_for_catalog_import(tokens: &TokenData) -> (r: Result<
    (),
    LiveAuthError,
>)
    ensures
        r is Ok <==> (spec_parse_jwt(tokens.id_token@) is Some && spec_jwt_expiration(
            tokens.access_token@,
        ) is Some),
        r matches Err(e) ==> e == LiveAuthError::MalformedLiveTokens,
{
    if !jwt_payload_is_json(tokens.id_token.as_str()) || jwt_expiration(
        tokens.access_token.as_str(),
    ).is_none() {
        return Err(LiveAuthError::MalformedLiveTokens);
    }
    Ok(())
}


/// Reconciling keeps every account's id in place.
pub proof fn lemma_reconciled_ids(
    old: AccountsStore,
    new: AccountsStore,
    live: LiveAuthFile,
    o: ReconcileOutcome,
)
    requires
        spec_reconciled(old, new, live, o),
    ensures
        new.accounts@.len() == old.accounts@.len(),
        forall|j: int|
            0 <= j < old.accounts@.len() ==> (#[trigger] new.accounts@[j]).id == old.accounts@[j].id,
{
}

} // verus!
