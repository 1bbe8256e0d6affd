//! Core data model: stored accounts, the account catalog, Codex's auth.json shape and
//! the summaries handed to the user interface.
//!
//! Timestamps are RFC 3339 strings, exactly as they appear in the JSON files.

use vstd::prelude::*;

use crate::text::str_eq;

verus! {

/// Authentication mode of a stored account.
#[derive(Debug, Clone, Copy, PartialEq, Eq, Structural)]
pub enum AuthMode {
    /// Using an OpenAI API key
    ApiKey,
    /// Using ChatGPT OAuth tokens
    ChatGPT,
}

/// Authentication data (credentials).
#[derive(Debug, Clone)]
pub enum AuthData {
    /// API key authentication
    ApiKey { key: String },
    /// ChatGPT OAuth authentication
    ChatGPT {
        id_token: String,
        access_token: String,
        refresh_token: String,
        account_id: Option<String>,
        last_refresh: Option<String>,
    },
}

/// A stored account with its metadata and credentials.
#[derive(Debug, Clone)]
pub struct StoredAccount {
    pub id: String,
    pub name: String,
    pub email: Option<String>,
    pub plan_type: Option<String>,
    pub auth_mode: AuthMode,
    pub auth_data: AuthData,
    pub created_at: String,
    pub last_used_at: Option<String>,
    /// Fingerprints of ChatGPT credential bundles this account held before a refresh.
    pub previous_chatgpt_credential_hashes: Vec<String>,
}

/// The account catalog (accounts.json).
#[derive(Debug, Clone)]
pub struct AccountsStore {
    pub version: u32,
    pub accounts: Vec<StoredAccount>,
    pub active_account_id: Option<String>,
    pub masked_account_ids: Vec<String>,
}

/// Codex's auth.json.
#[derive(Debug, Clone)]
pub struct AuthDotJson {
    pub openai_api_key: Option<String>,
    pub tokens: Option<TokenData>,
    pub last_refresh: Option<String>,
}

/// Token data stored in auth.json.
#[derive(Debug, Clone)]
pub struct TokenData {
    pub id_token: String,
    pub access_token: String,
    pub refresh_token: String,
    pub account_id: Option<String>,
}

/// Account info sent to the user interface (without credentials).
#[derive(Debug, Clone)]
pub struct AccountInfo {
    pub id: String,
    pub name: String,
    pub email: Option<String>,
    pub plan_type: Option<String>,
    pub auth_mode: AuthMode,
    pub is_active: bool,
    pub created_at: String,
    pub last_used_at: Option<String>,
}

/// Warm-up execution summary across accounts.
#[derive(Debug, Clone)]
pub struct WarmupSummary {
    pub total_accounts: usize,
    pub warmed_accounts: usize,
    pub failed_account_ids: Vec<String>,
}

/// Import summary for account import operations.
#[derive(Debug, Clone, Copy, PartialEq, Eq, Structural)]
pub struct ImportAccountsSummary {
    pub total_in_payload: usize,
    pub imported_count: usize,
    pub skipped_count: usize,
}

/// OAuth login information returned to the user interface.
#[derive(Debug, Clone)]
pub struct OAuthLoginInfo {
    pub auth_url: String,
    pub callback_port: u16,
}

/// Credit status reported by the usage endpoint.
#[derive(Debug, Clone)]
pub struct CreditStatusDetails {
    pub has_credits: bool,
    pub unlimited: bool,
    pub balance: Option<String>,
}

/// Banked rate-limit resets reported by the usage endpoint.
#[derive(Debug, Clone, Copy, PartialEq, Eq, Structural)]
pub struct RateLimitResetCredits {
    pub available_count: Option<i64>,
}

pub fn clone_string(s: &String) -> (r: String)
    ensures
        r == *s,
        r@ == s@,
{
    s.clone()
}

pub fn clone_opt_string(s: &Option<String>) -> (r: Option<String>)
    ensures
        r == *s,
{
    match s {
        Some(v) => Some(v.clone()),
        None => None,
    }
}

pub fn clone_strings(v: &Vec<String>) -> (r: Vec<String>)
    ensures
        r@ == v@,
{
    let mut out: Vec<String> = Vec::new();
    let mut i: usize = 0;
    while i < v.len()
        invariant
            i <= v.len(),
            out@ == v@.subrange(0, i as int),
        decreases v.len() - i,
    {
        out.push(v[i].clone());
        i += 1;
        assert(out@ =~= v@.subrange(0, i as int));
    }
    assert(v@.subrange(0, v.len() as int) =~= v@);
    out
}

/// The characters of each string.
pub open spec fn str_views(s: Seq<String>) -> Seq<Seq<char>> {
    Seq::new(s.len(), |i: int| s[i]@)
}

/// The characters of an optional string.
pub open spec fn opt_view(s: Option<String>) -> Option<Seq<char>> {
    match s {
        Some(v) => Some(v@),
        None => None,
    }
}

pub fn opt_str_eq(a: &Option<String>, b: &Option<String>) -> (r: bool)
    ensures
        r == (opt_view(*a) == opt_view(*b)),
{
    match (a, b) {
        (Some(x), Some(y)) => str_eq(x.as_str(), y.as_str()),
        (None, None) => true,
        _ => false,
    }
}

/// Whether `s` is present and names the characters `t`.
pub open spec fn opt_is(s: Option<String>, t: Seq<char>) -> bool {
    s matches Some(v) && v@ == t
}

pub fn opt_is_str(s: &Option<String>, t: &str) -> (r: bool)
    ensures
        r == opt_is(*s, t@),
{
    match s {
        Some(v) => str_eq(v.as_str(), t),
        None => false,
    }
}

impl AuthData {
    pub fn duplicate(&self) -> (r: Self)
        ensures
            r == *self,
    {
        match self {
            AuthData::ApiKey { key } => AuthData::ApiKey { key: key.clone() },
            AuthData::ChatGPT { id_token, access_token, refresh_token, account_id, last_refresh } =>
            AuthData::ChatGPT {
                id_token: id_token.clone(),
                access_token: access_token.clone(),
                refresh_token: refresh_token.clone(),
                account_id: clone_opt_string(account_id),
                last_refresh: clone_opt_string(last_refresh),
            },
        }
    }
}

impl StoredAccount {
    pub fn duplicate(&self) -> (r: Self)
        ensures
            r.id == self.id,
            r.name == self.name,
            r.email == self.email,
            r.plan_type == self.plan_type,
            r.auth_mode == self.auth_mode,
            r.auth_data == self.auth_data,
            r.created_at == self.created_at,
            r.last_used_at == self.last_used_at,
            r.previous_chatgpt_credential_hashes@ == self.previous_chatgpt_credential_hashes@,
    {
        StoredAccount {
            id: self.id.clone(),
            name: self.name.clone(),
            email: clone_opt_string(&self.email),
            plan_type: clone_opt_string(&self.plan_type),
            auth_mode: self.auth_mode,
            auth_data: self.auth_data.duplicate(),
            created_at: self.created_at.clone(),
            last_used_at: clone_opt_string(&self.last_used_at),
            previous_chatgpt_credential_hashes: clone_strings(
                &self.previous_chatgpt_credential_hashes,
            ),
        }
    }

    /// An API key account with the given identity and creation time.
    pub fn api_key_account(id: String, name: String, api_key: String, created_at: String) -> (r:
        Self)
        ensures
            r.id == id,
            r.name == name,
            r.email is None,
            r.plan_type is None,
            r.auth_mode == AuthMode::ApiKey,
            r.auth_data == (AuthData::ApiKey { key: api_key }),
            r.created_at == created_at,
            r.last_used_at is None,
            r.previous_chatgpt_credential_hashes@.len() == 0,
    {
        StoredAccount {
            id,
            name,
            email: None,
            plan_type: None,
            auth_mode: AuthMode::ApiKey,
            auth_data: AuthData::ApiKey { key: api_key },
            created_at,
            last_used_at: None,
            previous_chatgpt_credential_hashes: Vec::new(),
        }
    }

    /// A ChatGPT account with the given identity, credentials and creation time.
    pub fn chatgpt_account(
        id: String,
        name: String,
        email: Option<String>,
        plan_type: Option<String>,
        id_token: String,
        access_token: String,
        refresh_token: String,
        account_id: Option<String>,
        last_refresh: Option<String>,
        created_at: String,
    ) -> (r: Self)
        ensures
            r.id == id,
            r.name == name,
            r.email == email,
            r.plan_type == plan_type,
            r.auth_mode == AuthMode::ChatGPT,
            r.auth_data == (AuthData::ChatGPT {
                id_token,
                access_token,
                refresh_token,
                account_id,
                last_refresh,
            }),
            r.created_at == created_at,
            r.last_used_at is None,
            r.previous_chatgpt_credential_hashes@.len() == 0,
    {
        StoredAccount {
            id,
            name,
            email,
            plan_type,
            auth_mode: AuthMode::ChatGPT,
            auth_data: AuthData::ChatGPT {
                id_token,
                access_token,
                refresh_token,
                account_id,
                last_refresh,
            },
            created_at,
            last_used_at: None,
            previous_chatgpt_credential_hashes: Vec::new(),
        }
    }

    /// Create a new account with API key authentication, a fresh random id and the current time.
    pub fn new_api_key(name: String, api_key: String) -> (r: Self)
        ensures
            r.name == name,
            r.email is None,
            r.plan_type is None,
            r.auth_mode == AuthMode::ApiKey,
            r.auth_data == (AuthData::ApiKey { key: api_key }),
            r.last_used_at is None,
            r.previous_chatgpt_credential_hashes@.len() == 0,
    {
        Self::api_key_account(new_account_id(), name, api_key, now_rfc3339())
    }

    /// Create a new account with ChatGPT OAuth authentication, a fresh random id and the current time.
    pub fn new_chatgpt(
        name: String,
        email: Option<String>,
        plan_type: Option<String>,
        id_token: String,
        access_token: String,
        refresh_token: String,
        account_id: Option<String>,
    ) -> (r: Self)
        ensures
            r.name == name,
            r.email == email,
            r.plan_type == plan_type,
            r.auth_mode == AuthMode::ChatGPT,
            r.auth_data == (AuthData::ChatGPT {
                id_token,
                access_token,
                refresh_token,
                account_id,
                last_refresh: None,
            }),
            r.last_used_at is None,
            r.previous_chatgpt_credential_hashes@.len() == 0,
    {
        Self::new_chatgpt_with_last_refresh(
            name,
            email,
            plan_type,
            id_token,
            access_token,
            refresh_token,
            account_id,
            None,
        )
    }

    /// Create a new ChatGPT account that records when its tokens were last refreshed.
    pub fn new_chatgpt_with_last_refresh(
        name: String,
        email: Option<String>,
        plan_type: Option<String>,
        id_token: String,
        access_token: String,
        refresh_token: String,
        account_id: Option<String>,
        last_refresh: Option<String>,
    ) -> (r: Self)
        ensures
            r.name == name,
            r.email == email,
            r.plan_type == plan_type,
            r.auth_mode == AuthMode::ChatGPT,
            r.auth_data == (AuthData::ChatGPT {
                id_token,
                access_token,
                refresh_token,
                account_id,
                last_refresh,
            }),
            r.last_used_at is None,
            r.previous_chatgpt_credential_hashes@.len() == 0,
    {
        Self::chatgpt_account(
            new_account_id(),
            name,
            email,
            plan_type,
            id_token,
            access_token,
            refresh_token,
            account_id,
            last_refresh,
            now_rfc3339(),
        )
    }
}

/// Calls `uuid::Uuid::new_v4` and renders the id with `to_string`. The value is random:
/// nothing is promised of it.
#[verifier::external_body]
fn new_account_id() -> String {
    uuid::Uuid::new_v4().to_string()
}

/// Calls `chrono::Utc::now` and renders it with `to_rfc3339`. The value depends on the clock:
/// nothing is promised of it.
#[verifier::external_body]
pub(crate) fn now_rfc3339() -> String {
    chrono::Utc::now().to_rfc3339()
}

impl AccountsStore {
    pub open spec fn ids(self) -> Seq<Seq<char>> {
        Seq::new(self.accounts@.len(), |i: int| self.accounts@[i].id@)
    }

    pub open spec fn names(self) -> Seq<Seq<char>> {
        Seq::new(self.accounts@.len(), |i: int| self.accounts@[i].name@)
    }

    /// An empty catalog with the current schema version.
    pub fn empty() -> (r: Self)
        ensures
            r.version == 1,
            r.accounts@.len() == 0,
            r.active_account_id is None,
            r.masked_account_ids@.len() == 0,
    {
        AccountsStore {
            version: 1,
            accounts: Vec::new(),
            active_account_id: None,
            masked_account_ids: Vec::new(),
        }
    }

    pub fn duplicate(&self) -> (r: Self)
        ensures
            r.version == self.version,
            r.active_account_id == self.active_account_id,
            r.masked_account_ids@ == self.masked_account_ids@,
            r.accounts@.len() == self.accounts@.len(),
            forall|i: int|
                0 <= i < self.accounts@.len() ==> same_account(
                    #[trigger] r.accounts@[i],
                    self.accounts@[i],
                ),
    {
        let mut accounts: Vec<StoredAccount> = Vec::new();
        let mut i: usize = 0;
        while i < self.accounts.len()
            invariant
                i <= self.accounts.len(),
                accounts@.len() == i,
                forall|j: int|
                    0 <= j < i ==> same_account(#[trigger] accounts@[j], self.accounts@[j]),
            decreases self.accounts.len() - i,
        {
            accounts.push(self.accounts[i].duplicate());
            i += 1;
        }
        AccountsStore {
            version: self.version,
            accounts,
            active_account_id: clone_opt_string(&self.active_account_id),
            masked_account_ids: clone_strings(&self.masked_account_ids),
        }
    }
}

/// Two accounts agree in every field (their hash lists by content).
pub open spec fn same_account(a: StoredAccount, b: StoredAccount) -> bool {
    &&& a.id == b.id
    &&& a.name == b.name
    &&& a.email == b.email
    &&& a.plan_type == b.plan_type
    &&& a.auth_mode == b.auth_mode
    &&& a.auth_data == b.auth_data
    &&& a.created_at == b.created_at
    &&& a.last_used_at == b.last_used_at
    &&& a.previous_chatgpt_credential_hashes@ == b.previous_chatgpt_credential_hashes@
}

impl Default for AccountsStore {
    fn default() -> (r: Self)
        ensures
            r.version == 1,
            r.accounts@.len() == 0,
            r.active_account_id is None,
            r.masked_account_ids@.len() == 0,
    {
        AccountsStore::empty()
    }
}

/// The schema version a catalog without one is read as.
pub fn default_store_version() -> (r: u32)
    ensures
        r == 1,
{
    1
}

impl AccountInfo {
    /// The user-facing view of a stored account; it is active exactly when `active_id` names it.
    pub fn from_stored(account: &StoredAccount, active_id: Option<&str>) -> (r: Self)
        ensures
            r.id == account.id,
            r.name == account.name,
            r.email == account.email,
            r.plan_type == account.plan_type,
            r.auth_mode == account.auth_mode,
            r.is_active == (active_id matches Some(a) && a@ == account.id@),
            r.created_at == account.created_at,
            r.last_used_at == account.last_used_at,
    {
        let is_active = match active_id {
            Some(a) => str_eq(a, account.id.as_str()),
            None => false,
        };
        AccountInfo {
            id: account.id.clone(),
            name: account.name.clone(),
            email: clone_opt_string(&account.email),
            plan_type: clone_opt_string(&account.plan_type),
            auth_mode: account.auth_mode,
            is_active,
            created_at: account.created_at.clone(),
            last_used_at: clone_opt_string(&account.last_used_at),
        }
    }
}

} // verus!
