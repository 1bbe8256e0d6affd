//! Credential validation and ChatGPT identity: which stored account a set of live Codex
//! credentials belongs to, and which catalogs hold two logins for the same account.

use vstd::prelude::*;

use crate::jwt::{
    opt_str_view, resolved_chatgpt_account_id, spec_resolved_account_id, ConflictingAccountIds,
};
use crate::text::{is_blank, spec_is_blank, str_eq};
use crate::types::{opt_view, AccountsStore, AuthData, AuthDotJson, AuthMode, StoredAccount, TokenData};

verus! {

/// Why an auth.json file cannot be used.
#[derive(Debug, Clone, Copy, PartialEq, Eq, Structural)]
pub enum AuthFileError {
    /// The API key is empty or white space.
    EmptyApiKey,
    /// A ChatGPT token is empty or white space.
    IncompleteChatGptCredentials,
    /// The explicit and the embedded ChatGPT account ids conflict.
    ConflictingAccountIds,
    /// Both an API key and ChatGPT tokens are present.
    MixedCredentials,
    /// Neither an API key nor ChatGPT tokens are present.
    NoCredentials,
}

impl AuthFileError {
    /// The text the error is reported with.
    pub fn message(&self) -> (r: &'static str)
        ensures
            r@ == spec_auth_file_message(*self),
    {
        match self {
            AuthFileError::EmptyApiKey => "Codex auth.json contains an empty API key",
            AuthFileError::IncompleteChatGptCredentials =>
                "Codex auth.json contains incomplete ChatGPT credentials",
            AuthFileError::ConflictingAccountIds =>
                "Explicit and embedded ChatGPT account IDs conflict",
            AuthFileError::MixedCredentials =>
                "Codex auth.json contains both API-key and ChatGPT credentials. Sign out before switching accounts.",
            AuthFileError::NoCredentials => "Codex auth.json contains no usable credentials",
        }
    }
}

pub open spec fn spec_auth_file_message(e: AuthFileError) -> Seq<char> {
    match e {
        AuthFileError::EmptyApiKey => "Codex auth.json contains an empty API key"@,
        AuthFileError::IncompleteChatGptCredentials =>
            "Codex auth.json contains incomplete ChatGPT credentials"@,
        AuthFileError::ConflictingAccountIds =>
            "Explicit and embedded ChatGPT account IDs conflict"@,
        AuthFileError::MixedCredentials =>
            "Codex auth.json contains both API-key and ChatGPT credentials. Sign out before switching accounts."@,
        AuthFileError::NoCredentials => "Codex auth.json contains no usable credentials"@,
    }
}

pub open spec fn opt_id_view(s: Option<String>) -> Option<Seq<char>> {
    opt_view(s)
}

/// Which error, if any, an auth.json is refused with.
pub open spec fn spec_validate_auth(auth: AuthDotJson) -> Result<(), AuthFileError> {
    match (auth.openai_api_key, auth.tokens) {
        (Some(key), None) => if spec_is_blank(key@) {
            Err(AuthFileError::EmptyApiKey)
        } else {
            Ok(())
        },
        (None, Some(t)) => if spec_is_blank(t.id_token@) || spec_is_blank(t.access_token@)
            || spec_is_blank(t.refresh_token@) {
            Err(AuthFileError::IncompleteChatGptCredentials)
        } else if spec_resolved_account_id(opt_id_view(t.account_id), t.id_token@) is Err {
            Err(AuthFileError::ConflictingAccountIds)
        } else {
            Ok(())
        },
        (Some(_), Some(_)) => Err(AuthFileError::MixedCredentials),
        (None, None) => Err(AuthFileError::NoCredentials),
    }
}

pub fn opt_as_str(s: &Option<String>) -> (r: Option<&str>)
    ensures
        opt_str_view(r) == opt_view(*s),
{
    match s {
        Some(v) => Some(v.as_str()),
        None => None,
    }
}

/// Strictly validate a parsed auth.json.
pub fn validate_auth_dot_json(auth: &AuthDotJson) -> (r: Result<(), AuthFileError>)
    ensures
        r == spec_validate_auth(*auth),
{
    match (&auth.openai_api_key, &auth.tokens) {
        (Some(key), None) => {
            if is_blank(key.as_str()) {
                Err(AuthFileError::EmptyApiKey)
            } else {
                Ok(())
            }
        },
        (None, Some(t)) => {
            if is_blank(t.id_token.as_str()) || is_blank(t.access_token.as_str()) || is_blank(
                t.refresh_token.as_str(),
            ) {
                return Err(AuthFileError::IncompleteChatGptCredentials);
            }
            match resolved_chatgpt_account_id(opt_as_str(&t.account_id), t.id_token.as_str()) {
                Ok(_) => Ok(()),
                Err(_) => Err(AuthFileError::ConflictingAccountIds),
            }
        },
        (Some(_), Some(_)) => Err(AuthFileError::MixedCredentials),
        (None, None) => Err(AuthFileError::NoCredentials),
    }
}

/// Why a stored account's credentials are unusable.
#[derive(Debug, Clone, Copy, PartialEq, Eq, Structural)]
pub enum CredentialError {
    MissingApiKey,
    MissingIdToken,
    MissingAccessToken,
    MissingRefreshToken,
    ConflictingAccountIds,
    /// The authentication mode does not match the kind of credentials.
    ModeMismatch,
}

/// The text unusable credentials of the account named `name` are reported with.
pub open spec fn spec_credential_message(e: CredentialError, name: Seq<char>) -> Seq<char> {
    match e {
        CredentialError::MissingApiKey => "API key is missing for account "@ + name,
        CredentialError::MissingIdToken => "ID token is missing for account "@ + name,
        CredentialError::MissingAccessToken => "Access token is missing for account "@ + name,
        CredentialError::MissingRefreshToken => "Refresh token is missing for account "@ + name,
        CredentialError::ConflictingAccountIds => "Account '"@ + name
            + "' has conflicting ChatGPT account IDs"@,
        CredentialError::ModeMismatch => "Authentication mode does not match credentials for account "@
            + name,
    }
}

impl CredentialError {
    /// The text the error is reported with, for the account named `name`.
    pub fn message(&self, name: &str) -> (r: String)
        ensures
            r@ == spec_credential_message(*self, name@),
    {
        match self {
            CredentialError::MissingApiKey => crate::text::concat_strs(
                "API key is missing for account ",
                name,
            ),
            CredentialError::MissingIdToken => crate::text::concat_strs(
                "ID token is missing for account ",
                name,
            ),
            CredentialError::MissingAccessToken => crate::text::concat_strs(
                "Access token is missing for account ",
                name,
            ),
            CredentialError::MissingRefreshToken => crate::text::concat_strs(
                "Refresh token is missing for account ",
                name,
            ),
            CredentialError::ConflictingAccountIds => {
                let head = crate::text::concat_strs("Account '", name);
                crate::text::concat_strs(
                    head.as_str(),
                    "' has conflicting ChatGPT account IDs",
                )
            },
            CredentialError::ModeMismatch => crate::text::concat_strs(
                "Authentication mode does not match credentials for account ",
                name,
            ),
        }
    }
}

pub open spec fn spec_validate_account(account: StoredAccount) -> Result<(), CredentialError> {
    match (account.auth_mode, account.auth_data) {
        (AuthMode::ApiKey, AuthData::ApiKey { key }) => if spec_is_blank(key@) {
            Err(CredentialError::MissingApiKey)
        } else {
            Ok(())
        },
        (AuthMode::ChatGPT, AuthData::ChatGPT { id_token, access_token, refresh_token, account_id, .. }) => {
            if spec_is_blank(id_token@) {
                Err(CredentialError::MissingIdToken)
            } else if spec_is_blank(access_token@) {
                Err(CredentialError::MissingAccessToken)
            } else if spec_is_blank(refresh_token@) {
                Err(CredentialError::MissingRefreshToken)
            } else if spec_resolved_account_id(opt_id_view(account_id), id_token@) is Err {
                Err(CredentialError::ConflictingAccountIds)
            } else {
                Ok(())
            }
        },
        _ => Err(CredentialError::ModeMismatch),
    }
}

/// Check that a stored account's mode matches its credentials and that none is missing.
pub fn validate_stored_account_credentials(account: &StoredAccount) -> (r: Result<
    (),
    CredentialError,
>)
    ensures
        r == spec_validate_account(*account),
{
    match (&account.auth_mode, &account.auth_data) {
        (AuthMode::ApiKey, AuthData::ApiKey { key }) => {
            if is_blank(key.as_str()) {
                Err(CredentialError::MissingApiKey)
            } else {
                Ok(())
            }
        },
        (
            AuthMode::ChatGPT,
            AuthData::ChatGPT { id_token, access_token, refresh_token, account_id, .. },
        ) => {
            if is_blank(id_token.as_str()) {
                return Err(CredentialError::MissingIdToken);
            }
            if is_blank(access_token.as_str()) {
                return Err(CredentialError::MissingAccessToken);
            }
            if is_blank(refresh_token.as_str()) {
                return Err(CredentialError::MissingRefreshToken);
            }
            match resolved_chatgpt_account_id(opt_as_str(account_id), id_token.as_str()) {
                Ok(_) => Ok(()),
                Err(_) => Err(CredentialError::ConflictingAccountIds),
            }
        },
        _ => Err(CredentialError::ModeMismatch),
    }
}

/// Two stored accounts hold credentials for the same login: the same API key; or, for ChatGPT,
/// the same token bundle, the same refresh token, or the same resolved account identity.
/// `Err` when either account's identity is conflicting.
pub open spec fn spec_share_credentials(a: StoredAccount, b: StoredAccount) -> Result<bool, ()> {
    match (a.auth_data, b.auth_data) {
        (AuthData::ApiKey { key: k1 }, AuthData::ApiKey { key: k2 }) => Ok(k1@ == k2@),
        (
            AuthData::ChatGPT {
                id_token: i1,
                access_token: a1,
                refresh_token: r1,
                account_id: c1,
                ..
            },
            AuthData::ChatGPT {
                id_token: i2,
                access_token: a2,
                refresh_token: r2,
                account_id: c2,
                ..
            },
        ) => {
            let e1 = spec_resolved_account_id(opt_id_view(c1), i1@);
            let e2 = spec_resolved_account_id(opt_id_view(c2), i2@);
            if e1 is Err || e2 is Err {
                Err(())
            } else {
                let exact = i1@ == i2@ && a1@ == a2@ && r1@ == r2@;
                Ok(exact || r1@ == r2@ || (e1->Ok_0 is Some && e1->Ok_0 == e2->Ok_0))
            }
        },
        _ => Ok(false),
    }
}

fn opt_string_eq(a: &Option<String>, b: &Option<String>) -> (r: bool)
    ensures
        r == (opt_view(*a) == opt_view(*b)),
{
    crate::types::opt_str_eq(a, b)
}

/// Whether two stored accounts hold credentials for the same login.
pub fn stored_accounts_share_credentials(first: &StoredAccount, second: &StoredAccount) -> (r:
    Result<bool, ConflictingAccountIds>)
    ensures
        match r {
            Ok(b) => spec_share_credentials(*first, *second) == Ok::<bool, ()>(b),
            Err(_) => spec_share_credentials(*first, *second) is Err,
        },
{
    match (&first.auth_data, &second.auth_data) {
        (AuthData::ApiKey { key: k1 }, AuthData::ApiKey { key: k2 }) => Ok(
            str_eq(k1.as_str(), k2.as_str()),
        ),
        (
            AuthData::ChatGPT {
                id_token: i1,
                access_token: a1,
                refresh_token: r1,
                account_id: c1,
                ..
            },
            AuthData::ChatGPT {
                id_token: i2,
                access_token: a2,
                refresh_token: r2,
                account_id: c2,
                ..
            },
        ) => {
            let e1 = resolved_chatgpt_account_id(opt_as_str(c1), i1.as_str())?;
            let e2 = resolved_chatgpt_account_id(opt_as_str(c2), i2.as_str())?;
            let same_refresh = str_eq(r1.as_str(), r2.as_str());
            let exact = str_eq(i1.as_str(), i2.as_str()) && str_eq(a1.as_str(), a2.as_str())
                && same_refresh;
            let same_identity = e1.is_some() && opt_string_eq(&e1, &e2);
            Ok(exact || same_refresh || same_identity)
        },
        _ => Ok(false),
    }
}


/// Why a catalog's credentials are refused.
#[derive(Debug, Clone)]
pub enum CatalogError {
    /// The account at `index` has unusable credentials.
    Invalid { index: usize, name: String, reason: CredentialError },
    /// The accounts at `first` and `second` hold credentials for the same login.
    Shared { first: usize, second: usize, first_name: String, second_name: String },
}

/// The text a refused catalog is reported with.
pub open spec fn spec_catalog_message(e: CatalogError) -> Seq<char> {
    match e {
        CatalogError::Invalid { name, reason, .. } => spec_credential_message(reason, name@),
        CatalogError::Shared { first_name, second_name, .. } => "Accounts '"@ + first_name@
            + "' and '"@ + second_name@ + "' contain credentials for the same login"@,
    }
}

impl CatalogError {
    /// The text the error is reported with.
    pub fn message(&self) -> (r: String)
        ensures
            r@ == spec_catalog_message(*self),
    {
        match self {
            CatalogError::Invalid { name, reason, .. } => reason.message(name.as_str()),
            CatalogError::Shared { first_name, second_name, .. } => {
                let a = crate::text::concat_strs("Accounts '", first_name.as_str());
                let b = crate::text::concat_strs(a.as_str(), "' and '");
                let c = crate::text::concat_strs(b.as_str(), second_name.as_str());
                crate::text::concat_strs(c.as_str(), "' contain credentials for the same login")
            },
        }
    }
}

pub open spec fn spec_all_valid(accounts: Seq<StoredAccount>) -> bool {
    forall|i: int| 0 <= i < accounts.len() ==> spec_validate_account(#[trigger] accounts[i]) is Ok
}

/// No two accounts of the catalog hold credentials for the same login.
pub open spec fn spec_no_shared(accounts: Seq<StoredAccount>) -> bool {
    forall|i: int, j: int|
        0 <= i < j < accounts.len() ==> spec_share_credentials(
            #[trigger] accounts[i],
            #[trigger] accounts[j],
        ) == Ok::<bool, ()>(false)
}

/// Every account is valid and no two accounts share a login.
pub open spec fn spec_catalog_unique(accounts: Seq<StoredAccount>) -> bool {
    spec_all_valid(accounts) && spec_no_shared(accounts)
}

/// Whether a catalog is free of unusable and shared credentials depends on each account's mode
/// and credentials alone.
pub proof fn lemma_catalog_unique_by_credentials(a: Seq<StoredAccount>, b: Seq<StoredAccount>)
    requires
        a.len() == b.len(),
        forall|i: int|
            0 <= i < a.len() ==> (#[trigger] a[i]).auth_mode == b[i].auth_mode && a[i].auth_data
                == b[i].auth_data,
    ensures
        spec_catalog_unique(a) == spec_catalog_unique(b),
{
    assert forall|i: int| 0 <= i < a.len() implies spec_validate_account(#[trigger] a[i])
        == spec_validate_account(b[i]) by {
        assert(a[i].auth_mode == b[i].auth_mode && a[i].auth_data == b[i].auth_data);
    }
    assert forall|i: int, j: int| 0 <= i < j < a.len() implies spec_share_credentials(
        #[trigger] a[i],
        #[trigger] a[j],
    ) == spec_share_credentials(b[i], b[j]) by {
        assert(a[i].auth_data == b[i].auth_data);
        assert(a[j].auth_data == b[j].auth_data);
    }
    if spec_catalog_unique(a) {
        assert forall|i: int| 0 <= i < b.len() implies spec_validate_account(#[trigger] b[i]) is Ok by {
            assert(spec_validate_account(a[i]) == spec_validate_account(b[i]));
        }
        assert forall|i: int, j: int| 0 <= i < j < b.len() implies spec_share_credentials(
            #[trigger] b[i],
            #[trigger] b[j],
        ) == Ok::<bool, ()>(false) by {
            assert(spec_share_credentials(a[i], a[j]) == spec_share_credentials(b[i], b[j]));
        }
    }
    if spec_catalog_unique(b) {
        assert forall|i: int| 0 <= i < a.len() implies spec_validate_account(#[trigger] a[i]) is Ok by {
            assert(spec_validate_account(a[i]) == spec_validate_account(b[i]));
        }
        assert forall|i: int, j: int| 0 <= i < j < a.len() implies spec_share_credentials(
            #[trigger] a[i],
            #[trigger] a[j],
        ) == Ok::<bool, ()>(false) by {
            assert(spec_share_credentials(a[i], a[j]) == spec_share_credentials(b[i], b[j]));
        }
    }
}

/// Valid accounts can always be compared.
pub proof fn lemma_valid_accounts_comparable(a: StoredAccount, b: StoredAccount)
    requires
        spec_validate_account(a) is Ok,
        spec_validate_account(b) is Ok,
    ensures
        spec_share_credentials(a, b) is Ok,
{
}

/// Validate every account, then refuse two accounts that hold the same login.
pub fn validate_catalog_credential_uniqueness(store: &AccountsStore) -> (r: Result<
    (),
    CatalogError,
>)
    ensures
        r is Ok <==> spec_catalog_unique(store.accounts@),
        r matches Err(CatalogError::Invalid { index, name, reason }) ==> {
            &&& index < store.accounts@.len()
            &&& (forall|j: int|
                0 <= j < index ==> spec_validate_account(#[trigger] store.accounts@[j]) is Ok)
            &&& spec_validate_account(store.accounts@[index as int]) == Err::<(), CredentialError>(
                reason,
            )
            &&& name == store.accounts@[index as int].name
        },
        r matches Err(CatalogError::Shared { first, second, first_name, second_name }) ==> {
            &&& spec_all_valid(store.accounts@)
            &&& first < second < store.accounts@.len()
            &&& spec_share_credentials(
                store.accounts@[first as int],
                store.accounts@[second as int],
            ) == Ok::<bool, ()>(true)
            &&& first_name == store.accounts@[first as int].name
            &&& second_name == store.accounts@[second as int].name
        },
{
    let accounts = &store.accounts;
    let n = accounts.len();
    let mut i: usize = 0;
    while i < n
        invariant
            n == accounts@.len(),
            accounts@ == store.accounts@,
            i <= n,
            forall|j: int| 0 <= j < i ==> spec_validate_account(#[trigger] accounts@[j]) is Ok,
        decreases n - i,
    {
        match validate_stored_account_credentials(&accounts[i]) {
            Ok(()) => {},
            Err(reason) => {
                return Err(
                    CatalogError::Invalid { index: i, name: accounts[i].name.clone(), reason },
                );
            },
        }
        i += 1;
    }
    let mut a: usize = 0;
    while a < n
        invariant
            n == accounts@.len(),
            accounts@ == store.accounts@,
            a <= n,
            spec_all_valid(accounts@),
            forall|x: int, y: int|
                0 <= x < a && x < y < n ==> spec_share_credentials(
                    #[trigger] accounts@[x],
                    #[trigger] accounts@[y],
                ) == Ok::<bool, ()>(false),
        decreases n - a,
    {
        let mut b: usize = a + 1;
        while b < n
            invariant
                n == accounts@.len(),
                accounts@ == store.accounts@,
            accounts@ == store.accounts@,
                a < n,
                a + 1 <= b <= n,
                spec_all_valid(accounts@),
                forall|x: int, y: int|
                    0 <= x < a && x < y < n ==> spec_share_credentials(
                        #[trigger] accounts@[x],
                        #[trigger] accounts@[y],
                    ) == Ok::<bool, ()>(false),
                forall|y: int|
                    a < y < b ==> spec_share_credentials(accounts@[a as int], #[trigger] accounts@[y])
                        == Ok::<bool, ()>(false),
            decreases n - b,
        {
            proof {
                lemma_valid_accounts_comparable(accounts@[a as int], accounts@[b as int]);
            }
            match stored_accounts_share_credentials(&accounts[a], &accounts[b]) {
                Ok(true) => {
                    return Err(
                        CatalogError::Shared {
                            first: a,
                            second: b,
                            first_name: accounts[a].name.clone(),
                            second_name: accounts[b].name.clone(),
                        },
                    );
                },
                Ok(false) => {},
                Err(_) => {
                    assert(false);
                    return Ok(());
                },
            }
            b += 1;
        }
        a += 1;
    }
    Ok(())
}

} // verus!
