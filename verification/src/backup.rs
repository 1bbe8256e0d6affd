//! Account backups: the compact "slim" export (names and long-lived credentials only) and the
//! encrypted full export of the catalog. JSON encoding of the payloads is the caller's part; this
//! module builds and checks the payloads and frames, compresses and encrypts their bytes.

use vstd::prelude::*;

use crate::catalog::{find_account_index, lemma_first_with_id, spec_first_with_id, spec_id_present};
use crate::digest::{sha256, spec_sha256};
use crate::identity::{spec_validate_account, validate_stored_account_credentials, CredentialError};
use crate::jwt::{
    base64_url_decode, base64_url_encode, opt_bytes, spec_base64_url_decode,
    spec_base64_url_encode, spec_is_url_safe_b64,
};
use crate::text::{is_whitespace, spec_is_ws, spec_starts_with, starts_with, sub_chars};
use flate2::read::ZlibDecoder;
use flate2::write::ZlibEncoder;
use rand::RngCore;
use std::io::{Read, Write};
use chacha20poly1305::aead::{Aead, KeyInit};
use crate::text::{
    chars_of, concat_chars, decimal_chars, is_blank, spec_decimal, spec_is_blank, spec_trim,
    str_eq, string_from_chars,
};
use crate::types::{
    clone_opt_string, clone_string, opt_is, opt_is_str, opt_str_eq, opt_view, AccountsStore,
    AuthData, ImportAccountsSummary, StoredAccount,
};

verus! {

/// Prefix of a slim export string.
pub const SLIM_EXPORT_PREFIX: &'static str = "css1.";

/// Version of the slim payload format.
pub const SLIM_FORMAT_VERSION: u8 = 1;

/// Slim auth type of an API-key account.
pub const SLIM_AUTH_API_KEY: u8 = 0;

/// Slim auth type of a ChatGPT account.
pub const SLIM_AUTH_CHATGPT: u8 = 1;

/// One account of a slim export: its name and its long-lived credential.
#[derive(Debug, Clone)]
pub struct SlimAccountPayload {
    pub name: String,
    pub auth_type: u8,
    pub api_key: Option<String>,
    pub refresh_token: Option<String>,
}

/// A slim export: the accounts and the name of the active one.
#[derive(Debug, Clone)]
pub struct SlimPayload {
    pub version: u8,
    pub active_name: Option<String>,
    pub accounts: Vec<SlimAccountPayload>,
}

/// Why a backup could not be made, read or accepted.
#[derive(Debug, Clone)]
pub enum BackupError {
    EmptyImport,
    InvalidBase64,
    DecompressFailed,
    DataTooLarge,
    CompressFailed,
    UnsupportedVersion(u8),
    EmptyName,
    DuplicateName(String),
    MissingApiKey(String),
    DuplicateApiKey,
    MissingRefreshToken(String),
    DuplicateRefreshToken,
    UnsupportedAuthType { auth_type: u8, name: String },
    MissingActive(String),
    ApiKeyPayloadMissing,
    RefreshTokenPayloadMissing,
    UnsupportedPayloadAuthType,
    FileTooLarge,
    Truncated,
    BadHeader,
    UnsupportedFileVersion(u8),
    MachineKeyMissing,
    DecryptLegacyFailed,
    DecryptFailed,
    EncryptFailed,
    PayloadDecompressFailed,
    ImportEmptyId,
    ImportEmptyName,
    ImportDuplicateId(String),
    ImportDuplicateName(String),
    ImportInvalidCredentials { name: String, error: CredentialError },
    ImportMissingActive(String),
}

/// The text of each error.
pub open spec fn spec_backup_error_message(e: BackupError) -> Seq<char> {
    match e {
        BackupError::EmptyImport => "Import string is empty"@,
        BackupError::InvalidBase64 => "Invalid slim import string (base64 decode failed)"@,
        BackupError::DecompressFailed => "Invalid slim import string (decompression failed)"@,
        BackupError::DataTooLarge =>
            "Invalid slim import string (decompression failed): Import data is too large"@,
        BackupError::CompressFailed => "Failed to compress slim payload"@,
        BackupError::UnsupportedVersion(v) => "Unsupported slim payload version: "@ + spec_decimal(
            v as nat,
        ),
        BackupError::EmptyName => "Slim import contains an account with empty name"@,
        BackupError::DuplicateName(n) => "Slim import contains duplicate account name: "@ + n@,
        BackupError::MissingApiKey(n) => "API key is missing for account "@ + n@,
        BackupError::DuplicateApiKey =>
            "Slim import contains more than one account with the same API key"@,
        BackupError::MissingRefreshToken(n) => "Refresh token is missing for account "@ + n@,
        BackupError::DuplicateRefreshToken =>
            "Slim import contains more than one account with the same refresh token"@,
        BackupError::UnsupportedAuthType { auth_type, name } => "Unsupported auth type "@
            + spec_decimal(auth_type as nat) + " for account "@ + name@,
        BackupError::MissingActive(n) => "Slim import references missing active account: "@ + n@,
        BackupError::ApiKeyPayloadMissing => "API key payload is missing"@,
        BackupError::RefreshTokenPayloadMissing => "Refresh token payload is missing"@,
        BackupError::UnsupportedPayloadAuthType => "Unsupported auth type in slim payload"@,
        BackupError::FileTooLarge => "Encrypted file is too large"@,
        BackupError::Truncated => "Encrypted file is invalid or truncated"@,
        BackupError::BadHeader => "Encrypted file header is invalid"@,
        BackupError::UnsupportedFileVersion(v) => "Unsupported encrypted file version: "@
            + spec_decimal(v as nat),
        BackupError::MachineKeyMissing =>
            "This full backup was exported with the new machine-bound format. Restore it from the original machine/profile, or import a legacy backup and re-export locally."@,
        BackupError::DecryptLegacyFailed =>
            "Failed to decrypt legacy full backup. The file may be corrupted."@,
        BackupError::DecryptFailed =>
            "Failed to decrypt full backup. The file may be corrupted, or it belongs to a different machine/profile."@,
        BackupError::EncryptFailed => "Failed to encrypt account store"@,
        BackupError::PayloadDecompressFailed => "Failed to decompress decrypted payload"@,
        BackupError::ImportEmptyId => "Import contains an account with empty id"@,
        BackupError::ImportEmptyName => "Import contains an account with empty name"@,
        BackupError::ImportDuplicateId(n) => "Import contains duplicate account id: "@ + n@,
        BackupError::ImportDuplicateName(n) => "Import contains duplicate account name: "@ + n@,
        BackupError::ImportInvalidCredentials { name, .. } =>
            "Import contains invalid credentials for "@ + name@,
        BackupError::ImportMissingActive(n) => "Import references a missing active account: "@
            + n@,
    }
}

fn text_with(text: &str, tail: &[char]) -> (r: Vec<char>)
    ensures
        r@ == text@ + tail@,
{
    let t = chars_of(text);
    concat_chars(t.as_slice(), tail)
}

fn text_with_str(text: &str, tail: &str) -> (r: Vec<char>)
    ensures
        r@ == text@ + tail@,
{
    let t = chars_of(tail);
    text_with(text, t.as_slice())
}

impl BackupError {
    /// The error's text.
    pub fn message(&self) -> (r: String)
        ensures
            r@ == spec_backup_error_message(*self),
    {
        let v: Vec<char> = match self {
            BackupError::EmptyImport => chars_of("Import string is empty"),
            BackupError::InvalidBase64 => chars_of(
                "Invalid slim import string (base64 decode failed)",
            ),
            BackupError::DecompressFailed => chars_of(
                "Invalid slim import string (decompression failed)",
            ),
            BackupError::DataTooLarge => chars_of(
                "Invalid slim import string (decompression failed): Import data is too large",
            ),
            BackupError::CompressFailed => chars_of("Failed to compress slim payload"),
            BackupError::UnsupportedVersion(v) => {
                let d = decimal_chars(*v as u64);
                text_with("Unsupported slim payload version: ", d.as_slice())
            },
            BackupError::EmptyName => chars_of("Slim import contains an account with empty name"),
            BackupError::DuplicateName(n) => text_with_str(
                "Slim import contains duplicate account name: ",
                n.as_str(),
            ),
            BackupError::MissingApiKey(n) => text_with_str(
                "API key is missing for account ",
                n.as_str(),
            ),
            BackupError::DuplicateApiKey => chars_of(
                "Slim import contains more than one account with the same API key",
            ),
            BackupError::MissingRefreshToken(n) => text_with_str(
                "Refresh token is missing for account ",
                n.as_str(),
            ),
            BackupError::DuplicateRefreshToken => chars_of(
                "Slim import contains more than one account with the same refresh token",
            ),
            BackupError::UnsupportedAuthType { auth_type, name } => {
                let d = decimal_chars(*auth_type as u64);
                let head = text_with("Unsupported auth type ", d.as_slice());
                let tail = text_with_str(" for account ", name.as_str());
                concat_chars(head.as_slice(), tail.as_slice())
            },
            BackupError::MissingActive(n) => text_with_str(
                "Slim import references missing active account: ",
                n.as_str(),
            ),
            BackupError::ApiKeyPayloadMissing => chars_of("API key payload is missing"),
            BackupError::RefreshTokenPayloadMissing => chars_of("Refresh token payload is missing"),
            BackupError::UnsupportedPayloadAuthType => chars_of(
                "Unsupported auth type in slim payload",
            ),
            BackupError::FileTooLarge => chars_of("Encrypted file is too large"),
            BackupError::Truncated => chars_of("Encrypted file is invalid or truncated"),
            BackupError::BadHeader => chars_of("Encrypted file header is invalid"),
            BackupError::UnsupportedFileVersion(v) => {
                let d = decimal_chars(*v as u64);
                text_with("Unsupported encrypted file version: ", d.as_slice())
            },
            BackupError::MachineKeyMissing => chars_of(
                "This full backup was exported with the new machine-bound format. Restore it from the original machine/profile, or import a legacy backup and re-export locally.",
            ),
            BackupError::DecryptLegacyFailed => chars_of(
                "Failed to decrypt legacy full backup. The file may be corrupted.",
            ),
            BackupError::DecryptFailed => chars_of(
                "Failed to decrypt full backup. The file may be corrupted, or it belongs to a different machine/profile.",
            ),
            BackupError::EncryptFailed => chars_of("Failed to encrypt account store"),
            BackupError::PayloadDecompressFailed => chars_of(
                "Failed to decompress decrypted payload",
            ),
            BackupError::ImportEmptyId => chars_of("Import contains an account with empty id"),
            BackupError::ImportEmptyName => chars_of("Import contains an account with empty name"),
            BackupError::ImportDuplicateId(n) => text_with_str(
                "Import contains duplicate account id: ",
                n.as_str(),
            ),
            BackupError::ImportDuplicateName(n) => text_with_str(
                "Import contains duplicate account name: ",
                n.as_str(),
            ),
            BackupError::ImportInvalidCredentials { name, .. } => text_with_str(
                "Import contains invalid credentials for ",
                name.as_str(),
            ),
            BackupError::ImportMissingActive(n) => text_with_str(
                "Import references a missing active account: ",
                n.as_str(),
            ),
        };
        string_from_chars(v.as_slice())
    }
}

/// The slim entry of a stored account: its name with its API key, or with its refresh token.
pub open spec fn spec_slim_entry_for(account: StoredAccount, entry: SlimAccountPayload) -> bool {
    &&& entry.name == account.name
    &&& match account.auth_data {
        AuthData::ApiKey { key } => entry.auth_type == SLIM_AUTH_API_KEY && entry.api_key == Some(
            key,
        ) && entry.refresh_token is None,
        AuthData::ChatGPT { refresh_token, .. } => entry.auth_type == SLIM_AUTH_CHATGPT
            && entry.api_key is None && entry.refresh_token == Some(refresh_token),
    }
}

fn slim_entry_of(account: &StoredAccount) -> (r: SlimAccountPayload)
    ensures
        spec_slim_entry_for(*account, r),
{
    match &account.auth_data {
        AuthData::ApiKey { key } => SlimAccountPayload {
            name: clone_string(&account.name),
            auth_type: SLIM_AUTH_API_KEY,
            api_key: Some(clone_string(key)),
            refresh_token: None,
        },
        AuthData::ChatGPT { refresh_token, .. } => SlimAccountPayload {
            name: clone_string(&account.name),
            auth_type: SLIM_AUTH_CHATGPT,
            api_key: None,
            refresh_token: Some(clone_string(refresh_token)),
        },
    }
}

/// `payload` is the slim export of the catalog (see `encode_slim_payload_from_store`).
pub open spec fn spec_slim_export_of(store: AccountsStore, payload: SlimPayload) -> bool {
    &&& payload.version == SLIM_FORMAT_VERSION
    &&& payload.accounts@.len() == store.accounts@.len()
    &&& forall|i: int|
        0 <= i < store.accounts@.len() ==> spec_slim_entry_for(
            #[trigger] store.accounts@[i],
            payload.accounts@[i],
        )
    &&& payload.active_name == match store.active_account_id {
        Some(id) => if spec_id_present(store.accounts@, id@) {
            Some(store.accounts@[spec_first_with_id(store.accounts@, id@)].name)
        } else {
            None
        },
        None => None,
    }
}

/// The slim payload of a catalog: every account in order, and the name of the first account
/// whose id is the active id.
pub fn encode_slim_payload_from_store(store: &AccountsStore) -> (r: SlimPayload)
    ensures
        spec_slim_export_of(*store, r),
{
    let active_name = match &store.active_account_id {
        Some(id) => match find_account_index(&store.accounts, id.as_str()) {
            Some(k) => {
                proof {
                    lemma_first_with_id(store.accounts@, id@, k as int);
                }
                Some(clone_string(&store.accounts[k].name))
            },
            None => None,
        },
        None => None,
    };
    let mut accounts: Vec<SlimAccountPayload> = Vec::new();
    let mut i: usize = 0;
    while i < store.accounts.len()
        invariant
            i <= store.accounts@.len(),
            accounts@.len() == i,
            forall|j: int|
                0 <= j < i ==> spec_slim_entry_for(#[trigger] store.accounts@[j], accounts@[j]),
        decreases store.accounts@.len() - i,
    {
        accounts.push(slim_entry_of(&store.accounts[i]));
        i += 1;
    }
    SlimPayload { version: SLIM_FORMAT_VERSION, active_name, accounts }
}

/// What is wrong with a slim entry, checked in order against the entries before it.
#[derive(Debug, Clone, Copy, PartialEq, Eq, Structural)]
pub enum SlimIssue {
    EmptyName,
    DuplicateName,
    MissingApiKey,
    DuplicateApiKey,
    MissingRefreshToken,
    DuplicateRefreshToken,
    UnsupportedAuthType,
}

/// A present credential that is not blank.
pub open spec fn spec_present(o: Option<String>) -> bool {
    o matches Some(v) && !spec_is_blank(v@)
}

/// The first problem of entry `i` given the entries before it, if any: a blank or repeated name,
/// a missing or repeated credential of its auth type, or an unknown auth type.
pub open spec fn spec_slim_issue(accounts: Seq<SlimAccountPayload>, i: int) -> Option<SlimIssue> {
    let a = accounts[i];
    if spec_is_blank(a.name@) {
        Some(SlimIssue::EmptyName)
    } else if exists|j: int| 0 <= j < i && (#[trigger] accounts[j]).name@ == a.name@ {
        Some(SlimIssue::DuplicateName)
    } else if a.auth_type == SLIM_AUTH_API_KEY {
        if !spec_present(a.api_key) {
            Some(SlimIssue::MissingApiKey)
        } else if exists|j: int|
            0 <= j < i && (#[trigger] accounts[j]).auth_type == SLIM_AUTH_API_KEY && opt_view(
                accounts[j].api_key,
            ) == opt_view(a.api_key) {
            Some(SlimIssue::DuplicateApiKey)
        } else {
            None
        }
    } else if a.auth_type == SLIM_AUTH_CHATGPT {
        if !spec_present(a.refresh_token) {
            Some(SlimIssue::MissingRefreshToken)
        } else if exists|j: int|
            0 <= j < i && (#[trigger] accounts[j]).auth_type == SLIM_AUTH_CHATGPT && opt_view(
                accounts[j].refresh_token,
            ) == opt_view(a.refresh_token) {
            Some(SlimIssue::DuplicateRefreshToken)
        } else {
            None
        }
    } else {
        Some(SlimIssue::UnsupportedAuthType)
    }
}

/// The error reported for an entry's problem.
pub open spec fn spec_slim_error(a: SlimAccountPayload, issue: SlimIssue, e: BackupError) -> bool {
    match issue {
        SlimIssue::EmptyName => e is EmptyName,
        SlimIssue::DuplicateName => e matches BackupError::DuplicateName(n) && n@ == a.name@,
        SlimIssue::MissingApiKey => e matches BackupError::MissingApiKey(n) && n@ == a.name@,
        SlimIssue::DuplicateApiKey => e is DuplicateApiKey,
        SlimIssue::MissingRefreshToken => e matches BackupError::MissingRefreshToken(n) && n@
            == a.name@,
        SlimIssue::DuplicateRefreshToken => e is DuplicateRefreshToken,
        SlimIssue::UnsupportedAuthType => e matches BackupError::UnsupportedAuthType {
            auth_type,
            name,
        } && auth_type == a.auth_type && name@ == a.name@,
    }
}

/// No entry has a problem.
pub open spec fn spec_slim_entries_ok(accounts: Seq<SlimAccountPayload>) -> bool {
    forall|i: int| 0 <= i < accounts.len() ==> #[trigger] spec_slim_issue(accounts, i) is None
}

/// The active name, when given, is one of the entries' names.
pub open spec fn spec_slim_active_ok(payload: SlimPayload) -> bool {
    match payload.active_name {
        Some(n) => exists|j: int|
            0 <= j < payload.accounts@.len() && (#[trigger] payload.accounts@[j]).name@ == n@,
        None => true,
    }
}

/// The account names of a catalog are non-blank and distinct.
pub open spec fn spec_names_distinct(accounts: Seq<StoredAccount>) -> bool {
    &&& forall|i: int| 0 <= i < accounts.len() ==> !spec_is_blank(#[trigger] accounts[i].name@)
    &&& forall|i: int, j: int|
        0 <= i < j < accounts.len() ==> (#[trigger] accounts[i]).name@ != (#[trigger] accounts[j]).name@
}

/// Two valid accounts that do not share credentials export different credentials.
proof fn lemma_unshared_entries_differ(
    a: StoredAccount,
    b: StoredAccount,
    ea: SlimAccountPayload,
    eb: SlimAccountPayload,
)
    requires
        spec_slim_entry_for(a, ea),
        spec_slim_entry_for(b, eb),
        spec_validate_account(a) is Ok,
        spec_validate_account(b) is Ok,
        crate::identity::spec_share_credentials(a, b) == Ok::<bool, ()>(false),
    ensures
        ea.auth_type == eb.auth_type ==> ea.api_key is Some ==> opt_view(ea.api_key) != opt_view(
            eb.api_key,
        ),
        ea.auth_type == eb.auth_type ==> ea.refresh_token is Some ==> opt_view(ea.refresh_token)
            != opt_view(eb.refresh_token),
{
}

/// Entry `i` of the export of such a catalog has no problem.
proof fn lemma_export_entry_ok(acc: Seq<StoredAccount>, ps: Seq<SlimAccountPayload>, i: int)
    requires
        0 <= i < acc.len(),
        ps.len() == acc.len(),
        forall|k: int| 0 <= k < acc.len() ==> spec_slim_entry_for(#[trigger] acc[k], ps[k]),
        spec_names_distinct(acc),
        crate::identity::spec_catalog_unique(acc),
    ensures
        spec_slim_issue(ps, i) is None,
{
    assert(spec_slim_entry_for(acc[i], ps[i]));
    assert(spec_validate_account(acc[i]) is Ok);
    assert forall|j: int| 0 <= j < i implies (#[trigger] ps[j]).name@ != ps[i].name@ && (
    ps[j].auth_type == ps[i].auth_type ==> ps[i].api_key is Some ==> opt_view(ps[j].api_key)
        != opt_view(ps[i].api_key)) && (ps[j].auth_type == ps[i].auth_type
        ==> ps[i].refresh_token is Some ==> opt_view(ps[j].refresh_token) != opt_view(
        ps[i].refresh_token,
    )) by {
        assert(spec_slim_entry_for(acc[j], ps[j]));
        assert(spec_validate_account(acc[j]) is Ok);
        assert(acc[j].name@ != acc[i].name@);
        lemma_unshared_entries_differ(acc[i], acc[j], ps[i], ps[j]);
        assert(crate::identity::spec_share_credentials(acc[j], acc[i]) == Ok::<bool, ()>(false));
    }
}

/// A slim export of a catalog with non-blank, distinct names and usable, unshared credentials is
/// accepted by import validation: every entry passes, and the active name is one of them.
pub proof fn law_slim_export_of_valid_catalog_validates(store: AccountsStore, payload: SlimPayload)
    requires
        spec_slim_export_of(store, payload),
        spec_names_distinct(store.accounts@),
        crate::identity::spec_catalog_unique(store.accounts@),
    ensures
        spec_slim_entries_ok(payload.accounts@),
        spec_slim_active_ok(payload),
{
    let acc = store.accounts@;
    let ps = payload.accounts@;
    assert forall|i: int| 0 <= i < ps.len() implies #[trigger] spec_slim_issue(ps, i) is None by {
        lemma_export_entry_ok(acc, ps, i);
    }
    lemma_export_active_ok(store, payload);
}

/// The active name of an export is one of its entries' names.
proof fn lemma_export_active_ok(store: AccountsStore, payload: SlimPayload)
    requires
        spec_slim_export_of(store, payload),
    ensures
        spec_slim_active_ok(payload),
{
    let acc = store.accounts@;
    let ps = payload.accounts@;
    match store.active_account_id {
        Some(id) => {
            if spec_id_present(acc, id@) {
                crate::catalog::lemma_first_with_id_exists(acc, id@);
                let k = spec_first_with_id(acc, id@);
                assert(spec_slim_entry_for(acc[k], ps[k]));
                assert(ps[k].name@ == payload.active_name->Some_0@);
            }
        },
        None => {},
    }
}

fn name_seen(accounts: &Vec<SlimAccountPayload>, i: usize, name: &String) -> (r: bool)
    requires
        i <= accounts@.len(),
    ensures
        r == exists|j: int| 0 <= j < i && (#[trigger] accounts@[j]).name@ == name@,
{
    let mut j: usize = 0;
    while j < i
        invariant
            j <= i <= accounts@.len(),
            forall|k: int| 0 <= k < j ==> (#[trigger] accounts@[k]).name@ != name@,
        decreases i - j,
    {
        if str_eq(accounts[j].name.as_str(), name.as_str()) {
            return true;
        }
        j += 1;
    }
    false
}

fn credential_seen(accounts: &Vec<SlimAccountPayload>, i: usize, api_key: bool) -> (r: bool)
    requires
        i < accounts@.len(),
    ensures
        api_key ==> r == exists|j: int|
            0 <= j < i && (#[trigger] accounts@[j]).auth_type == SLIM_AUTH_API_KEY && opt_view(
                accounts@[j].api_key,
            ) == opt_view(accounts@[i as int].api_key),
        !api_key ==> r == exists|j: int|
            0 <= j < i && (#[trigger] accounts@[j]).auth_type == SLIM_AUTH_CHATGPT && opt_view(
                accounts@[j].refresh_token,
            ) == opt_view(accounts@[i as int].refresh_token),
{
    let mut j: usize = 0;
    while j < i
        invariant
            j <= i < accounts@.len(),
            api_key ==> forall|k: int|
                0 <= k < j ==> !((#[trigger] accounts@[k]).auth_type == SLIM_AUTH_API_KEY
                    && opt_view(accounts@[k].api_key) == opt_view(accounts@[i as int].api_key)),
            !api_key ==> forall|k: int|
                0 <= k < j ==> !((#[trigger] accounts@[k]).auth_type == SLIM_AUTH_CHATGPT
                    && opt_view(accounts@[k].refresh_token) == opt_view(
                    accounts@[i as int].refresh_token,
                )),
        decreases i - j,
    {
        let same = if api_key {
            accounts[j].auth_type == SLIM_AUTH_API_KEY && opt_str_eq(
                &accounts[j].api_key,
                &accounts[i].api_key,
            )
        } else {
            accounts[j].auth_type == SLIM_AUTH_CHATGPT && opt_str_eq(
                &accounts[j].refresh_token,
                &accounts[i].refresh_token,
            )
        };
        if same {
            return true;
        }
        j += 1;
    }
    false
}

fn present(o: &Option<String>) -> (r: bool)
    ensures
        r == spec_present(*o),
{
    match o {
        Some(v) => !is_blank(v.as_str()),
        None => false,
    }
}

/// Check a slim payload before importing it: its version, each entry in order (see
/// `spec_slim_issue`), then the active name. The first problem found is reported.
pub fn validate_slim_payload(payload: &SlimPayload) -> (r: Result<(), BackupError>)
    ensures
        payload.version != SLIM_FORMAT_VERSION ==> (r matches Err(BackupError::UnsupportedVersion(
            v,
        )) && v == payload.version),
        payload.version == SLIM_FORMAT_VERSION ==> {
            &&& r is Ok <==> spec_slim_entries_ok(payload.accounts@) && spec_slim_active_ok(
                *payload,
            )
            &&& r matches Err(e) ==> {
                ||| exists|i: int|
                    #![trigger payload.accounts@[i]]
                    {
                        &&& 0 <= i < payload.accounts@.len()
                        &&& forall|j: int|
                            0 <= j < i ==> #[trigger] spec_slim_issue(payload.accounts@, j) is None
                        &&& spec_slim_issue(payload.accounts@, i) matches Some(issue)
                            && spec_slim_error(payload.accounts@[i], issue, e)
                    }
                ||| {
                    &&& spec_slim_entries_ok(payload.accounts@)
                    &&& !spec_slim_active_ok(*payload)
                    &&& e matches BackupError::MissingActive(n) && opt_view(payload.active_name)
                        == Some(n@)
                }
            }
        },
{
    if payload.version != SLIM_FORMAT_VERSION {
        return Err(BackupError::UnsupportedVersion(payload.version));
    }
    let accounts = &payload.accounts;
    let mut i: usize = 0;
    while i < accounts.len()
        invariant
            i <= accounts@.len(),
            accounts == &payload.accounts,
            payload.version == SLIM_FORMAT_VERSION,
            forall|j: int| 0 <= j < i ==> #[trigger] spec_slim_issue(accounts@, j) is None,
        decreases accounts@.len() - i,
    {
        let a = &accounts[i];
        let ghost issue = spec_slim_issue(accounts@, i as int);
        if is_blank(a.name.as_str()) {
            return Err(BackupError::EmptyName);
        }
        if name_seen(accounts, i, &a.name) {
            return Err(BackupError::DuplicateName(clone_string(&a.name)));
        }
        if a.auth_type == SLIM_AUTH_API_KEY {
            if !present(&a.api_key) {
                return Err(BackupError::MissingApiKey(clone_string(&a.name)));
            }
            if credential_seen(accounts, i, true) {
                return Err(BackupError::DuplicateApiKey);
            }
        } else if a.auth_type == SLIM_AUTH_CHATGPT {
            if !present(&a.refresh_token) {
                return Err(BackupError::MissingRefreshToken(clone_string(&a.name)));
            }
            if credential_seen(accounts, i, false) {
                return Err(BackupError::DuplicateRefreshToken);
            }
        } else {
            return Err(
                BackupError::UnsupportedAuthType {
                    auth_type: a.auth_type,
                    name: clone_string(&a.name),
                },
            );
        }
        assert(spec_slim_issue(accounts@, i as int) is None);
        i += 1;
    }
    if let Some(active) = &payload.active_name {
        let n = accounts.len();
        let mut j: usize = 0;
        let mut found = false;
        while j < n
            invariant
                j <= n,
                n == accounts@.len(),
                !found ==> forall|k: int| 0 <= k < j ==> (#[trigger] accounts@[k]).name@ != active@,
                found ==> exists|k: int| 0 <= k < n && (#[trigger] accounts@[k]).name@ == active@,
            decreases n - j,
        {
            if !found && str_eq(accounts[j].name.as_str(), active.as_str()) {
                found = true;
            }
            j += 1;
        }
        if !found {
            return Err(BackupError::MissingActive(clone_string(active)));
        }
    }
    Ok(())
}

/// A slim entry carries the same credential as a stored account.
pub open spec fn spec_slim_matches(entry: SlimAccountPayload, existing: StoredAccount) -> bool {
    match existing.auth_data {
        AuthData::ApiKey { key } => entry.auth_type == SLIM_AUTH_API_KEY && opt_is(
            entry.api_key,
            key@,
        ),
        AuthData::ChatGPT { refresh_token, .. } => entry.auth_type == SLIM_AUTH_CHATGPT && opt_is(
            entry.refresh_token,
            refresh_token@,
        ),
    }
}

pub fn slim_entry_matches_existing(entry: &SlimAccountPayload, existing: &StoredAccount) -> (r:
    bool)
    ensures
        r == spec_slim_matches(*entry, *existing),
{
    match &existing.auth_data {
        AuthData::ApiKey { key } => entry.auth_type == SLIM_AUTH_API_KEY && opt_is_str(
            &entry.api_key,
            key.as_str(),
        ),
        AuthData::ChatGPT { refresh_token, .. } => entry.auth_type == SLIM_AUTH_CHATGPT
            && opt_is_str(&entry.refresh_token, refresh_token.as_str()),
    }
}

/// A slim entry whose credential the catalog already holds, and the account holding it.
#[derive(Debug, Clone)]
pub struct ExistingSlimAccount {
    pub source_name: String,
    pub account_id: String,
}

/// Index of the first account at or after `k` holding the entry's credential (or the length).
pub open spec fn spec_first_match_from(
    accounts: Seq<StoredAccount>,
    entry: SlimAccountPayload,
    k: int,
) -> int
    decreases accounts.len() - k,
{
    if k >= accounts.len() {
        accounts.len() as int
    } else if spec_slim_matches(entry, accounts[k]) {
        k
    } else {
        spec_first_match_from(accounts, entry, k + 1)
    }
}

/// The split of slim entries into those the catalog already holds (with the holding account's
/// id) and those to restore, both in payload order.
pub open spec fn spec_slim_partition(entries: Seq<SlimAccountPayload>, accounts: Seq<StoredAccount>) -> (
    Seq<(Seq<char>, Seq<char>)>,
    Seq<SlimAccountPayload>,
)
    decreases entries.len(),
{
    if entries.len() == 0 {
        (Seq::empty(), Seq::empty())
    } else {
        let prev = spec_slim_partition(entries.drop_last(), accounts);
        let e = entries.last();
        let k = spec_first_match_from(accounts, e, 0);
        if k < accounts.len() {
            (prev.0.push((e.name@, accounts[k].id@)), prev.1)
        } else {
            (prev.0, prev.1.push(e))
        }
    }
}

pub open spec fn existing_views(r: Seq<ExistingSlimAccount>) -> Seq<(Seq<char>, Seq<char>)> {
    r.map_values(|e: ExistingSlimAccount| (e.source_name@, e.account_id@))
}

fn first_match(accounts: &Vec<StoredAccount>, entry: &SlimAccountPayload) -> (r: usize)
    ensures
        r as int == spec_first_match_from(accounts@, *entry, 0),
{
    let mut k: usize = 0;
    while k < accounts.len() && !slim_entry_matches_existing(entry, &accounts[k])
        invariant
            k <= accounts@.len(),
            spec_first_match_from(accounts@, *entry, k as int) == spec_first_match_from(
                accounts@,
                *entry,
                0,
            ),
        decreases accounts@.len() - k,
    {
        k += 1;
    }
    k
}

/// Split slim entries into those whose credential the catalog already holds and those to
/// restore. A display name is not a credential identity: only credentials are compared.
pub fn partition_slim_entries(entries: Vec<SlimAccountPayload>, current: &AccountsStore) -> (r: (
    Vec<ExistingSlimAccount>,
    Vec<SlimAccountPayload>,
))
    ensures
        existing_views(r.0@) == spec_slim_partition(entries@, current.accounts@).0,
        r.1@ == spec_slim_partition(entries@, current.accounts@).1,
{
    let mut existing: Vec<ExistingSlimAccount> = Vec::new();
    let mut candidates: Vec<SlimAccountPayload> = Vec::new();
    let mut i: usize = 0;
    assert(entries@.take(0) =~= Seq::<SlimAccountPayload>::empty());
    assert(existing_views(existing@) =~= Seq::<(Seq<char>, Seq<char>)>::empty());
    while i < entries.len()
        invariant
            i <= entries@.len(),
            existing_views(existing@) == spec_slim_partition(
                entries@.take(i as int),
                current.accounts@,
            ).0,
            candidates@ == spec_slim_partition(entries@.take(i as int), current.accounts@).1,
        decreases entries@.len() - i,
    {
        assert(entries@.take(i + 1).drop_last() =~= entries@.take(i as int));
        assert(entries@.take(i + 1).last() == entries@[i as int]);
        let e = &entries[i];
        let k = first_match(&current.accounts, e);
        if k < current.accounts.len() {
            let ghost before = existing_views(existing@);
            existing.push(
                ExistingSlimAccount {
                    source_name: clone_string(&e.name),
                    account_id: clone_string(&current.accounts[k].id),
                },
            );
            assert(existing_views(existing@) =~= before.push(
                (e.name@, current.accounts@[k as int].id@),
            ));
        } else {
            candidates.push(
                SlimAccountPayload {
                    name: clone_string(&e.name),
                    auth_type: e.auth_type,
                    api_key: clone_opt_string(&e.api_key),
                    refresh_token: clone_opt_string(&e.refresh_token),
                },
            );
        }
        i += 1;
    }
    assert(entries@.take(i as int) =~= entries@);
    (existing, candidates)
}

/// The stored account holds the entry's credential: the same API key for an API-key entry, the
/// same refresh token for a ChatGPT entry.
pub open spec fn spec_holds_credential(entry: SlimAccountPayload, account: StoredAccount) -> bool {
    ||| (entry.auth_type == SLIM_AUTH_API_KEY && account.auth_data is ApiKey && entry.api_key
        is Some && entry.api_key->Some_0@ == account.auth_data->ApiKey_key@)
    ||| (entry.auth_type == SLIM_AUTH_CHATGPT && account.auth_data is ChatGPT
        && entry.refresh_token is Some && entry.refresh_token->Some_0@
        == account.auth_data->ChatGPT_refresh_token@)
}

proof fn lemma_first_match_from(accounts: Seq<StoredAccount>, entry: SlimAccountPayload, k: int)
    requires
        0 <= k <= accounts.len(),
        forall|j: int| 0 <= j < k ==> !spec_holds_credential(entry, #[trigger] accounts[j]),
    ensures
        k <= spec_first_match_from(accounts, entry, k) <= accounts.len(),
        spec_first_match_from(accounts, entry, k) < accounts.len() ==> spec_holds_credential(
            entry,
            accounts[spec_first_match_from(accounts, entry, k)],
        ),
        spec_first_match_from(accounts, entry, k) == accounts.len() ==> forall|j: int|
            0 <= j < accounts.len() ==> !spec_holds_credential(entry, #[trigger] accounts[j]),
    decreases accounts.len() - k,
{
    if k < accounts.len() && !spec_slim_matches(entry, accounts[k]) {
        lemma_first_match_from(accounts, entry, k + 1);
    }
}

/// No stored account holds the entry's credential.
pub open spec fn spec_unheld(entry: SlimAccountPayload, accounts: Seq<StoredAccount>) -> bool {
    forall|k: int| 0 <= k < accounts.len() ==> !spec_holds_credential(entry, #[trigger] accounts[k])
}

proof fn lemma_first_match_unheld(accounts: Seq<StoredAccount>, entry: SlimAccountPayload)
    ensures
        0 <= spec_first_match_from(accounts, entry, 0) <= accounts.len(),
        spec_first_match_from(accounts, entry, 0) < accounts.len() ==> spec_holds_credential(
            entry,
            accounts[spec_first_match_from(accounts, entry, 0)],
        ) && !spec_unheld(entry, accounts),
        spec_first_match_from(accounts, entry, 0) == accounts.len() ==> spec_unheld(entry, accounts),
{
    lemma_first_match_from(accounts, entry, 0);
    let k = spec_first_match_from(accounts, entry, 0);
    if k < accounts.len() {
        if spec_unheld(entry, accounts) {
            assert(!spec_holds_credential(entry, accounts[k]));
        }
    }
}

proof fn lemma_partition_sides(entries: Seq<SlimAccountPayload>, accounts: Seq<StoredAccount>)
    ensures
        ({
            let p = spec_slim_partition(entries, accounts);
            &&& p.0.len() + p.1.len() == entries.len()
            &&& forall|i: int|
                0 <= i < p.1.len() ==> entries.contains(#[trigger] p.1[i]) && spec_unheld(
                    p.1[i],
                    accounts,
                )
            &&& forall|i: int|
                0 <= i < entries.len() && spec_unheld(#[trigger] entries[i], accounts)
                    ==> p.1.contains(entries[i])
            &&& forall|j: int|
                #![trigger p.0[j]]
                0 <= j < p.0.len() ==> exists|i: int, k: int|
                    0 <= i < entries.len() && 0 <= k < accounts.len() && spec_holds_credential(
                        #[trigger] entries[i],
                        #[trigger] accounts[k],
                    ) && p.0[j] == (entries[i].name@, accounts[k].id@)
        }),
    decreases entries.len(),
{
    if entries.len() > 0 {
        let init = entries.drop_last();
        lemma_partition_sides(init, accounts);
        let prev = spec_slim_partition(init, accounts);
        let p = spec_slim_partition(entries, accounts);
        let e = entries.last();
        let n = entries.len() - 1;
        lemma_first_match_unheld(accounts, e);
        let k = spec_first_match_from(accounts, e, 0);
        assert(e == entries[n]);
        assert forall|i: int| 0 <= i < init.len() implies init[i] == entries[i] by {}
        if k < accounts.len() {
            assert(p.1 == prev.1);
            assert(p.0 == prev.0.push((e.name@, accounts[k].id@)));
            assert forall|i: int| 0 <= i < p.1.len() implies entries.contains(#[trigger] p.1[i])
                && spec_unheld(p.1[i], accounts) by {
                let w = choose|w: int| 0 <= w < init.len() && init[w] == prev.1[i];
                assert(entries[w] == p.1[i]);
            }
            assert forall|i: int| 0 <= i < entries.len() && spec_unheld(#[trigger] entries[i], accounts)
                implies p.1.contains(entries[i]) by {
                if i == n {
                    assert(!spec_unheld(e, accounts));
                } else {
                    assert(init[i] == entries[i]);
                    assert(prev.1.contains(init[i]));
                }
            }
            assert forall|j: int| #![trigger p.0[j]] 0 <= j < p.0.len() implies exists|i: int, kk: int|
                0 <= i < entries.len() && 0 <= kk < accounts.len() && spec_holds_credential(
                    #[trigger] entries[i],
                    #[trigger] accounts[kk],
                ) && p.0[j] == (entries[i].name@, accounts[kk].id@) by {
                if j == prev.0.len() {
                    assert(spec_holds_credential(entries[n], accounts[k]));
                    assert(p.0[j] == (entries[n].name@, accounts[k].id@));
                } else {
                    assert(p.0[j] == prev.0[j]);
                    let (i, kk) = choose|i: int, kk: int|
                        0 <= i < init.len() && 0 <= kk < accounts.len() && spec_holds_credential(
                            #[trigger] init[i],
                            #[trigger] accounts[kk],
                        ) && prev.0[j] == (init[i].name@, accounts[kk].id@);
                    assert(entries[i] == init[i]);
                }
            }
        } else {
            assert(p.0 == prev.0);
            assert(p.1 == prev.1.push(e));
            assert forall|i: int| 0 <= i < p.1.len() implies entries.contains(#[trigger] p.1[i])
                && spec_unheld(p.1[i], accounts) by {
                if i == prev.1.len() {
                    assert(p.1[i] == entries[n]);
                } else {
                    assert(p.1[i] == prev.1[i]);
                    let w = choose|w: int| 0 <= w < init.len() && init[w] == prev.1[i];
                    assert(entries[w] == p.1[i]);
                }
            }
            assert forall|i: int| 0 <= i < entries.len() && spec_unheld(#[trigger] entries[i], accounts)
                implies p.1.contains(entries[i]) by {
                if i == n {
                    assert(p.1[prev.1.len() as int] == entries[i]);
                } else {
                    assert(init[i] == entries[i]);
                    assert(prev.1.contains(init[i]));
                    let w = choose|w: int| 0 <= w < prev.1.len() && prev.1[w] == init[i];
                    assert(p.1[w] == prev.1[w]);
                }
            }
            assert forall|j: int| #![trigger p.0[j]] 0 <= j < p.0.len() implies exists|i: int, kk: int|
                0 <= i < entries.len() && 0 <= kk < accounts.len() && spec_holds_credential(
                    #[trigger] entries[i],
                    #[trigger] accounts[kk],
                ) && p.0[j] == (entries[i].name@, accounts[kk].id@) by {
                let (i, kk) = choose|i: int, kk: int|
                    0 <= i < init.len() && 0 <= kk < accounts.len() && spec_holds_credential(
                        #[trigger] init[i],
                        #[trigger] accounts[kk],
                    ) && prev.0[j] == (init[i].name@, accounts[kk].id@);
                assert(entries[i] == init[i]);
            }
        }
    }
}

/// Restoring slim entries skips exactly those whose credential the catalog already holds: every
/// entry goes to one side; an entry goes to those to restore exactly when no stored account holds
/// its credential (the same API key, or the same refresh token); and an entry counted as held is
/// reported with the id of an account holding its credential.
pub proof fn law_slim_restore_skips_only_held_credentials(
    entries: Seq<SlimAccountPayload>,
    accounts: Seq<StoredAccount>,
)
    ensures
        ({
            let p = spec_slim_partition(entries, accounts);
            &&& p.0.len() + p.1.len() == entries.len()
            &&& forall|i: int|
                0 <= i < p.1.len() ==> entries.contains(#[trigger] p.1[i]) && spec_unheld(
                    p.1[i],
                    accounts,
                )
            &&& forall|i: int|
                0 <= i < entries.len() && spec_unheld(#[trigger] entries[i], accounts)
                    ==> p.1.contains(entries[i])
            &&& forall|j: int|
                #![trigger p.0[j]]
                0 <= j < p.0.len() ==> exists|i: int, k: int|
                    0 <= i < entries.len() && 0 <= k < accounts.len() && spec_holds_credential(
                        #[trigger] entries[i],
                        #[trigger] accounts[k],
                    ) && p.0[j] == (entries[i].name@, accounts[k].id@)
        }),
{
    lemma_partition_sides(entries, accounts);
}

/// How one slim entry to restore is turned back into an account.
#[derive(Debug)]
pub enum SlimRestoreStep {
    /// An API-key account, ready to save.
    ApiKey(StoredAccount),
    /// A ChatGPT account, to be created by redeeming its refresh token.
    RefreshChatGpt { name: String, refresh_token: String },
}

/// Turn a slim entry to restore into an account, or into the refresh-token redemption that
/// creates it.
pub fn slim_restore_step(entry: SlimAccountPayload) -> (r: Result<SlimRestoreStep, BackupError>)
    ensures
        entry.auth_type == SLIM_AUTH_API_KEY ==> match entry.api_key {
            Some(key) => r matches Ok(SlimRestoreStep::ApiKey(a)) && a.name == entry.name
                && a.auth_data == (AuthData::ApiKey { key }) && a.auth_mode
                == crate::types::AuthMode::ApiKey,
            None => r matches Err(BackupError::ApiKeyPayloadMissing),
        },
        entry.auth_type == SLIM_AUTH_CHATGPT ==> match entry.refresh_token {
            Some(t) => r matches Ok(SlimRestoreStep::RefreshChatGpt { name, refresh_token })
                && name == entry.name && refresh_token == t,
            None => r matches Err(BackupError::RefreshTokenPayloadMissing),
        },
        entry.auth_type != SLIM_AUTH_API_KEY && entry.auth_type != SLIM_AUTH_CHATGPT ==> (
        r matches Err(BackupError::UnsupportedPayloadAuthType)),
{
    if entry.auth_type == SLIM_AUTH_API_KEY {
        match entry.api_key {
            Some(key) => Ok(SlimRestoreStep::ApiKey(StoredAccount::new_api_key(entry.name, key))),
            None => Err(BackupError::ApiKeyPayloadMissing),
        }
    } else if entry.auth_type == SLIM_AUTH_CHATGPT {
        match entry.refresh_token {
            Some(t) => Ok(SlimRestoreStep::RefreshChatGpt { name: entry.name, refresh_token: t }),
            None => Err(BackupError::RefreshTokenPayloadMissing),
        }
    } else {
        Err(BackupError::UnsupportedPayloadAuthType)
    }
}

/// A restored slim entry and the catalog account it became.
#[derive(Debug, Clone)]
pub struct SlimRestoredEntry {
    pub source_name: String,
    pub account_id: String,
}

pub open spec fn restored_views(r: Seq<SlimRestoredEntry>) -> Seq<(Seq<char>, Seq<char>)> {
    r.map_values(|e: SlimRestoredEntry| (e.source_name@, e.account_id@))
}

/// The result of a slim import: how many accounts changed, and which one to activate.
#[derive(Debug, Clone)]
pub struct SlimImportResult {
    pub changed_count: usize,
    pub activation_target_id: Option<String>,
}

/// Index of the first entry (pairs of source name and account id) with the source name.
pub open spec fn spec_first_source(s: Seq<(Seq<char>, Seq<char>)>, name: Seq<char>, k: int) -> int
    decreases s.len() - k,
{
    if k >= s.len() {
        s.len() as int
    } else if s[k].0 == name {
        k
    } else {
        spec_first_source(s, name, k + 1)
    }
}

/// Index of the last entry with the source name among the first `n`, or -1.
pub open spec fn spec_last_source(s: Seq<(Seq<char>, Seq<char>)>, name: Seq<char>, n: int) -> int
    decreases n,
{
    if n <= 0 {
        -1
    } else if s[n - 1].0 == name {
        n - 1
    } else {
        spec_last_source(s, name, n - 1)
    }
}

/// The account to activate after a slim import. With an active name: the account restored from
/// the entry of that name (the last such), else the existing account matched by that entry.
/// Without one: the first restored account, else the first matched existing account.
pub open spec fn spec_slim_activation_target(
    active_name: Option<Seq<char>>,
    existing: Seq<(Seq<char>, Seq<char>)>,
    restored: Seq<(Seq<char>, Seq<char>)>,
) -> Option<Seq<char>> {
    match active_name {
        None => if restored.len() > 0 {
            Some(restored[0].1)
        } else if existing.len() > 0 {
            Some(existing[0].1)
        } else {
            None
        },
        Some(n) => {
            let k = spec_last_source(restored, n, restored.len() as int);
            if k >= 0 {
                Some(restored[k].1)
            } else {
                let e = spec_first_source(existing, n, 0);
                if e < existing.len() {
                    Some(existing[e].1)
                } else {
                    None
                }
            }
        },
    }
}

pub proof fn lemma_last_source(s: Seq<(Seq<char>, Seq<char>)>, name: Seq<char>, n: int)
    requires
        0 <= n <= s.len(),
    ensures
        -1 <= spec_last_source(s, name, n) < n,
        spec_last_source(s, name, n) >= 0 ==> s[spec_last_source(s, name, n)].0 == name,
    decreases n,
{
    if n > 0 && s[n - 1].0 != name {
        lemma_last_source(s, name, n - 1);
    }
}

/// Choose the account to activate after a slim import (see `spec_slim_activation_target`).
pub fn slim_activation_target(
    active_name: &Option<String>,
    existing: &Vec<ExistingSlimAccount>,
    restored: &Vec<SlimRestoredEntry>,
) -> (r: Option<String>)
    ensures
        opt_view(r) == spec_slim_activation_target(
            opt_view(*active_name),
            existing_views(existing@),
            restored_views(restored@),
        ),
{
    let ghost ev = existing_views(existing@);
    let ghost rv = restored_views(restored@);
    match active_name {
        None => {
            if restored.len() > 0 {
                assert(rv[0].1 == restored@[0].account_id@);
                Some(clone_string(&restored[0].account_id))
            } else if existing.len() > 0 {
                assert(ev[0].1 == existing@[0].account_id@);
                Some(clone_string(&existing[0].account_id))
            } else {
                None
            }
        },
        Some(name) => {
            let mut k: usize = restored.len();
            while k > 0 && !str_eq(restored[k - 1].source_name.as_str(), name.as_str())
                invariant
                    k <= restored@.len(),
                    rv == restored_views(restored@),
                    spec_last_source(rv, name@, k as int) == spec_last_source(
                        rv,
                        name@,
                        rv.len() as int,
                    ),
                decreases k,
            {
                assert(rv[k - 1].0 == restored@[k - 1].source_name@);
                k -= 1;
            }
            if k > 0 {
                assert(rv[k - 1].0 == restored@[k - 1].source_name@);
                assert(rv[k - 1].1 == restored@[k - 1].account_id@);
                return Some(clone_string(&restored[k - 1].account_id));
            }
            let mut e: usize = 0;
            while e < existing.len() && !str_eq(existing[e].source_name.as_str(), name.as_str())
                invariant
                    e <= existing@.len(),
                    ev == existing_views(existing@),
                    spec_first_source(ev, name@, e as int) == spec_first_source(ev, name@, 0),
                decreases existing@.len() - e,
            {
                assert(ev[e as int].0 == existing@[e as int].source_name@);
                e += 1;
            }
            if e < existing.len() {
                assert(ev[e as int].0 == existing@[e as int].source_name@);
                assert(ev[e as int].1 == existing@[e as int].account_id@);
                Some(clone_string(&existing[e].account_id))
            } else {
                None
            }
        },
    }
}

/// The summary of a slim import: entries in the payload, accounts changed, and the rest skipped.
pub fn slim_import_summary(total_in_payload: usize, changed_count: usize) -> (r: ImportAccountsSummary)
    ensures
        r.total_in_payload == total_in_payload,
        r.imported_count == changed_count,
        r.skipped_count == if changed_count <= total_in_payload {
            total_in_payload - changed_count
        } else {
            0
        },
{
    ImportAccountsSummary {
        total_in_payload,
        imported_count: changed_count,
        skipped_count: total_in_payload.saturating_sub(changed_count),
    }
}

/// After a slim import: the account to activate, when the catalog has no active account and the
/// chosen target is still in it.
pub fn slim_activation_after_import(latest: &AccountsStore, target: &Option<String>) -> (r: Option<
    String,
>)
    ensures
        opt_view(r) == (if latest.active_account_id is None && (target matches Some(t)
            && spec_id_present(latest.accounts@, t@)) {
            opt_view(*target)
        } else {
            None
        }),
{
    if latest.active_account_id.is_some() {
        return None;
    }
    match target {
        Some(t) => match find_account_index(&latest.accounts, t.as_str()) {
            Some(_) => Some(clone_string(t)),
            None => None,
        },
        None => None,
    }
}


/// Largest decompressed payload accepted on import, in bytes.
pub const MAX_IMPORT_JSON_BYTES: u64 = 2 * 1024 * 1024;

/// Largest encrypted backup file accepted on import, in bytes.
pub const MAX_IMPORT_FILE_BYTES: u64 = 8 * 1024 * 1024;

/// Name for the zlib stream that flate2's `ZlibEncoder` at `Compression::best()` writes for
/// some bytes, or `None` when the encoder reports an error.
pub uninterp spec fn spec_zlib_compress(data: Seq<u8>) -> Option<Seq<u8>>;

/// Name for what reading a flate2 `ZlibDecoder` over `stream`, limited with `take(max_read)`,
/// gives to `read_to_end`: the bytes read, or `None` when reading fails.
pub uninterp spec fn spec_zlib_inflate(stream: Seq<u8>, max_read: u64) -> Option<Seq<u8>>;

/// flate2's `ZlibEncoder` (best compression) over a `Vec`: `write_all`, then `finish`. The
/// stream is named; the stated fact is zlib's lossless round trip: decoding the stream gives the
/// input back whenever reading may go past its end.
#[verifier::external_body]
fn zlib_compress(data: &[u8]) -> (r: Option<Vec<u8>>)
    ensures
        opt_bytes(r) == spec_zlib_compress(data@),
        r matches Some(c) ==> forall|max_read: u64|
            data@.len() < max_read ==> #[trigger] spec_zlib_inflate(c@, max_read) == Some(data@),
{
    let mut encoder = ZlibEncoder::new(Vec::new(), flate2::Compression::best());
    encoder.write_all(data).ok()?;
    encoder.finish().ok()
}

/// flate2's `ZlibDecoder` over `stream`, `take(max_read)`, `read_to_end`. The result is named;
/// `take` bounds its length.
#[verifier::external_body]
fn zlib_inflate(stream: &[u8], max_read: u64) -> (r: Option<Vec<u8>>)
    ensures
        opt_bytes(r) == spec_zlib_inflate(stream@, max_read),
        r matches Some(v) ==> v@.len() <= max_read,
{
    let mut decoder = ZlibDecoder::new(stream);
    let mut limited = (&mut decoder).take(max_read);
    let mut out = Vec::new();
    limited.read_to_end(&mut out).ok()?;
    Some(out)
}

/// The text with all white space removed.
pub open spec fn spec_remove_ws(s: Seq<char>) -> Seq<char>
    decreases s.len(),
{
    if s.len() == 0 {
        Seq::empty()
    } else {
        let p = spec_remove_ws(s.drop_last());
        if spec_is_ws(s.last()) {
            p
        } else {
            p.push(s.last())
        }
    }
}

proof fn lemma_remove_ws_none(s: Seq<char>)
    requires
        forall|i: int| 0 <= i < s.len() ==> !spec_is_ws(#[trigger] s[i]),
    ensures
        spec_remove_ws(s) == s,
    decreases s.len(),
{
    if s.len() > 0 {
        lemma_remove_ws_none(s.drop_last());
        assert(spec_remove_ws(s.drop_last()).push(s.last()) =~= s);
    }
}

/// The base64 text of a slim import: white space removed, then the `css1.` prefix if present.
pub open spec fn spec_slim_encoded(payload: Seq<char>) -> Seq<char> {
    let n = spec_remove_ws(payload);
    if spec_starts_with(n, SLIM_EXPORT_PREFIX@) {
        n.skip(SLIM_EXPORT_PREFIX@.len() as int)
    } else {
        n
    }
}

/// What a slim import string decodes to: the JSON bytes, or the first step that fails.
pub open spec fn spec_decode_slim_payload(payload: Seq<char>) -> Result<Seq<u8>, BackupError> {
    if spec_remove_ws(payload).len() == 0 {
        Err(BackupError::EmptyImport)
    } else {
        match spec_base64_url_decode(spec_slim_encoded(payload)) {
            None => Err(BackupError::InvalidBase64),
            Some(compressed) => match spec_zlib_inflate(compressed, (MAX_IMPORT_JSON_BYTES + 1) as u64) {
                None => Err(BackupError::DecompressFailed),
                Some(json) => if json.len() > MAX_IMPORT_JSON_BYTES {
                    Err(BackupError::DataTooLarge)
                } else {
                    Ok(json)
                },
            },
        }
    }
}

/// The slim export text of a JSON payload, when compression succeeds: `css1.` and the
/// URL-safe base64 of its zlib stream.
pub open spec fn spec_slim_export_text(json: Seq<u8>) -> Seq<char> {
    SLIM_EXPORT_PREFIX@ + spec_base64_url_encode(spec_zlib_compress(json)->Some_0)
}

/// Frame the JSON of a slim payload as an export string. What it returns decodes to the same
/// JSON again whenever that fits the import limit.
pub fn encode_slim_export(json: &[u8]) -> (r: Result<String, BackupError>)
    ensures
        r is Ok <==> spec_zlib_compress(json@) is Some,
        r matches Ok(text) ==> text@ == spec_slim_export_text(json@),
        r matches Ok(text) ==> (json@.len() <= MAX_IMPORT_JSON_BYTES ==> spec_decode_slim_payload(
            text@,
        ) == Ok::<Seq<u8>, BackupError>(json@)),
        r matches Err(e) ==> e is CompressFailed,
{
    let compressed = match zlib_compress(json) {
        Some(c) => c,
        None => {
            return Err(BackupError::CompressFailed);
        },
    };
    let encoded = base64_url_encode(compressed.as_slice());
    let prefix = chars_of(SLIM_EXPORT_PREFIX);
    let body = chars_of(encoded.as_str());
    let all = concat_chars(prefix.as_slice(), body.as_slice());
    let text = string_from_chars(all.as_slice());
    proof {
        reveal_strlit("css1.");
        let t = text@;
        assert forall|i: int| 0 <= i < t.len() implies !spec_is_ws(#[trigger] t[i]) by {
            if i >= 5 {
                assert(t[i] == encoded@[i - 5]);
                assert(spec_is_url_safe_b64(encoded@[i - 5]));
            }
        }
        lemma_remove_ws_none(t);
        assert(t.subrange(0, 5) =~= SLIM_EXPORT_PREFIX@);
        assert(t.skip(5) =~= encoded@);
        if json@.len() <= MAX_IMPORT_JSON_BYTES {
            assert(json@.len() < (MAX_IMPORT_JSON_BYTES + 1) as u64);
            assert(spec_zlib_inflate(compressed@, (MAX_IMPORT_JSON_BYTES + 1) as u64) == Some(
                json@,
            ));
        }
    }
    Ok(text)
}

/// Read a slim import string back into the JSON bytes of its payload.
pub fn decode_slim_payload(payload: &str) -> (r: Result<Vec<u8>, BackupError>)
    ensures
        match r {
            Ok(json) => spec_decode_slim_payload(payload@) == Ok::<Seq<u8>, BackupError>(json@),
            Err(e) => spec_decode_slim_payload(payload@) == Err::<Seq<u8>, BackupError>(e),
        },
{
    let raw = chars_of(payload);
    let mut normalized: Vec<char> = Vec::new();
    let mut i: usize = 0;
    assert(raw@.take(0) =~= Seq::<char>::empty());
    while i < raw.len()
        invariant
            i <= raw@.len(),
            raw@ == payload@,
            normalized@ == spec_remove_ws(raw@.take(i as int)),
        decreases raw@.len() - i,
    {
        assert(raw@.take(i + 1).drop_last() =~= raw@.take(i as int));
        if !is_whitespace(raw[i]) {
            normalized.push(raw[i]);
        }
        i += 1;
    }
    assert(raw@.take(i as int) =~= raw@);
    if normalized.len() == 0 {
        return Err(BackupError::EmptyImport);
    }
    let prefix = chars_of(SLIM_EXPORT_PREFIX);
    let encoded = if starts_with(normalized.as_slice(), prefix.as_slice()) {
        let e = sub_chars(normalized.as_slice(), prefix.len(), normalized.len());
        assert(e@ =~= normalized@.skip(prefix@.len() as int));
        e
    } else {
        normalized
    };
    let encoded_text = string_from_chars(encoded.as_slice());
    let compressed = match base64_url_decode(encoded_text.as_str()) {
        Some(c) => c,
        None => {
            return Err(BackupError::InvalidBase64);
        },
    };
    let json = match zlib_inflate(compressed.as_slice(), MAX_IMPORT_JSON_BYTES + 1) {
        Some(j) => j,
        None => {
            return Err(BackupError::DecompressFailed);
        },
    };
    if json.len() as u64 > MAX_IMPORT_JSON_BYTES {
        return Err(BackupError::DataTooLarge);
    }
    Ok(json)
}

/// Version of a full backup readable only with the preset passphrase.
pub const FULL_FILE_VERSION_LEGACY: u8 = 1;

/// Version of a full backup bound to this machine's backup key.
pub const FULL_FILE_VERSION_MACHINE_BOUND: u8 = 2;

/// Salt length of a full backup, in bytes.
pub const FULL_SALT_LEN: usize = 16;

/// Nonce length of a full backup, in bytes.
pub const FULL_NONCE_LEN: usize = 24;

/// Length of a full backup's header: magic, version, salt and nonce.
pub const FULL_HEADER_LEN: usize = 4 + 1 + 16 + 24;

/// PBKDF2 rounds of the legacy key derivation.
pub const FULL_KDF_ITERATIONS: u32 = 210000;

/// The passphrase legacy full backups were encrypted with.
pub const LEGACY_FULL_PRESET_PASSPHRASE: &'static str =
    "gT7kQ9mV2xN4pL8sR1dH6zW3cB5yF0uJ_aE7nK2tP9vM4rX1";

/// The domain-separation text of the machine-bound key derivation.
pub const FULL_KEY_CONTEXT: &'static str = "codex-switcher-full-backup-v2";

/// The first four bytes of a full backup: `CSWF`.
pub open spec fn spec_full_magic() -> Seq<u8> {
    seq![67u8, 83u8, 87u8, 70u8]
}

fn full_magic() -> (r: Vec<u8>)
    ensures
        r@ == spec_full_magic(),
{
    let mut v: Vec<u8> = Vec::new();
    v.push(67u8);
    v.push(83u8);
    v.push(87u8);
    v.push(70u8);
    assert(v@ =~= spec_full_magic());
    v
}

/// Name for XChaCha20-Poly1305 encryption (no associated data) by the `chacha20poly1305` crate:
/// the ciphertext with its tag, or `None` when the crate refuses the message.
pub uninterp spec fn spec_xchacha_seal(key: Seq<u8>, nonce: Seq<u8>, plaintext: Seq<u8>) -> Option<
    Seq<u8>,
>;

/// Name for XChaCha20-Poly1305 decryption by the `chacha20poly1305` crate: the plaintext, or
/// `None` when the tag does not authenticate the ciphertext.
pub uninterp spec fn spec_xchacha_open(key: Seq<u8>, nonce: Seq<u8>, ciphertext: Seq<u8>) -> Option<
    Seq<u8>,
>;

/// `XChaCha20Poly1305::new(key).encrypt(nonce, plaintext)`. The result is named. Stated facts:
/// the output is the encrypted message followed by the 16-byte tag (the `aead` crate's postfix
/// tag, `TagSize = U16`), and decrypting it with the same key and nonce gives the message back.
#[verifier::external_body]
fn xchacha_seal(key: &[u8], nonce: &[u8], plaintext: &[u8]) -> (r: Option<Vec<u8>>)
    requires
        key@.len() == 32,
        nonce@.len() == 24,
    ensures
        opt_bytes(r) == spec_xchacha_seal(key@, nonce@, plaintext@),
        r matches Some(c) ==> c@.len() == plaintext@.len() + 16,
        r matches Some(c) ==> spec_xchacha_open(key@, nonce@, c@) == Some(plaintext@),
{
    let cipher = chacha20poly1305::XChaCha20Poly1305::new(chacha20poly1305::Key::from_slice(key));
    cipher.encrypt(chacha20poly1305::XNonce::from_slice(nonce), plaintext).ok()
}

/// `XChaCha20Poly1305::new(key).decrypt(nonce, ciphertext)`. The result is named.
#[verifier::external_body]
fn xchacha_open(key: &[u8], nonce: &[u8], ciphertext: &[u8]) -> (r: Option<Vec<u8>>)
    requires
        key@.len() == 32,
        nonce@.len() == 24,
    ensures
        opt_bytes(r) == spec_xchacha_open(key@, nonce@, ciphertext@),
{
    let cipher = chacha20poly1305::XChaCha20Poly1305::new(chacha20poly1305::Key::from_slice(key));
    cipher.decrypt(chacha20poly1305::XNonce::from_slice(nonce), ciphertext).ok()
}

/// Name for the 32-byte key `pbkdf2::pbkdf2_hmac::<sha2::Sha256>` derives.
pub uninterp spec fn spec_pbkdf2_sha256(password: Seq<u8>, salt: Seq<u8>, rounds: u32) -> Seq<u8>;

/// `pbkdf2::pbkdf2_hmac::<sha2::Sha256>` into a 32-byte buffer. The key is named; its length
/// is the buffer's.
#[verifier::external_body]
fn pbkdf2_sha256(password: &[u8], salt: &[u8], rounds: u32) -> (r: Vec<u8>)
    ensures
        r@ == spec_pbkdf2_sha256(password@, salt@, rounds),
        r@.len() == 32,
{
    let mut key = [0u8; 32];
    pbkdf2::pbkdf2_hmac::<sha2::Sha256>(password, salt, rounds, &mut key);
    key.to_vec()
}

/// `rand::rng().fill_bytes` on `n` bytes: random bytes, of which only the count is known.
#[verifier::external_body]
pub(crate) fn random_bytes(n: usize) -> (r: Vec<u8>)
    ensures
        r@.len() == n,
{
    let mut v = vec![0u8; n];
    rand::rng().fill_bytes(&mut v);
    v
}

/// The machine-bound encryption key: SHA-256 of the context text, the machine key and the salt.
pub open spec fn spec_machine_bound_key(machine_key: Seq<u8>, salt: Seq<u8>) -> Seq<u8> {
    spec_sha256(vstd::utf8::encode_utf8(FULL_KEY_CONTEXT@) + machine_key + salt)
}

fn append_bytes(out: &mut Vec<u8>, data: &[u8])
    ensures
        final(out)@ == old(out)@ + data@,
{
    let mut i: usize = 0;
    let ghost start = out@;
    while i < data.len()
        invariant
            i <= data@.len(),
            out@ == start + data@.subrange(0, i as int),
        decreases data@.len() - i,
    {
        out.push(data[i]);
        i += 1;
        assert(out@ =~= start + data@.subrange(0, i as int));
    }
    assert(data@.subrange(0, data@.len() as int) =~= data@);
}

pub fn derive_machine_bound_key(machine_key: &[u8], salt: &[u8]) -> (r: Vec<u8>)
    ensures
        r@ == spec_machine_bound_key(machine_key@, salt@),
        r@.len() == 32,
{
    let mut data: Vec<u8> = Vec::new();
    append_bytes(&mut data, FULL_KEY_CONTEXT.as_bytes());
    append_bytes(&mut data, machine_key);
    append_bytes(&mut data, salt);
    sha256(data.as_slice())
}

/// The legacy encryption key: PBKDF2-HMAC-SHA256 of the passphrase with the salt.
pub open spec fn spec_legacy_key(passphrase: Seq<char>, salt: Seq<u8>) -> Seq<u8> {
    spec_pbkdf2_sha256(vstd::utf8::encode_utf8(passphrase), salt, FULL_KDF_ITERATIONS)
}

pub fn derive_legacy_encryption_key(passphrase: &str, salt: &[u8]) -> (r: Vec<u8>)
    ensures
        r@ == spec_legacy_key(passphrase@, salt@),
        r@.len() == 32,
{
    pbkdf2_sha256(passphrase.as_bytes(), salt, FULL_KDF_ITERATIONS)
}

/// Which key opens a full backup.
#[derive(Debug, Clone)]
pub enum FullBackupKey {
    /// The preset passphrase of legacy backups.
    Legacy,
    /// This machine's backup key.
    MachineBound(Vec<u8>),
}

/// A key as plain values: `None` for the legacy passphrase, else the machine key's bytes.
pub open spec fn key_view(key: FullBackupKey) -> Option<Seq<u8>> {
    match key {
        FullBackupKey::Legacy => None,
        FullBackupKey::MachineBound(k) => Some(k@),
    }
}

pub open spec fn spec_full_key(key: Option<Seq<u8>>, salt: Seq<u8>) -> Seq<u8> {
    match key {
        None => spec_legacy_key(LEGACY_FULL_PRESET_PASSPHRASE@, salt),
        Some(k) => spec_machine_bound_key(k, salt),
    }
}

/// The version byte of a full backup: too large, too short, or a wrong magic is refused.
pub open spec fn spec_full_version(bytes: Seq<u8>) -> Result<u8, BackupError> {
    if bytes.len() > MAX_IMPORT_FILE_BYTES {
        Err(BackupError::FileTooLarge)
    } else if bytes.len() <= FULL_HEADER_LEN {
        Err(BackupError::Truncated)
    } else if bytes.take(4) != spec_full_magic() {
        Err(BackupError::BadHeader)
    } else {
        Ok(bytes[4])
    }
}

pub fn read_full_encrypted_store_version(file_bytes: &[u8]) -> (r: Result<u8, BackupError>)
    ensures
        match r {
            Ok(v) => spec_full_version(file_bytes@) == Ok::<u8, BackupError>(v),
            Err(e) => spec_full_version(file_bytes@) == Err::<u8, BackupError>(e),
        },
{
    if file_bytes.len() as u64 > MAX_IMPORT_FILE_BYTES {
        return Err(BackupError::FileTooLarge);
    }
    if file_bytes.len() <= FULL_HEADER_LEN {
        return Err(BackupError::Truncated);
    }
    let magic = full_magic();
    let same = file_bytes[0] == magic[0] && file_bytes[1] == magic[1] && file_bytes[2]
        == magic[2] && file_bytes[3] == magic[3];
    if !same {
        assert(file_bytes@.take(4) != spec_full_magic()) by {
            if file_bytes@.take(4) == spec_full_magic() {
                assert(file_bytes@.take(4)[0] == file_bytes@[0]);
                assert(file_bytes@.take(4)[1] == file_bytes@[1]);
                assert(file_bytes@.take(4)[2] == file_bytes@[2]);
                assert(file_bytes@.take(4)[3] == file_bytes@[3]);
            }
        }
        return Err(BackupError::BadHeader);
    }
    assert(file_bytes@.take(4) =~= spec_full_magic());
    Ok(file_bytes[4])
}

/// The error reported when a key does not open a backup.
pub open spec fn spec_decrypt_error(key: Option<Seq<u8>>) -> BackupError {
    match key {
        None => BackupError::DecryptLegacyFailed,
        Some(_) => BackupError::DecryptFailed,
    }
}

/// What a full backup opens to with a key: the JSON of the catalog, or the first step that fails.
pub open spec fn spec_open_full_backup(bytes: Seq<u8>, key: Option<Seq<u8>>) -> Result<
    Seq<u8>,
    BackupError,
> {
    match spec_full_version(bytes) {
        Err(e) => Err(e),
        Ok(v) => if v != FULL_FILE_VERSION_LEGACY && v != FULL_FILE_VERSION_MACHINE_BOUND {
            Err(BackupError::UnsupportedFileVersion(v))
        } else {
            let salt = bytes.subrange(5, 21);
            let nonce = bytes.subrange(21, 45);
            let ciphertext = bytes.skip(45);
            match spec_xchacha_open(spec_full_key(key, salt), nonce, ciphertext) {
                None => Err(spec_decrypt_error(key)),
                Some(compressed) => match spec_zlib_inflate(
                    compressed,
                    (MAX_IMPORT_JSON_BYTES + 1) as u64,
                ) {
                    None => Err(BackupError::PayloadDecompressFailed),
                    Some(json) => if json.len() > MAX_IMPORT_JSON_BYTES {
                        Err(BackupError::PayloadDecompressFailed)
                    } else {
                        Ok(json)
                    },
                },
            }
        },
    }
}

/// Open a full backup with a key, giving the JSON of the catalog it holds.
pub fn decode_full_encrypted_store_with_derived_key(file_bytes: &[u8], key: &FullBackupKey) -> (r:
    Result<Vec<u8>, BackupError>)
    ensures
        match r {
            Ok(json) => spec_open_full_backup(file_bytes@, key_view(*key)) == Ok::<
                Seq<u8>,
                BackupError,
            >(json@),
            Err(e) => spec_open_full_backup(file_bytes@, key_view(*key)) == Err::<
                Seq<u8>,
                BackupError,
            >(e),
        },
{
    let version = match read_full_encrypted_store_version(file_bytes) {
        Ok(v) => v,
        Err(e) => {
            return Err(e);
        },
    };
    let salt = &file_bytes[5..21];
    let nonce = &file_bytes[21..45];
    let ciphertext = &file_bytes[45..file_bytes.len()];
    assert(salt@ =~= file_bytes@.subrange(5, 21));
    assert(nonce@ =~= file_bytes@.subrange(21, 45));
    assert(ciphertext@ =~= file_bytes@.skip(45));
    if version != FULL_FILE_VERSION_LEGACY && version != FULL_FILE_VERSION_MACHINE_BOUND {
        return Err(BackupError::UnsupportedFileVersion(version));
    }
    let derived = match key {
        FullBackupKey::Legacy => derive_legacy_encryption_key(LEGACY_FULL_PRESET_PASSPHRASE, salt),
        FullBackupKey::MachineBound(k) => derive_machine_bound_key(k.as_slice(), salt),
    };
    let compressed = match xchacha_open(derived.as_slice(), nonce, ciphertext) {
        Some(c) => c,
        None => {
            return match key {
                FullBackupKey::Legacy => Err(BackupError::DecryptLegacyFailed),
                FullBackupKey::MachineBound(_) => Err(BackupError::DecryptFailed),
            };
        },
    };
    let json = match zlib_inflate(compressed.as_slice(), MAX_IMPORT_JSON_BYTES + 1) {
        Some(j) => j,
        None => {
            return Err(BackupError::PayloadDecompressFailed);
        },
    };
    if json.len() as u64 > MAX_IMPORT_JSON_BYTES {
        return Err(BackupError::PayloadDecompressFailed);
    }
    Ok(json)
}

/// Open a full backup: legacy files with the preset passphrase, machine-bound files with this
/// machine's key (refused when there is none).
pub fn decode_full_encrypted_store(file_bytes: &[u8], machine_key: Option<&[u8]>) -> (r: Result<
    Vec<u8>,
    BackupError,
>)
    ensures
        spec_full_version(file_bytes@) matches Err(e) ==> r == Err::<Vec<u8>, BackupError>(e),
        spec_full_version(file_bytes@) matches Ok(v) ==> {
            if v == FULL_FILE_VERSION_LEGACY {
                match r {
                    Ok(json) => spec_open_full_backup(file_bytes@, None) == Ok::<
                        Seq<u8>,
                        BackupError,
                    >(json@),
                    Err(e) => spec_open_full_backup(file_bytes@, None) == Err::<
                        Seq<u8>,
                        BackupError,
                    >(e),
                }
            } else if v == FULL_FILE_VERSION_MACHINE_BOUND {
                match machine_key {
                    None => r matches Err(BackupError::MachineKeyMissing),
                    Some(k) => match r {
                        Ok(json) => spec_open_full_backup(file_bytes@, Some(k@)) == Ok::<
                            Seq<u8>,
                            BackupError,
                        >(json@),
                        Err(e) => spec_open_full_backup(file_bytes@, Some(k@)) == Err::<
                            Seq<u8>,
                            BackupError,
                        >(e),
                    },
                }
            } else {
                r matches Err(BackupError::UnsupportedFileVersion(u)) && u == v
            }
        },
{
    let version = match read_full_encrypted_store_version(file_bytes) {
        Ok(v) => v,
        Err(e) => {
            return Err(e);
        },
    };
    if version == FULL_FILE_VERSION_LEGACY {
        decode_full_encrypted_store_with_derived_key(file_bytes, &FullBackupKey::Legacy)
    } else if version == FULL_FILE_VERSION_MACHINE_BOUND {
        match machine_key {
            None => Err(BackupError::MachineKeyMissing),
            Some(k) => {
                let mut copy: Vec<u8> = Vec::new();
                append_bytes(&mut copy, k);
                let key = FullBackupKey::MachineBound(copy);
                decode_full_encrypted_store_with_derived_key(file_bytes, &key)
            },
        }
    } else {
        Err(BackupError::UnsupportedFileVersion(version))
    }
}

/// A machine-bound full backup of some JSON with a given salt and nonce: the magic, the version,
/// the salt, the nonce and the sealed zlib stream.
pub open spec fn spec_full_backup_bytes(
    json: Seq<u8>,
    machine_key: Seq<u8>,
    salt: Seq<u8>,
    nonce: Seq<u8>,
    ciphertext: Seq<u8>,
) -> bool {
    &&& spec_zlib_compress(json) matches Some(c)
    &&& spec_xchacha_seal(spec_machine_bound_key(machine_key, salt), nonce, c) == Some(ciphertext)
}

/// Seal the JSON of a catalog into a machine-bound full backup with the given salt and nonce.
/// What it returns opens with the same machine key to the same JSON, whenever both fit the
/// import limits.
pub fn seal_full_backup(json: &[u8], machine_key: &[u8], salt: &[u8], nonce: &[u8]) -> (r: Result<
    Vec<u8>,
    BackupError,
>)
    requires
        salt@.len() == FULL_SALT_LEN,
        nonce@.len() == FULL_NONCE_LEN,
    ensures
        r matches Ok(out) ==> {
            &&& out@.len() > FULL_HEADER_LEN
            &&& out@.subrange(0, 4) == spec_full_magic()
            &&& out@[4] == FULL_FILE_VERSION_MACHINE_BOUND
            &&& out@.subrange(5, 21) == salt@
            &&& out@.subrange(21, 45) == nonce@
            &&& spec_full_backup_bytes(json@, machine_key@, salt@, nonce@, out@.skip(45))
        },
        r matches Ok(out) ==> (json@.len() <= MAX_IMPORT_JSON_BYTES && out@.len()
            <= MAX_IMPORT_FILE_BYTES ==> spec_open_full_backup(out@, Some(machine_key@)) == Ok::<Seq<u8>, BackupError>(json@)),
        r matches Err(e) ==> (e is CompressFailed || e is EncryptFailed),
        r matches Err(e) ==> (e is CompressFailed <==> spec_zlib_compress(json@) is None),
        r is Ok <==> (spec_zlib_compress(json@) matches Some(c) && spec_xchacha_seal(
            spec_machine_bound_key(machine_key@, salt@),
            nonce@,
            c,
        ) is Some),
{
    let compressed = match zlib_compress(json) {
        Some(c) => c,
        None => {
            return Err(BackupError::CompressFailed);
        },
    };
    let key = derive_machine_bound_key(machine_key, salt);
    let ciphertext = match xchacha_seal(key.as_slice(), nonce, compressed.as_slice()) {
        Some(c) => c,
        None => {
            return Err(BackupError::EncryptFailed);
        },
    };
    let mut out = full_magic();
    out.push(FULL_FILE_VERSION_MACHINE_BOUND);
    append_bytes(&mut out, salt);
    append_bytes(&mut out, nonce);
    append_bytes(&mut out, ciphertext.as_slice());
    proof {
        let o = out@;
        assert(o.subrange(0, 4) =~= spec_full_magic());
        assert(o.subrange(5, 21) =~= salt@);
        assert(o.subrange(21, 45) =~= nonce@);
        assert(o.skip(45) =~= ciphertext@);
        assert(o.take(4) =~= spec_full_magic());
        if json@.len() <= MAX_IMPORT_JSON_BYTES && o.len() <= MAX_IMPORT_FILE_BYTES {
            assert(spec_full_key(Some(machine_key@), salt@) == key@);
            assert(json@.len() < (MAX_IMPORT_JSON_BYTES + 1) as u64);
            assert(spec_zlib_inflate(compressed@, (MAX_IMPORT_JSON_BYTES + 1) as u64) == Some(
                json@,
            ));
        }
    }
    Ok(out)
}

/// Seal the JSON of a catalog into a machine-bound full backup with a fresh random salt and
/// nonce.
pub fn encode_full_encrypted_store_with_key(json: &[u8], machine_key: &[u8]) -> (r: Result<
    Vec<u8>,
    BackupError,
>)
    ensures
        r matches Ok(out) ==> {
            &&& out@.len() > FULL_HEADER_LEN
            &&& out@.subrange(0, 4) == spec_full_magic()
            &&& out@[4] == FULL_FILE_VERSION_MACHINE_BOUND
            &&& spec_full_backup_bytes(
                json@,
                machine_key@,
                out@.subrange(5, 21),
                out@.subrange(21, 45),
                out@.skip(45),
            )
        },
        r matches Ok(out) ==> (json@.len() <= MAX_IMPORT_JSON_BYTES && out@.len()
            <= MAX_IMPORT_FILE_BYTES ==> spec_open_full_backup(out@, Some(machine_key@)) == Ok::<Seq<u8>, BackupError>(json@)),
        r matches Err(e) ==> (e is CompressFailed || e is EncryptFailed),
        r matches Err(e) ==> (e is CompressFailed <==> spec_zlib_compress(json@) is None),
{
    let salt = random_bytes(FULL_SALT_LEN);
    let nonce = random_bytes(FULL_NONCE_LEN);
    let r = seal_full_backup(json, machine_key, salt.as_slice(), nonce.as_slice());
    r
}


/// What is wrong with an imported account, checked in order against the accounts before it.
#[derive(Debug, Clone, Copy, PartialEq, Eq, Structural)]
pub enum ImportIssue {
    EmptyId,
    EmptyName,
    DuplicateId,
    DuplicateName,
    InvalidCredentials,
}

/// The first problem of imported account `i` given the accounts before it, if any.
pub open spec fn spec_import_issue(accounts: Seq<StoredAccount>, i: int) -> Option<ImportIssue> {
    let a = accounts[i];
    if spec_is_blank(a.id@) {
        Some(ImportIssue::EmptyId)
    } else if spec_is_blank(a.name@) {
        Some(ImportIssue::EmptyName)
    } else if exists|j: int| 0 <= j < i && (#[trigger] accounts[j]).id@ == a.id@ {
        Some(ImportIssue::DuplicateId)
    } else if exists|j: int| 0 <= j < i && (#[trigger] accounts[j]).name@ == a.name@ {
        Some(ImportIssue::DuplicateName)
    } else if spec_validate_account(a) is Err {
        Some(ImportIssue::InvalidCredentials)
    } else {
        None
    }
}

/// The error reported for an imported account's problem.
pub open spec fn spec_import_error(a: StoredAccount, issue: ImportIssue, e: BackupError) -> bool {
    match issue {
        ImportIssue::EmptyId => e is ImportEmptyId,
        ImportIssue::EmptyName => e is ImportEmptyName,
        ImportIssue::DuplicateId => e matches BackupError::ImportDuplicateId(n) && n@ == a.id@,
        ImportIssue::DuplicateName => e matches BackupError::ImportDuplicateName(n) && n@
            == a.name@,
        ImportIssue::InvalidCredentials => e matches BackupError::ImportInvalidCredentials {
            name,
            error,
        } && name@ == a.name@ && spec_validate_account(a) == Err::<(), CredentialError>(error),
    }
}

/// No imported account has a problem.
pub open spec fn spec_import_accounts_ok(accounts: Seq<StoredAccount>) -> bool {
    forall|i: int| 0 <= i < accounts.len() ==> #[trigger] spec_import_issue(accounts, i) is None
}

fn id_seen(accounts: &Vec<StoredAccount>, i: usize, id: &String) -> (r: bool)
    requires
        i <= accounts@.len(),
    ensures
        r == exists|j: int| 0 <= j < i && (#[trigger] accounts@[j]).id@ == id@,
{
    let mut j: usize = 0;
    while j < i
        invariant
            j <= i <= accounts@.len(),
            forall|k: int| 0 <= k < j ==> (#[trigger] accounts@[k]).id@ != id@,
        decreases i - j,
    {
        if str_eq(accounts[j].id.as_str(), id.as_str()) {
            return true;
        }
        j += 1;
    }
    false
}

fn stored_name_seen(accounts: &Vec<StoredAccount>, i: usize, name: &String) -> (r: bool)
    requires
        i <= accounts@.len(),
    ensures
        r == exists|j: int| 0 <= j < i && (#[trigger] accounts@[j]).name@ == name@,
{
    let mut j: usize = 0;
    while j < i
        invariant
            j <= i <= accounts@.len(),
            forall|k: int| 0 <= k < j ==> (#[trigger] accounts@[k]).name@ != name@,
        decreases i - j,
    {
        if str_eq(accounts[j].name.as_str(), name.as_str()) {
            return true;
        }
        j += 1;
    }
    false
}

/// Check a decrypted full backup before merging it: each account in order (see
/// `spec_import_issue`), then that the active id names one of them.
pub fn validate_imported_store(store: &AccountsStore) -> (r: Result<(), BackupError>)
    ensures
        r is Ok <==> spec_import_accounts_ok(store.accounts@) && (store.active_account_id matches Some(
            id,
        ) ==> spec_id_present(store.accounts@, id@)),
        r matches Err(e) ==> {
            ||| exists|i: int|
                #![trigger store.accounts@[i]]
                {
                    &&& 0 <= i < store.accounts@.len()
                    &&& forall|j: int|
                        0 <= j < i ==> #[trigger] spec_import_issue(store.accounts@, j) is None
                    &&& spec_import_issue(store.accounts@, i) matches Some(issue)
                        && spec_import_error(store.accounts@[i], issue, e)
                }
            ||| {
                &&& spec_import_accounts_ok(store.accounts@)
                &&& store.active_account_id matches Some(id)
                &&& !spec_id_present(store.accounts@, id@)
                &&& e matches BackupError::ImportMissingActive(n) && n@ == id@
            }
        },
{
    let accounts = &store.accounts;
    let mut i: usize = 0;
    while i < accounts.len()
        invariant
            i <= accounts@.len(),
            accounts == &store.accounts,
            forall|j: int| 0 <= j < i ==> #[trigger] spec_import_issue(accounts@, j) is None,
        decreases accounts@.len() - i,
    {
        let a = &accounts[i];
        if is_blank(a.id.as_str()) {
            return Err(BackupError::ImportEmptyId);
        }
        if is_blank(a.name.as_str()) {
            return Err(BackupError::ImportEmptyName);
        }
        if id_seen(accounts, i, &a.id) {
            return Err(BackupError::ImportDuplicateId(clone_string(&a.id)));
        }
        if stored_name_seen(accounts, i, &a.name) {
            return Err(BackupError::ImportDuplicateName(clone_string(&a.name)));
        }
        match validate_stored_account_credentials(a) {
            Ok(()) => {},
            Err(error) => {
                return Err(
                    BackupError::ImportInvalidCredentials { name: clone_string(&a.name), error },
                );
            },
        }
        assert(spec_import_issue(accounts@, i as int) is None);
        i += 1;
    }
    if let Some(active) = &store.active_account_id {
        if find_account_index(accounts, active.as_str()).is_none() {
            return Err(BackupError::ImportMissingActive(clone_string(active)));
        }
    }
    Ok(())
}

} // verus!
