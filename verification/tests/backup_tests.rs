use std::io::Write;

use chacha20poly1305::aead::{Aead, KeyInit};
use chacha20poly1305::{XChaCha20Poly1305, XNonce};
use codex_switcher::backup::{
    decode_full_encrypted_store, decode_slim_payload, derive_legacy_encryption_key,
    encode_full_encrypted_store_with_key, encode_slim_export, encode_slim_payload_from_store,
    read_full_encrypted_store_version, validate_imported_store, validate_slim_payload,
    BackupError, SlimAccountPayload, SlimPayload, FULL_FILE_VERSION_LEGACY,
    FULL_FILE_VERSION_MACHINE_BOUND, FULL_NONCE_LEN, FULL_SALT_LEN,
    LEGACY_FULL_PRESET_PASSPHRASE, SLIM_AUTH_API_KEY, SLIM_AUTH_CHATGPT, SLIM_EXPORT_PREFIX,
    SLIM_FORMAT_VERSION,
};
use codex_switcher::catalog::add_account;
use codex_switcher::types::{AccountsStore, StoredAccount};

const FULL_FILE_MAGIC: &[u8; 4] = b"CSWF";

fn sample_store_json() -> (Vec<u8>, String) {
    let account = StoredAccount::new_api_key("Backup".to_string(), "sk-backup".to_string());
    let json = format!(
        "{{\"version\":1,\"accounts\":[{{\"id\":\"{id}\",\"name\":\"Backup\",\"email\":null,\"plan_type\":null,\"auth_mode\":\"api_key\",\"auth_data\":{{\"type\":\"api_key\",\"key\":\"sk-backup\"}},\"created_at\":\"{created}\",\"last_used_at\":null}}],\"active_account_id\":\"{id}\",\"masked_account_ids\":[]}}",
        id = account.id,
        created = account.created_at
    );
    (json.into_bytes(), account.id)
}

fn parse(json: &[u8]) -> serde_json::Value {
    serde_json::from_slice(json).expect("restored JSON")
}

#[test]
fn new_full_backup_uses_machine_bound_format() {
    let machine_key = vec![7u8; 32];
    let (json, _) = sample_store_json();
    let bytes = encode_full_encrypted_store_with_key(&json, &machine_key).expect("encode backup");

    assert_eq!(bytes[..4], *FULL_FILE_MAGIC);
    assert_eq!(bytes[4], FULL_FILE_VERSION_MACHINE_BOUND);
}

#[test]
fn machine_bound_backup_round_trip_requires_matching_key() {
    let (json, active_id) = sample_store_json();
    let machine_key = vec![9u8; 32];
    let encrypted = encode_full_encrypted_store_with_key(&json, &machine_key).expect("encode backup");
    let restored =
        decode_full_encrypted_store(&encrypted, Some(&machine_key)).expect("decode backup");

    let value = parse(&restored);
    assert_eq!(value["accounts"].as_array().expect("accounts").len(), 1);
    assert_eq!(value["active_account_id"].as_str(), Some(active_id.as_str()));
    assert_eq!(restored, json);

    let wrong_key = vec![3u8; 32];
    assert!(decode_full_encrypted_store(&encrypted, Some(&wrong_key)).is_err());
}

#[test]
fn legacy_full_backup_import_still_works() {
    let (json, _) = sample_store_json();
    let mut encoder =
        flate2::write::ZlibEncoder::new(Vec::new(), flate2::Compression::best());
    encoder.write_all(&json).expect("compress");
    let compressed = encoder.finish().expect("compress");
    let salt = [1u8; FULL_SALT_LEN];
    let nonce = [2u8; FULL_NONCE_LEN];
    let key = derive_legacy_encryption_key(LEGACY_FULL_PRESET_PASSPHRASE, &salt);
    let cipher = XChaCha20Poly1305::new_from_slice(&key).expect("key");
    let ciphertext = cipher
        .encrypt(XNonce::from_slice(&nonce), compressed.as_slice())
        .expect("encrypt");

    let mut encrypted = Vec::new();
    encrypted.extend_from_slice(FULL_FILE_MAGIC);
    encrypted.push(FULL_FILE_VERSION_LEGACY);
    encrypted.extend_from_slice(&salt);
    encrypted.extend_from_slice(&nonce);
    encrypted.extend_from_slice(&ciphertext);

    let restored = decode_full_encrypted_store(&encrypted, None).expect("decode legacy");
    let value = parse(&restored);
    assert_eq!(value["accounts"].as_array().expect("accounts").len(), 1);
    assert_eq!(value["accounts"][0]["name"].as_str(), Some("Backup"));
}

#[test]
fn slim_import_rejects_duplicate_refresh_token_sources() {
    let payload = SlimPayload {
        version: SLIM_FORMAT_VERSION,
        active_name: None,
        accounts: vec![
            SlimAccountPayload {
                name: "First".to_string(),
                auth_type: SLIM_AUTH_CHATGPT,
                api_key: None,
                refresh_token: Some("shared-refresh".to_string()),
            },
            SlimAccountPayload {
                name: "Second".to_string(),
                auth_type: SLIM_AUTH_CHATGPT,
                api_key: None,
                refresh_token: Some("shared-refresh".to_string()),
            },
        ],
    };

    let error = validate_slim_payload(&payload).expect_err("duplicate refresh token should fail");

    assert!(error.message().contains("same refresh token"));
}

#[test]
fn slim_export_round_trips_its_json() {
    let json = br#"{"version":1,"active_name":null,"accounts":[]}"#;
    let encoded = encode_slim_export(json).expect("encode");
    assert!(encoded.starts_with(SLIM_EXPORT_PREFIX));
    assert_eq!(decode_slim_payload(&encoded).expect("decode"), json.to_vec());
    let padded = format!("  {}\n", encoded.replace(SLIM_EXPORT_PREFIX, ""));
    assert_eq!(decode_slim_payload(&padded).expect("decode without prefix"), json.to_vec());
}

#[test]
fn slim_decode_rejects_bad_input() {
    assert!(matches!(decode_slim_payload("   "), Err(BackupError::EmptyImport)));
    assert!(matches!(
        decode_slim_payload("css1.***"),
        Err(BackupError::InvalidBase64)
    ));
}

#[test]
fn slim_export_of_a_valid_catalog_validates() {
    let mut store = AccountsStore::empty();
    add_account(
        &mut store,
        StoredAccount::new_api_key("Key".to_string(), "sk-one".to_string()),
    )
    .expect("add");
    add_account(
        &mut store,
        StoredAccount::new_chatgpt(
            "Chat".to_string(),
            None,
            None,
            "id".to_string(),
            "access".to_string(),
            "refresh".to_string(),
            Some("acct".to_string()),
        ),
    )
    .expect("add");

    let payload = encode_slim_payload_from_store(&store);
    assert_eq!(payload.active_name.as_deref(), Some("Key"));
    assert_eq!(payload.accounts[0].auth_type, SLIM_AUTH_API_KEY);
    assert_eq!(payload.accounts[1].refresh_token.as_deref(), Some("refresh"));
    assert!(validate_slim_payload(&payload).is_ok());
}

#[test]
fn slim_validation_reports_each_problem() {
    let entry = |name: &str, auth_type: u8, key: Option<&str>, refresh: Option<&str>| {
        SlimAccountPayload {
            name: name.to_string(),
            auth_type,
            api_key: key.map(String::from),
            refresh_token: refresh.map(String::from),
        }
    };
    let payload = |accounts: Vec<SlimAccountPayload>, active: Option<&str>| SlimPayload {
        version: SLIM_FORMAT_VERSION,
        active_name: active.map(String::from),
        accounts,
    };
    assert!(matches!(
        validate_slim_payload(&SlimPayload { version: 9, active_name: None, accounts: vec![] }),
        Err(BackupError::UnsupportedVersion(9))
    ));
    assert!(matches!(
        validate_slim_payload(&payload(vec![entry(" ", SLIM_AUTH_API_KEY, Some("k"), None)], None)),
        Err(BackupError::EmptyName)
    ));
    assert!(matches!(
        validate_slim_payload(&payload(
            vec![
                entry("A", SLIM_AUTH_API_KEY, Some("k1"), None),
                entry("A", SLIM_AUTH_API_KEY, Some("k2"), None)
            ],
            None
        )),
        Err(BackupError::DuplicateName(_))
    ));
    assert!(matches!(
        validate_slim_payload(&payload(vec![entry("A", SLIM_AUTH_API_KEY, None, None)], None)),
        Err(BackupError::MissingApiKey(_))
    ));
    assert!(matches!(
        validate_slim_payload(&payload(
            vec![
                entry("A", SLIM_AUTH_API_KEY, Some("k"), None),
                entry("B", SLIM_AUTH_API_KEY, Some("k"), None)
            ],
            None
        )),
        Err(BackupError::DuplicateApiKey)
    ));
    assert!(matches!(
        validate_slim_payload(&payload(vec![entry("A", SLIM_AUTH_CHATGPT, None, Some(" "))], None)),
        Err(BackupError::MissingRefreshToken(_))
    ));
    assert!(matches!(
        validate_slim_payload(&payload(vec![entry("A", 7, None, None)], None)),
        Err(BackupError::UnsupportedAuthType { auth_type: 7, .. })
    ));
    assert!(matches!(
        validate_slim_payload(&payload(
            vec![entry("A", SLIM_AUTH_API_KEY, Some("k"), None)],
            Some("B")
        )),
        Err(BackupError::MissingActive(_))
    ));
}

#[test]
fn full_backup_header_is_checked() {
    assert!(read_full_encrypted_store_version(b"CSW").is_err());
    let mut bad_magic = vec![0u8; 64];
    bad_magic[4] = FULL_FILE_VERSION_MACHINE_BOUND;
    assert!(read_full_encrypted_store_version(&bad_magic).is_err());
    let mut good = b"CSWF".to_vec();
    good.push(FULL_FILE_VERSION_MACHINE_BOUND);
    good.extend_from_slice(&[0u8; 60]);
    assert_eq!(
        read_full_encrypted_store_version(&good).expect("version"),
        FULL_FILE_VERSION_MACHINE_BOUND
    );
    let mut unknown = b"CSWF".to_vec();
    unknown.push(9);
    unknown.extend_from_slice(&[0u8; 60]);
    assert_eq!(read_full_encrypted_store_version(&unknown).expect("version"), 9);
    assert!(decode_full_encrypted_store(&unknown, Some(&[1u8; 32])).is_err());
}

#[test]
fn machine_bound_backup_needs_a_machine_key() {
    let (json, _) = sample_store_json();
    let encrypted = encode_full_encrypted_store_with_key(&json, &[5u8; 32]).expect("encode");
    assert!(decode_full_encrypted_store(&encrypted, None).is_err());
}

#[test]
fn imported_store_must_have_distinct_ids_and_names() {
    let account = StoredAccount::new_api_key("One".to_string(), "sk-one".to_string());
    let store = AccountsStore {
        version: 1,
        accounts: vec![account.clone(), account],
        active_account_id: None,
        masked_account_ids: Vec::new(),
    };
    assert!(validate_imported_store(&store).is_err());
    assert!(validate_imported_store(&AccountsStore::empty()).is_ok());
}
