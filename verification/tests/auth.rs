//! Credentials: files, encryption, import, login and renewal.

use aes::Aes128;
use aes_gcm::aead::{AeadInOut, KeyInit};
use aes_gcm::{Aes256Gcm, Nonce};
use base64::prelude::BASE64_STANDARD;
use base64::Engine as _;
use cbc::cipher::{block_padding::Pkcs7, BlockModeEncrypt, KeyIvInit};
use cbc::Encryptor;
use granola::auth::{
    parse_stored_accounts, parse_supabase, Cause, Credentials, Error, DEFAULT_CLIENT_ID,
};
use granola::desktop::{
    desktop_state, encrypted_stored_accounts_path, encrypted_supabase_path, granola_dir,
    is_migrated, load_credentials_from_file, load_legacy_refresh_credentials, needs_key,
    storage_dek_path, stored_accounts_path, supabase_path, Base, DesktopFiles, KeyReading,
    PlainFile, Platform, SealedFile, ENCRYPTED_STORED_ACCOUNTS_FILE, ENCRYPTED_SUPABASE_FILE,
    STORED_ACCOUNTS_FILE,
};
use granola::json::{Json, Number};
use granola::session::{
    after_exchange, after_save, credentials_from_granola_refresh, exchange_refresh_token, login,
    refresh_access_token, refresh_request, CredentialSource, GranolaRefreshResponse, RefreshReply,
    Step, WorkOsRefreshResponse, GRANOLA_REFRESH_URL, WORKOS_AUTH_URL,
};
use granola::storage::{
    check_key, decrypt_granola_storage, decrypt_mac_safe_storage_value, read_safe_storage,
    read_storage, read_text, unwrap_storage_key,
};
use pbkdf2::pbkdf2_hmac;
use serde_json::Value;
use sha1::Sha1;

type Aes128CbcEnc = Encryptor<Aes128>;

fn value(j: &Json) -> Value {
    match j {
        Json::Null => Value::Null,
        Json::Bool(b) => Value::Bool(*b),
        Json::Number(Number::Unsigned(n)) => Value::from(*n),
        Json::Number(Number::Negative(n)) => Value::from(*n),
        Json::Number(Number::Decimal(s)) => serde_json::from_str(s).expect("a number"),
        Json::Text(s) => Value::String(s.clone()),
        Json::Array(v) => Value::Array(v.iter().map(value).collect()),
        Json::Object(v) => {
            let mut m = serde_json::Map::new();
            for (k, x) in v {
                m.insert(k.clone(), value(x));
            }
            Value::Object(m)
        }
    }
}

fn string_of(s: &str) -> String {
    Value::from(s).to_string()
}

fn encrypt_mac_safe_storage_value(text: &str, password: &str) -> Vec<u8> {
    let mut key = [0_u8; 16];
    pbkdf2_hmac::<Sha1>(password.as_bytes(), b"saltysalt", 1003, &mut key);
    let cipher = Aes128CbcEnc::new_from_slices(&key, &[b' '; 16]).unwrap();
    let mut encrypted = b"v10".to_vec();
    encrypted.extend(cipher.encrypt_padded_vec::<Pkcs7>(text.as_bytes()));
    encrypted
}

fn encrypt_granola_storage(text: &[u8], dek: &[u8]) -> Vec<u8> {
    let iv = [7_u8; 12];
    let cipher = Aes256Gcm::new_from_slice(dek).unwrap();
    let mut encrypted = text.to_vec();
    let nonce = Nonce::try_from(&iv[..]).unwrap();
    let tag = cipher
        .encrypt_inout_detached(&nonce, b"", encrypted.as_mut_slice().into())
        .unwrap();
    let mut blob = Vec::with_capacity(iv.len() + encrypted.len() + tag.len());
    blob.extend_from_slice(&iv);
    blob.extend_from_slice(&encrypted);
    blob.extend_from_slice(tag.as_slice());
    blob
}

fn plain(path: &str, text: Option<&str>) -> PlainFile {
    PlainFile { path: path.to_string(), present: text.is_some(), text: text.map(str::to_string) }
}

fn sealed(path: &str, bytes: Option<&[u8]>) -> SealedFile {
    SealedFile {
        path: path.to_string(),
        present: bytes.is_some(),
        bytes: match bytes {
            Some(b) => Ok(b.to_vec()),
            None => Err("no such file".to_string()),
        },
    }
}

fn files(
    stored_accounts: Option<&str>,
    supabase: Option<&str>,
    encrypted_stored_accounts: Option<&[u8]>,
    encrypted_supabase: Option<&[u8]>,
    dek_present: bool,
) -> DesktopFiles {
    DesktopFiles {
        stored_accounts: plain("/g/sa", stored_accounts),
        supabase: plain("/g/sb", supabase),
        encrypted_stored_accounts: sealed("/g/sa.enc", encrypted_stored_accounts),
        encrypted_supabase: sealed("/g/sb.enc", encrypted_supabase),
        dek_present,
    }
}

fn plaintext_stored_accounts(refresh_token: &str) -> String {
    format!(
        r#"{{"accounts":[{{"userId":"u1","tokens":{{"access_token":"AT_PLAINTEXT","refresh_token":{},"client_id":"client_GranolaMac"}}}}]}}"#,
        string_of(refresh_token)
    )
}

fn cause(text: &str) -> Cause {
    Cause::new(text.to_string())
}

fn creds(refresh_token: &str, access_token: &str, client_id: &str) -> Credentials {
    Credentials {
        refresh_token: refresh_token.to_string(),
        access_token: access_token.to_string(),
        client_id: client_id.to_string(),
    }
}

#[test]
fn desktop_state_reports_nothing_for_an_empty_directory() {
    let f = files(None, None, None, None, false);
    let state = desktop_state(Some(&f));

    assert!(state.plaintext_files.is_empty());
    assert!(state.encrypted_files.is_empty());
    assert!(!state.storage_dek_present);
    assert!(!state.plaintext_refresh_token_present);
    assert!(!state.needs_cross_app_keychain);

    // Without a directory there is nothing either.
    assert_eq!(desktop_state(None), state);
}

#[test]
fn desktop_state_reports_a_plaintext_only_install() {
    let f = files(Some(&plaintext_stored_accounts("RT_LIVE")), None, None, None, false);
    let state = desktop_state(Some(&f));

    assert_eq!(state.plaintext_files, vec![STORED_ACCOUNTS_FILE]);
    assert!(state.plaintext_refresh_token_present);
    assert!(!state.needs_cross_app_keychain);
}

#[test]
fn desktop_state_flags_the_cross_app_keychain_read_when_a_dek_is_present() {
    let f = files(
        None,
        None,
        Some(b"not-really-encrypted"),
        Some(b"not-really-encrypted"),
        true,
    );
    let state = desktop_state(Some(&f));

    assert_eq!(
        state.encrypted_files,
        vec![ENCRYPTED_STORED_ACCOUNTS_FILE, ENCRYPTED_SUPABASE_FILE]
    );
    assert!(state.storage_dek_present);
    assert!(state.needs_cross_app_keychain);
    assert!(needs_key(Platform::MacOs, Some(&f)));
    assert!(!needs_key(Platform::Other, Some(&f)));
    assert!(!is_migrated(Platform::MacOs, Some(&f)));
}

#[test]
fn desktop_state_does_not_flag_a_keychain_read_once_the_dek_is_gone() {
    let f = files(
        Some(&plaintext_stored_accounts("RT_FROZEN")),
        None,
        Some(b"not-really-encrypted"),
        None,
        false,
    );
    let state = desktop_state(Some(&f));

    assert!(!state.storage_dek_present);
    assert!(!state.needs_cross_app_keychain);
    assert!(state.plaintext_refresh_token_present);
    assert!(!needs_key(Platform::MacOs, Some(&f)));
    assert!(is_migrated(Platform::MacOs, Some(&f)));
    assert!(!is_migrated(Platform::Windows, Some(&f)));
}

#[test]
fn desktop_state_ignores_a_plaintext_file_with_no_refresh_token() {
    let f = files(Some(&plaintext_stored_accounts("")), None, None, None, false);
    let state = desktop_state(Some(&f));

    assert_eq!(state.plaintext_files, vec![STORED_ACCOUNTS_FILE]);
    assert!(!state.plaintext_refresh_token_present);
}

#[test]
fn desktop_state_never_serialises_token_values() {
    let f = files(
        Some(&plaintext_stored_accounts("SUPER_SECRET_REFRESH")),
        None,
        None,
        None,
        false,
    );
    let state = desktop_state(Some(&f));
    let json = value(&state.to_json()).to_string();

    assert!(!json.contains("SUPER_SECRET_REFRESH"), "leaked: {json}");
    assert!(!json.contains("AT_PLAINTEXT"), "leaked: {json}");
    assert_eq!(
        value(&state.to_json()),
        serde_json::from_str::<Value>(
            r#"{
                "plaintext_files": ["stored-accounts.json"],
                "encrypted_files": [],
                "storage_dek_present": false,
                "plaintext_refresh_token_present": true,
                "needs_cross_app_keychain": false
            }"#
        )
        .unwrap()
    );

    // Another token of another length changes nothing.
    let other = files(Some(&plaintext_stored_accounts("X")), None, None, None, false);
    assert_eq!(desktop_state(Some(&other)), state);
}

#[test]
fn stored_accounts_with_stringified_inner_fields() {
    let tokens =
        r#"{"access_token":"AT123","refresh_token":"RT123","client_id":"client_GranolaMac"}"#;
    let accounts_str = format!(
        r#"[{{"userId":"u1","email":"x@example.com","tokens":{}}}]"#,
        string_of(tokens)
    );
    let file = format!(r#"{{"accounts":{}}}"#, string_of(&accounts_str));

    let c = parse_stored_accounts(&file).expect("parse");
    assert_eq!(c.access_token, "AT123");
    assert_eq!(c.refresh_token, "RT123");
    assert_eq!(c.client_id, "client_GranolaMac");
}

#[test]
fn stored_accounts_with_parsed_inner_fields() {
    let file = r#"{
        "accounts": [
            {
                "userId": "u1",
                "tokens": {
                    "access_token": "AT123",
                    "refresh_token": "RT123",
                    "client_id": "client_GranolaMac"
                }
            }
        ]
    }"#;
    let c = parse_stored_accounts(file).expect("parse");
    assert_eq!(c.access_token, "AT123");
    assert_eq!(c.refresh_token, "RT123");
}

#[test]
fn stored_accounts_missing_access_token_returns_none() {
    let file = r#"{ "accounts": [{ "tokens": { "refresh_token": "RT123" } }] }"#;
    assert!(parse_stored_accounts(file).is_none());
}

#[test]
fn stored_accounts_must_have_the_shape_of_accounts() {
    // The defaults of what may be missing.
    assert_eq!(
        parse_stored_accounts(r#"{ "accounts": [{ "tokens": { "access_token": "A" } }] }"#),
        Some(creds("", "A", DEFAULT_CLIENT_ID))
    );
    // Only the first account counts, but all must be accounts.
    assert_eq!(
        parse_stored_accounts(
            r#"{ "accounts": [{ "tokens": { "access_token": "A", "client_id": "c" } }, { "tokens": null }] }"#
        ),
        Some(creds("", "A", "c"))
    );
    for bad in [
        "",
        "[",
        "null",
        "{}",
        r#"{ "accounts": null }"#,
        r#"{ "accounts": [] }"#,
        r#"{ "accounts": {} }"#,
        r#"{ "accounts": "no json" }"#,
        r#"{ "accounts": [{}] }"#,
        r#"{ "accounts": [{ "tokens": "no json" }] }"#,
        r#"{ "accounts": [{ "tokens": 5 }] }"#,
        r#"{ "accounts": [{ "tokens": { "access_token": 5 } }] }"#,
        r#"{ "accounts": [{ "tokens": { "access_token": "A" } }, 7] }"#,
        r#"{ "accounts": [{ "tokens": { "access_token": "A" } }, { "tokens": 7 }] }"#,
    ] {
        assert_eq!(parse_stored_accounts(bad), None, "{bad}");
    }
    // A record may stand as the array of its fields.
    assert_eq!(
        parse_stored_accounts(r#"[[[["A", "R", null]]]]"#),
        Some(creds("R", "A", DEFAULT_CLIENT_ID))
    );
    assert_eq!(parse_stored_accounts(r#"[[[["A", "R"]]]]"#), None);
}

#[test]
fn supabase_workos_format() {
    let workos_tokens =
        r#"{"access_token":"AT","refresh_token":"RT","client_id":"client_GranolaMac"}"#;
    let file = format!(r#"{{"workos_tokens":{}}}"#, string_of(workos_tokens));
    let c = parse_supabase(&file).expect("parse");
    assert_eq!(c.access_token, "AT");
    assert_eq!(c.refresh_token, "RT");
}

#[test]
fn supabase_workos_accepts_missing_refresh_token() {
    let workos_tokens = r#"{"access_token":"AT","client_id":"client_GranolaMac"}"#;
    let file = format!(r#"{{"workos_tokens":{}}}"#, string_of(workos_tokens));
    let c = parse_supabase(&file).expect("parse");
    assert_eq!(c.refresh_token, "");
}

#[test]
fn supabase_cognito_rejects_missing_refresh_token() {
    let cognito_tokens = r#"{"access_token":"AT"}"#;
    let file = format!(r#"{{"cognito_tokens":{}}}"#, string_of(cognito_tokens));
    assert!(parse_supabase(&file).is_none());
}

#[test]
fn supabase_legacy_root_level() {
    let file = r#"{ "refresh_token": "RT", "access_token": "AT", "client_id": "client_legacy" }"#;
    let c = parse_supabase(file).expect("parse");
    assert_eq!(c.refresh_token, "RT");
    assert_eq!(c.client_id, "client_legacy");
}

#[test]
fn supabase_legacy_missing_refresh_token() {
    assert!(parse_supabase(r#"{ "access_token": "AT" }"#).is_none());
}

#[test]
fn supabase_sources_are_tried_in_order() {
    // Without an access token the WorkOS tokens do not count.
    assert_eq!(
        parse_supabase(
            r#"{ "workos_tokens": { "refresh_token": "W" },
                 "cognito_tokens": { "refresh_token": "C" },
                 "refresh_token": "L" }"#
        ),
        Some(creds("C", "", DEFAULT_CLIENT_ID))
    );
    // Cognito tokens that renew nothing end the search.
    assert_eq!(
        parse_supabase(r#"{ "cognito_tokens": {}, "refresh_token": "L" }"#),
        None
    );
    // A text that is no document is passed over.
    assert_eq!(
        parse_supabase(
            r#"{ "workos_tokens": "x", "cognito_tokens": "y", "refresh_token": "L", "access_token": "A" }"#
        ),
        Some(creds("L", "A", DEFAULT_CLIENT_ID))
    );
    // One field of a wrong kind spoils the file.
    assert_eq!(
        parse_supabase(
            r#"{ "workos_tokens": { "access_token": "A" }, "client_id": 5 }"#
        ),
        None
    );
    assert_eq!(
        parse_supabase(r#"{ "workos_tokens": 5, "refresh_token": "L" }"#),
        None
    );
}

#[test]
fn granola_refresh_rotates_refresh_token() {
    let current = creds("RT_OLD", "AT_OLD", "client");
    let refreshed = GranolaRefreshResponse {
        access_token: "AT_NEW".into(),
        refresh_token: Some("RT_NEW".into()),
    };
    assert_eq!(
        credentials_from_granola_refresh(&current, refreshed),
        Credentials {
            refresh_token: "RT_NEW".into(),
            access_token: "AT_NEW".into(),
            client_id: "client".into(),
        }
    );
}

#[test]
fn granola_refresh_preserves_token_when_response_omits_rotation() {
    let current = creds("RT_OLD", "AT_OLD", "client");
    let refreshed = GranolaRefreshResponse { access_token: "AT_NEW".into(), refresh_token: None };
    assert_eq!(
        credentials_from_granola_refresh(&current, refreshed).refresh_token,
        "RT_OLD"
    );
    let refreshed = GranolaRefreshResponse {
        access_token: "AT_NEW".into(),
        refresh_token: Some(String::new()),
    };
    assert_eq!(
        credentials_from_granola_refresh(&current, refreshed).refresh_token,
        "RT_OLD"
    );
}

#[test]
fn encrypted_stored_accounts_round_trip() {
    let dek = vec![0xAB; 32];
    let dek_b64 = BASE64_STANDARD.encode(&dek);
    let wrapped_dek = encrypt_mac_safe_storage_value(&dek_b64, "test-password");

    let tokens =
        r#"{"access_token":"AT123","refresh_token":"RT123","client_id":"client_GranolaMac"}"#;
    let accounts_str = format!(
        r#"[{{"userId":"u1","email":"x@example.com","tokens":{}}}]"#,
        string_of(tokens)
    );
    let file = format!(r#"{{"accounts":{}}}"#, string_of(&accounts_str));
    let encrypted_file = encrypt_granola_storage(file.as_bytes(), &dek);

    let unwrapped_dek_b64 =
        decrypt_mac_safe_storage_value(&wrapped_dek, "test-password").expect("unwrap dek");
    assert_eq!(unwrapped_dek_b64, dek_b64);

    let decoded_dek = BASE64_STANDARD.decode(unwrapped_dek_b64).expect("decode dek");
    let plaintext =
        decrypt_granola_storage(&encrypted_file, &decoded_dek).expect("decrypt storage");
    let c = parse_stored_accounts(&plaintext).expect("parse stored-accounts");

    assert_eq!(c.access_token, "AT123");
    assert_eq!(c.refresh_token, "RT123");
    assert_eq!(c.client_id, "client_GranolaMac");

    assert_eq!(unwrap_storage_key(&wrapped_dek, "test-password"), Ok(dek));
}

#[test]
fn encrypted_supabase_round_trip_prefers_workos_tokens() {
    let dek = vec![0xCD; 32];
    let file = format!(
        r#"{{"access_token":"STALE_TOP_LEVEL_ACCESS","refresh_token":"STALE_TOP_LEVEL_REFRESH","workos_tokens":{}}}"#,
        string_of(
            r#"{"access_token":"CURRENT_WORKOS_ACCESS","refresh_token":"CURRENT_WORKOS_REFRESH"}"#
        )
    );
    let plaintext =
        decrypt_granola_storage(&encrypt_granola_storage(file.as_bytes(), &dek), &dek)
            .expect("decrypt storage");
    let c = parse_supabase(&plaintext).expect("parse supabase");

    assert_eq!(c.access_token, "CURRENT_WORKOS_ACCESS");
    assert_eq!(c.refresh_token, "CURRENT_WORKOS_REFRESH");
    assert_eq!(c.client_id, DEFAULT_CLIENT_ID);
}

fn broken(text: &str) -> Error {
    Error::EncryptedDesktopCredentials(text.to_string())
}

#[test]
fn an_encrypted_file_can_fail_in_each_way() {
    let dek = vec![1u8; 32];
    assert_eq!(
        decrypt_granola_storage(&vec![0; 40], &vec![1; 31]),
        Err(broken("invalid Granola storage key length: expected 32 bytes, got 31"))
    );
    assert_eq!(
        decrypt_granola_storage(&vec![0; 27], &dek),
        Err(broken("encrypted Granola storage payload was too short"))
    );
    assert_eq!(
        decrypt_granola_storage(&vec![0; 28], &dek),
        Err(broken("could not decrypt Granola desktop storage: aead::Error"))
    );
    assert_eq!(
        decrypt_granola_storage(&encrypt_granola_storage(&[0x61, 0xff], &dek), &dek),
        Err(broken(
            "Granola desktop storage was not valid UTF-8: invalid utf-8 sequence of 1 bytes from index 1"
        ))
    );
    assert_eq!(
        decrypt_granola_storage(&encrypt_granola_storage(b"", &dek), &dek),
        Ok(String::new())
    );
    // A byte that was changed is noticed.
    let mut blob = encrypt_granola_storage(b"text", &dek);
    blob[13] ^= 1;
    assert_eq!(
        decrypt_granola_storage(&blob, &dek),
        Err(broken("could not decrypt Granola desktop storage: aead::Error"))
    );
}

#[test]
fn a_wrapped_key_can_fail_in_each_way() {
    assert_eq!(
        decrypt_mac_safe_storage_value(&b"v10 not a block".to_vec(), "p"),
        Err(broken("could not decrypt Granola safe-storage key: Padding error"))
    );
    // The mark may be missing.
    let wrapped = encrypt_mac_safe_storage_value("value", "p");
    assert_eq!(decrypt_mac_safe_storage_value(&wrapped, "p"), Ok("value".to_string()));
    assert_eq!(
        decrypt_mac_safe_storage_value(&wrapped[3..].to_vec(), "p"),
        Ok("value".to_string())
    );
    assert!(decrypt_mac_safe_storage_value(&wrapped, "q").is_err());

    assert_eq!(
        unwrap_storage_key(&encrypt_mac_safe_storage_value("AAAA", "p"), "p"),
        Err(broken("Granola storage key decoded to 3 bytes; expected 32"))
    );
    assert_eq!(
        unwrap_storage_key(&encrypt_mac_safe_storage_value("!", "p"), "p"),
        Err(broken(&format!(
            "Granola storage key was not valid base64: {}",
            BASE64_STANDARD.decode("!").unwrap_err()
        )))
    );
    // White space at the end of the key is cut.
    let key = BASE64_STANDARD.encode([9u8; 32]) + " \n";
    assert_eq!(
        unwrap_storage_key(&encrypt_mac_safe_storage_value(&key, "p"), "p"),
        Ok(vec![9; 32])
    );
}

#[test]
fn what_was_decrypted_decides() {
    assert_eq!(read_text(b"a\xc3\xa9".to_vec(), "w: "), Ok("aé".to_string()));
    assert!(matches!(
        read_text(vec![0xc3], "w: "),
        Err(Error::EncryptedDesktopCredentials(s)) if s.starts_with("w: incomplete utf-8")
    ));
    assert_eq!(read_storage(Some(b"x".to_vec())), Ok("x".to_string()));
    assert_eq!(
        read_storage(None),
        Err(broken("could not decrypt Granola desktop storage: aead::Error"))
    );
    assert_eq!(read_safe_storage(Some(b"x".to_vec())), Ok("x".to_string()));
    assert_eq!(
        read_safe_storage(None),
        Err(broken("could not decrypt Granola safe-storage key: Padding error"))
    );
    assert_eq!(check_key(Ok(vec![1; 32])), Ok(vec![1; 32]));
    assert_eq!(
        check_key(Ok(Vec::new())),
        Err(broken("Granola storage key decoded to 0 bytes; expected 32"))
    );
    assert_eq!(
        check_key(Err("why".to_string())),
        Err(broken("Granola storage key was not valid base64: why"))
    );
}

#[test]
fn errors_say_what_happened() {
    let text = |e: Error| e.message();
    assert_eq!(text(Error::Keyring(cause("k"))), "keychain: k");
    assert_eq!(text(Error::Io(cause("i"))), "io: i");
    assert_eq!(text(Error::Json(cause("j"))), "json: j");
    assert_eq!(text(Error::Http(cause("h"))), "network: h");
    assert_eq!(text(Error::NoCredentials), "no usable credentials in the OS keychain");
    assert_eq!(
        text(Error::RefreshRejected { status: 401 }),
        "refresh token rejected by authentication provider (HTTP 401)"
    );
    assert_eq!(
        text(Error::NoDesktopCredentials { tried: vec!["/a \"b\"".into(), "/c".into()] }),
        "could not locate Granola desktop credentials — tried [\"/a \\\"b\\\"\", \"/c\"]"
    );
    assert_eq!(
        text(Error::NoDesktopCredentials { tried: Vec::new() }),
        "could not locate Granola desktop credentials — tried []"
    );
    assert_eq!(
        text(Error::DesktopKeyMigrated),
        "Granola moved its desktop encryption key into an app-only Keychain access group"
    );
    assert_eq!(
        text(broken("x")),
        "could not read encrypted Granola desktop credentials: x"
    );
    assert_eq!(text(Error::NoHomeDir), "could not determine user home/cache directory");
}

#[test]
fn paths_follow_the_platform() {
    let parts = |p: Option<granola::desktop::DesktopPath>| {
        let p = p.expect("a path");
        (p.base, p.parts.join("/"))
    };
    assert_eq!(
        parts(stored_accounts_path(Platform::MacOs, true)),
        (Base::Home, "Library/Application Support/Granola/stored-accounts.json".to_string())
    );
    assert_eq!(
        parts(supabase_path(Platform::Windows, true)),
        (Base::Config, "Granola/supabase.json".to_string())
    );
    assert_eq!(
        parts(encrypted_stored_accounts_path(Platform::Other, true)),
        (Base::Home, ".config/granola/stored-accounts.json.enc".to_string())
    );
    assert_eq!(
        parts(encrypted_supabase_path(Platform::MacOs, true)).1,
        "Library/Application Support/Granola/supabase.json.enc"
    );
    assert_eq!(
        parts(storage_dek_path(Platform::MacOs, true)).1,
        "Library/Application Support/Granola/storage.dek"
    );
    assert_eq!(parts(granola_dir(Platform::Other, true)).1, ".config/granola");
    assert_eq!(granola_dir(Platform::MacOs, false), None);
    assert_eq!(stored_accounts_path(Platform::MacOs, false), None);
}

#[test]
fn an_import_prefers_stored_accounts() {
    let supabase = r#"{ "refresh_token": "R", "access_token": "A", "client_id": "c" }"#;
    let accounts = plaintext_stored_accounts("RT");
    let both = files(Some(&accounts), Some(supabase), None, None, false);
    assert_eq!(
        load_credentials_from_file(Platform::Other, Some(&both), KeyReading::NotAsked),
        Ok(creds("RT", "AT_PLAINTEXT", "client_GranolaMac"))
    );
    let second = files(Some("{}"), Some(supabase), None, None, false);
    assert_eq!(
        load_credentials_from_file(Platform::Other, Some(&second), KeyReading::NotAsked),
        Ok(creds("R", "A", "c"))
    );
    let none = files(None, None, None, None, false);
    assert_eq!(
        load_credentials_from_file(Platform::Windows, Some(&none), KeyReading::NotAsked),
        Err(Error::NoDesktopCredentials { tried: vec!["/g/sa".into(), "/g/sb".into()] })
    );
    assert_eq!(
        load_credentials_from_file(Platform::MacOs, Some(&none), KeyReading::NotAsked),
        Err(Error::NoDesktopCredentials {
            tried: vec!["/g/sa.enc".into(), "/g/sb.enc".into(), "/g/sa".into(), "/g/sb".into()]
        })
    );
    assert_eq!(
        load_credentials_from_file(Platform::Other, None, KeyReading::NotAsked),
        Err(Error::NoDesktopCredentials { tried: Vec::new() })
    );
}

#[test]
fn encrypted_files_decide_on_macos() {
    let dek = vec![5u8; 32];
    let wrapped = encrypt_mac_safe_storage_value(&BASE64_STANDARD.encode(&dek), "pw");
    let key = || KeyReading::Read { wrapped: wrapped.clone(), password: "pw".to_string() };
    let accounts = encrypt_granola_storage(
        br#"{"accounts":[{"tokens":{"access_token":"NEW"}}]}"#,
        &dek,
    );
    let junk = encrypt_granola_storage(b"{}", &dek);
    let supabase = encrypt_granola_storage(
        br#"{"refresh_token":"R","access_token":"SB"}"#,
        &dek,
    );
    let stale = plaintext_stored_accounts("STALE");

    let f = files(Some(&stale), None, Some(&accounts), Some(&supabase), true);
    assert_eq!(
        load_credentials_from_file(Platform::MacOs, Some(&f), key()),
        Ok(creds("", "NEW", DEFAULT_CLIENT_ID))
    );
    // Elsewhere they are not looked at.
    assert_eq!(
        load_credentials_from_file(Platform::Other, Some(&f), KeyReading::NotAsked),
        Ok(creds("STALE", "AT_PLAINTEXT", "client_GranolaMac"))
    );
    let f = files(Some(&stale), None, Some(&junk), Some(&supabase), true);
    assert_eq!(
        load_credentials_from_file(Platform::MacOs, Some(&f), key()),
        Ok(creds("R", "SB", DEFAULT_CLIENT_ID))
    );
    // Plaintext beside them never steps in.
    let mut f = files(Some(&stale), None, Some(&junk), Some(b"short"), true);
    assert_eq!(
        load_credentials_from_file(Platform::MacOs, Some(&f), key()),
        Err(broken(
            "found encrypted Granola desktop credentials but could not import them: /g/sa.enc decrypted but did not match the expected credential shape; /g/sb.enc: could not read encrypted Granola desktop credentials: encrypted Granola storage payload was too short"
        ))
    );
    f.encrypted_supabase.bytes = Err("denied".to_string());
    f.encrypted_stored_accounts.present = false;
    assert_eq!(
        load_credentials_from_file(Platform::MacOs, Some(&f), key()),
        Err(broken(
            "found encrypted Granola desktop credentials but could not import them: /g/sb.enc: denied"
        ))
    );
    assert_eq!(
        load_credentials_from_file(
            Platform::MacOs,
            Some(&f),
            KeyReading::Failed(Error::Io(cause("gone")))
        ),
        Err(Error::Io(cause("gone")))
    );
    assert_eq!(
        load_credentials_from_file(Platform::MacOs, Some(&f), KeyReading::NotAsked),
        Err(broken("the storage key was not asked for"))
    );
    f.dek_present = false;
    assert_eq!(
        load_credentials_from_file(Platform::MacOs, Some(&f), KeyReading::NotAsked),
        Err(Error::DesktopKeyMigrated)
    );
}

#[test]
fn only_credentials_that_renew_are_left_over() {
    let supabase = r#"{ "refresh_token": "R" }"#;
    let f = files(Some(&plaintext_stored_accounts("")), Some(supabase), None, None, false);
    assert_eq!(
        load_legacy_refresh_credentials(Some(&f)),
        Ok(creds("R", "", DEFAULT_CLIENT_ID))
    );
    let f = files(Some(&plaintext_stored_accounts("S")), Some(supabase), None, None, false);
    assert_eq!(
        load_legacy_refresh_credentials(Some(&f)).map(|c| c.refresh_token),
        Ok("S".to_string())
    );
    let f = files(None, None, Some(b"x"), None, false);
    assert_eq!(
        load_legacy_refresh_credentials(Some(&f)),
        Err(Error::NoDesktopCredentials { tried: vec!["/g/sa".into(), "/g/sb".into()] })
    );
    assert_eq!(
        load_legacy_refresh_credentials(None),
        Err(Error::NoDesktopCredentials { tried: Vec::new() })
    );
}

#[test]
fn a_login_saves_or_exchanges() {
    let f = files(Some(&plaintext_stored_accounts("RT")), None, None, None, false);
    match login(Platform::Other, Some(&f), KeyReading::NotAsked) {
        Step::Save(c, CredentialSource::DesktopImport) => {
            assert_eq!(c, creds("RT", "AT_PLAINTEXT", "client_GranolaMac"));
        }
        _ => panic!("imported credentials are to be saved"),
    }
    // A key that has moved away: what is left is exchanged.
    let f = files(Some(&plaintext_stored_accounts("RT")), None, Some(b"x"), None, false);
    match login(Platform::MacOs, Some(&f), KeyReading::NotAsked) {
        Step::Exchange(c, CredentialSource::Bootstrap) => assert_eq!(c.refresh_token, "RT"),
        _ => panic!("the token that is left is to be exchanged"),
    }
    let f = files(None, None, Some(b"x"), None, false);
    assert!(matches!(
        login(Platform::MacOs, Some(&f), KeyReading::NotAsked),
        Step::Failed(Error::NoDesktopCredentials { .. })
    ));
    assert!(matches!(
        login(Platform::Other, None, KeyReading::NotAsked),
        Step::Failed(Error::NoDesktopCredentials { .. })
    ));
}

#[test]
fn a_renewal_is_exchanged_then_saved_then_done() {
    let stored = creds("RT", "AT", "c");
    let Step::Exchange(c, source) = refresh_access_token(Ok(Some(stored))) else {
        panic!("to be exchanged");
    };
    assert_eq!(source, CredentialSource::Keychain);
    let reply = RefreshReply::Granola(GranolaRefreshResponse {
        access_token: "AT2".into(),
        refresh_token: Some("RT2".into()),
    });
    let Step::Save(c, source) = after_exchange(&c, source, reply) else {
        panic!("to be saved");
    };
    let Step::Done(c, source) = after_save(c, source, None) else {
        panic!("done");
    };
    assert_eq!(c, creds("RT2", "AT2", "c"));
    assert_eq!(source.name(), "keychain");

    assert!(matches!(
        after_save(c, source, Some(Error::Keyring(cause("full")))),
        Step::Failed(Error::Keyring(_))
    ));
    assert!(matches!(refresh_access_token(Ok(None)), Step::Failed(Error::NoCredentials)));
    assert!(matches!(
        refresh_access_token(Ok(Some(creds("", "AT", "c")))),
        Step::Failed(Error::NoCredentials)
    ));
    assert!(matches!(
        refresh_access_token(Err(Error::Json(cause("x")))),
        Step::Failed(Error::Json(_))
    ));
    assert_eq!(CredentialSource::DesktopImport.name(), "desktop_import");
    assert_eq!(CredentialSource::Bootstrap.name(), "bootstrap");
}

#[test]
fn an_exchange_can_fail_in_each_way() {
    let c = creds("RT", "AT", "c");
    assert_eq!(
        exchange_refresh_token(&c, RefreshReply::Rejected(400)),
        Err(Error::RefreshRejected { status: 400 })
    );
    assert_eq!(
        exchange_refresh_token(&c, RefreshReply::Network(cause("dns"))),
        Err(Error::Http(cause("dns")))
    );
    assert_eq!(
        exchange_refresh_token(&c, RefreshReply::Unreadable(cause("eof"))),
        Err(Error::Io(cause("eof")))
    );
    // WorkOS always sends a new pair.
    assert_eq!(
        exchange_refresh_token(
            &c,
            RefreshReply::WorkOs(WorkOsRefreshResponse {
                access_token: "A2".into(),
                refresh_token: String::new(),
            })
        ),
        Ok(creds("", "A2", "c"))
    );
    assert!(matches!(
        after_exchange(&c, CredentialSource::Keychain, RefreshReply::Rejected(401)),
        Step::Failed(Error::RefreshRejected { status: 401 })
    ));
}

#[test]
fn a_renewal_is_asked_for_by_platform() {
    let c = creds("RT", "AT", "cid");
    let r = refresh_request(Platform::MacOs, &c);
    assert_eq!(r.url, GRANOLA_REFRESH_URL);
    assert_eq!(value(&r.body).to_string(), r#"{"refresh_token":"RT"}"#);
    let headers: Vec<(&str, &str)> =
        r.headers.iter().map(|(a, b)| (a.as_str(), b.as_str())).collect();
    assert_eq!(
        headers,
        vec![
            ("Accept", "*/*"),
            ("User-Agent", "Granola/7.427.3"),
            ("X-Client-Version", "7.427.3"),
            ("X-Granola-Platform", "darwin"),
        ]
    );
    let r = refresh_request(Platform::Windows, &c);
    assert_eq!(r.url, WORKOS_AUTH_URL);
    assert!(r.headers.is_empty());
    assert_eq!(
        value(&r.body),
        serde_json::from_str::<Value>(
            r#"{"client_id":"cid","grant_type":"refresh_token","refresh_token":"RT"}"#
        )
        .unwrap()
    );
}

#[test]
fn saved_credentials_are_read_back() {
    let c = creds("RT", "AT", "cid");
    let written = value(&c.to_json()).to_string();
    assert_eq!(
        serde_json::from_str::<Value>(&written).unwrap(),
        serde_json::from_str::<Value>(
            r#"{"refreshToken":"RT","accessToken":"AT","clientId":"cid"}"#
        )
        .unwrap()
    );
    assert_eq!(Credentials::from_json(&c.to_json()), Some(c.clone()));
    let read = |s: &str| Credentials::from_text(s);
    assert_eq!(read(&written), Some(c));
    assert_eq!(
        read(r#"{"x":1e999,"refreshToken":"RT","x":2,"clientId":"cid"}"#),
        Some(creds("RT", "", "cid"))
    );
    assert_eq!(
        read(r#"{"refreshToken":"RT","clientId":"cid","more":1}"#),
        Some(creds("RT", "", "cid"))
    );
    assert_eq!(read(r#"["RT","AT","cid"]"#), Some(creds("RT", "AT", "cid")));
    for bad in [
        "null",
        "{}",
        r#"{"refreshToken":"RT"}"#,
        r#"{"refreshToken":"RT","accessToken":null,"clientId":"cid"}"#,
        r#"{"refreshToken":5,"clientId":"cid"}"#,
        r#"["RT","AT"]"#,
        r#"["RT","AT","cid",null]"#,
        r#"{"refreshToken":"RT","refreshToken":"RT","clientId":"cid"}"#,
        r#"{"refreshToken":"RT","clientId":"cid"} 1"#,
    ] {
        assert_eq!(read(bad), None, "{bad}");
    }
}

// ---- Files as they are written ----------------------------------------------

fn nested(n: usize) -> String {
    format!("{}{}", "[".repeat(n), "]".repeat(n))
}

fn text(s: &str) -> String {
    serde_json::to_string(s).expect("a text")
}

fn opens(file: &str) -> bool {
    let found = parse_stored_accounts(file);
    assert!(found.as_ref().map_or(true, |c| c.access_token == "A"), "{file}");
    found.is_some()
}

#[test]
fn a_needed_field_stands_once() {
    let tokens = r#"{"access_token":"A"}"#;
    let accounts = format!(r#"[{{"tokens":{tokens}}}]"#);
    assert!(opens(&format!(r#"{{"accounts":{accounts}}}"#)));
    for twice in [
        format!(r#"{{"accounts":null,"accounts":{accounts}}}"#),
        format!(r#"{{"accounts":{accounts},"accounts":{accounts}}}"#),
        format!(r#"{{"accounts":{accounts},"accounts":null}}"#),
        format!(r#"{{"accounts":[{{"tokens":{tokens},"tokens":null}}]}}"#),
        format!(r#"{{"accounts":[{{"tokens":{tokens}}},{{"tokens":null,"tokens":null}}]}}"#),
        r#"{"accounts":[{"tokens":{"access_token":"B","access_token":"A"}}]}"#.to_string(),
        format!(r#"{{"accounts":{}}}"#, text(r#"[{"tokens":{"client_id":"","client_id":""}}]"#)),
        format!(r#"{{"accounts":{}}}"#, text(&format!(r#"[{{"tokens":null,"tokens":{tokens}}}]"#))),
        format!(
            r#"{{"accounts":[{{"tokens":{}}}]}}"#,
            text(r#"{"access_token":null,"access_token":"A"}"#)
        ),
    ] {
        assert!(!opens(&twice), "{twice}");
    }
    // Others may stand twice.
    for twice in [
        format!(r#"{{"x":1,"accounts":{accounts},"x":2}}"#),
        format!(r#"{{"accounts":[{{"x":1,"x":2,"tokens":{tokens}}}]}}"#),
        r#"{"accounts":[{"tokens":{"x":{"y":1,"y":2},"x":1,"access_token":"A"}}]}"#.to_string(),
    ] {
        assert!(opens(&twice), "{twice}");
    }

    let supabase = |s: &str| parse_supabase(s).map(|c| c.refresh_token);
    assert_eq!(supabase(r#"{"refresh_token":"R","x":1,"x":1}"#), Some("R".to_string()));
    for key in ["workos_tokens", "cognito_tokens", "refresh_token", "access_token", "client_id"] {
        let twice = format!(r#"{{"{key}":null,"{key}":"R","refresh_token":"R"}}"#);
        assert_eq!(supabase(&twice), None, "{twice}");
    }
    // Tokens that are text are read only then: what is wrong with them is as if
    // there were none.
    let wrong = text(r#"{"refresh_token":"A","refresh_token":"B"}"#);
    assert_eq!(
        supabase(&format!(r#"{{"cognito_tokens":{wrong},"refresh_token":"R"}}"#)),
        Some("R".to_string())
    );
    assert_eq!(
        supabase(
            r#"{"cognito_tokens":{"refresh_token":"A","refresh_token":"B"},"refresh_token":"R"}"#
        ),
        None
    );
}

#[test]
fn other_fields_are_passed_over() {
    let tokens = r#"{"access_token":"A"}"#;
    let accounts = format!(r#"[{{"tokens":{tokens}}}]"#);
    for odd in ["1e999", r#""\ud800""#, &nested(500), "-0", "[{},{\"a\":[1e999]}]"] {
        let file = format!(" {{\n\"x\" :\t{odd} ,\r\"accounts\": {accounts} , \"y\":{odd} }} ");
        assert!(opens(&file), "{file}");
        // In an account that is text of its own.
        let file = format!(
            r#"{{"accounts":{}}}"#,
            text(&format!(r#"[{{"x":{odd},"tokens":{tokens}}}]"#))
        );
        assert!(opens(&file), "{file}");
        // In tokens that are text of their own.
        let file = format!(
            r#"{{"accounts":[{{"tokens":{}}}]}}"#,
            text(&format!(r#"{{"access_token":"A","x":{odd}}}"#))
        );
        assert!(opens(&file), "{file}");
    }
    // Within the accounts or the tokens of a text everything is read.
    for odd in ["1e999", r#""\ud800""#, &nested(500)] {
        for file in [
            format!(r#"{{"accounts":[{{"x":{odd},"tokens":{tokens}}}]}}"#),
            format!(
                r#"{{"accounts":{}}}"#,
                text(&format!(r#"[{{"tokens":{{"access_token":"A","x":{odd}}}}}]"#))
            ),
            format!(r#"{{"accounts":{accounts},"\ud800":1}}"#),
            format!(r#"[{accounts},{odd}]"#),
        ] {
            assert!(!opens(&file), "{file}");
        }
    }
    // So deep and no deeper.
    for (n, fine) in [(124, true), (125, false)] {
        let deep = nested(n);
        assert_eq!(
            opens(&format!(r#"{{"accounts":[{{"x":{deep},"tokens":{tokens}}}]}}"#)),
            fine
        );
        assert_eq!(
            opens(&format!(
                r#"{{"accounts":{}}}"#,
                text(&format!(r#"[{{"tokens":{{"access_token":"A","x":{deep}}}}}]"#))
            )),
            fine
        );
    }
    for (n, fine) in [(125, true), (126, false)] {
        let file = format!(
            r#"{{"workos_tokens":{{"access_token":"A","x":{}}}}}"#,
            nested(n)
        );
        assert_eq!(parse_supabase(&file).is_some(), fine);
    }
}

#[test]
fn a_file_is_one_document() {
    let file = r#"{"accounts":[{"tokens":{"access_token":"A"}}]}"#;
    assert!(opens(&format!("\r\n\t {file}\n")));
    for wrong in [
        format!("{file} x"),
        format!("{file}{file}"),
        format!("{file}\u{a0}"),
        format!("\u{feff}{file}"),
        format!("[{file}"),
        file.replace("]}", ",]}"),
        file.replace("]}", "],}"),
        file.replace(':', " "),
        file.replace(':', "::"),
        "".to_string(),
        "{}".to_string(),
        "[]".to_string(),
        "null".to_string(),
        "\"{}\"".to_string(),
        "12".to_string(),
    ] {
        assert!(!opens(&wrong), "{wrong}");
    }
}

#[test]
fn text_that_holds_accounts_reads_alike() {
    for accounts in [
        r#"[{"tokens":{"access_token":"A","refresh_token":"R","client_id":"C"}}]"#,
        r#"[ {"tokens" : "{\"access_token\":\"A\"}"}, {"tokens":null}, [null] ]"#,
        r#"[["{\"access_token\":null}"]]"#,
        r#"[{"tokens":{}}]"#,
        r#"[5]"#,
        r#"[]"#,
        r#"{}"#,
        r#"[{"tokens":{"access_token":"A"}},{"tokens":7}]"#,
    ] {
        assert_eq!(
            parse_stored_accounts(&format!(r#"{{"accounts":{accounts}}}"#)),
            parse_stored_accounts(&format!(r#"{{"accounts":{}}}"#, text(accounts))),
            "{accounts}"
        );
    }
}
