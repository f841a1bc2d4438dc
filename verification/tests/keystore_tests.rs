use base64::Engine;
use reflectodoro::keystore::{has_encrypted_data, legacy_key_disproved, reask_vault, vault_available_after};
use reflectodoro::keystore::{
    apply_decision, compact_key_text, decide, location_from_setting, location_setting_value,
    migrate_to_vault_source, parse_key_file_text, parse_target, random_key, require_file_password,
    reset_gate, retry_needed, reveal_gate, set_password_gate, skip_vault, unlock_gate, unlocked_in_gate,
    unwrap_key_file, validate_new_password, wrap_key_with_params, Decision, KeyFile, KeyLocation,
    KeyState, KeyStore, Probe, KDF_MAX_M_KIB, KEY_LEN,
};

fn b64(bytes: &[u8]) -> String {
    base64::engine::general_purpose::STANDARD.encode(bytes)
}

fn wrap_fast(key: &[u8], password: &str) -> reflectodoro::keystore::WrappedKeyFile {
    wrap_key_with_params(key, password, 64, 1, 1).unwrap()
}

fn probe(vault: Result<Option<Vec<u8>>, String>, file: Result<KeyFile, String>) -> Probe {
    Probe { vault, vault_skipped: false, file }
}

#[test]
fn wrapped_key_round_trips() {
    let key = vec![3u8; KEY_LEN];
    let f = wrap_fast(&key, "correct horse");
    assert_eq!(unwrap_key_file(&f, "correct horse").unwrap(), key);
}

#[test]
fn wrong_password_is_rejected() {
    let f = wrap_fast(&[3u8; KEY_LEN], "correct horse");
    assert_eq!(unwrap_key_file(&f, "wrong horse").unwrap_err(), "Wrong password");
}

#[test]
fn wrapped_file_never_contains_the_key() {
    let key = [3u8; KEY_LEN];
    let f = wrap_fast(&key, "correct horse");
    let encoded = b64(&key);
    for field in [&f.kdf, &f.salt, &f.nonce, &f.ct] {
        assert!(!field.contains(&encoded));
    }
}

#[test]
fn tampered_ciphertext_is_rejected() {
    let mut f = wrap_fast(&[3u8; KEY_LEN], "correct horse");
    let mut ct = base64::engine::general_purpose::STANDARD.decode(&f.ct).unwrap();
    ct[0] ^= 1;
    f.ct = b64(&ct);
    assert!(unwrap_key_file(&f, "correct horse").is_err());
}

#[test]
fn every_wrap_uses_a_fresh_salt_and_nonce() {
    let a = wrap_fast(&[3u8; KEY_LEN], "pw123456");
    let b = wrap_fast(&[3u8; KEY_LEN], "pw123456");
    assert_ne!(a.salt, b.salt);
    assert_ne!(a.nonce, b.nonce);
}

#[test]
fn out_of_range_kdf_parameters_are_refused_before_deriving() {
    let mut f = wrap_fast(&[3u8; KEY_LEN], "correct horse");
    f.m = KDF_MAX_M_KIB + 1;
    let err = unwrap_key_file(&f, "correct horse").unwrap_err();
    assert!(err.contains("out of range"));
}

#[test]
fn legacy_plaintext_file_is_recognized() {
    let key = vec![5u8; KEY_LEN];
    assert_eq!(parse_key_file_text(&format!("{}\n", b64(&key))).unwrap(), KeyFile::Legacy(key));
}

#[test]
fn vault_key_wins_over_any_file() {
    let k = vec![1u8; KEY_LEN];
    let p = probe(Ok(Some(k.clone())), Ok(KeyFile::Legacy(vec![2u8; KEY_LEN])));
    assert_eq!(decide(&p, true), Decision::UseVault(k));
    assert!(!p.needs_data_check());
}

#[test]
fn never_creates_a_key_over_existing_data() {
    assert_eq!(decide(&probe(Err("denied".into()), Ok(KeyFile::Missing)), true), Decision::KeyMissing);
    assert_eq!(decide(&probe(Ok(None), Ok(KeyFile::Missing)), true), Decision::KeyMissing);
}

#[test]
fn creates_a_key_only_when_nothing_exists() {
    assert_eq!(decide(&probe(Ok(None), Ok(KeyFile::Missing)), false), Decision::CreateNew);
    assert_eq!(decide(&probe(Err("no backend".into()), Ok(KeyFile::Missing)), false), Decision::CreateNew);
}

#[test]
fn file_states_map_to_locked_legacy_and_missing() {
    let k = vec![4u8; KEY_LEN];
    assert_eq!(decide(&probe(Ok(None), Ok(KeyFile::Wrapped("{}".into()))), false), Decision::FileLocked);
    assert_eq!(decide(&probe(Err("x".into()), Ok(KeyFile::Legacy(k.clone()))), false), Decision::Legacy(k));
    assert_eq!(decide(&probe(Ok(None), Err("corrupt".into())), false), Decision::KeyMissing);
}

#[test]
fn skipped_vault_never_leads_to_a_vault_write() {
    let p = Probe { vault: Ok(None), vault_skipped: true, file: Ok(KeyFile::Missing) };
    assert_eq!(decide(&p, false), Decision::CreateNewInFile);
    assert_eq!(decide(&p, true), Decision::KeyMissing);
}

#[test]
fn short_passwords_are_refused() {
    assert!(validate_new_password("1234567").is_err());
    assert!(validate_new_password("12345678").is_ok());
}

#[test]
fn password_length_counts_characters_not_bytes() {
    assert!(validate_new_password("äöüäöüä").is_err());
    assert!(validate_new_password("äöüäöüäö").is_ok());
    assert_eq!(validate_new_password("short").unwrap_err(), "Use at least 8 characters");
}

#[test]
fn targets_parse_and_unknown_ones_are_named() {
    assert_eq!(parse_target("vault").unwrap(), KeyLocation::Vault);
    assert_eq!(parse_target("file").unwrap(), KeyLocation::File);
    assert_eq!(parse_target("disk").unwrap_err(), "unknown key location \"disk\"");
}

#[test]
fn status_reports_each_state() {
    let mut store = KeyStore::new();
    let s = store.status();
    assert_eq!((s.mode, s.state, s.legacy), ("none", "key_missing", false));
    store.set_state(KeyState::NeedsPassword { legacy: true }, None, Some(vec![1u8; KEY_LEN]));
    let s = store.status();
    assert_eq!((s.mode, s.state, s.legacy), ("none", "needs_password", true));
    assert!(reflectodoro::keystore::is_locked(&store));
    store.set_state(KeyState::Unlocked(KeyLocation::File), Some(vec![1u8; KEY_LEN]), None);
    let s = store.status();
    assert_eq!((s.mode, s.state), ("password_file", "unlocked"));
    assert!(!reflectodoro::keystore::is_locked(&store));
    store.set_state(KeyState::FileLocked, None, None);
    assert_eq!(store.status().state, "locked");
}

#[test]
fn command_gates_follow_the_state() {
    assert_eq!(unlock_gate(Some(KeyState::Unlocked(KeyLocation::Vault))).unwrap(), false);
    assert_eq!(unlock_gate(Some(KeyState::FileLocked)).unwrap(), true);
    assert_eq!(unlock_gate(None).unwrap_err(), "There is no password-protected key file to unlock");
    assert!(reset_gate(Some(KeyState::KeyMissing)).is_ok());
    assert_eq!(
        reset_gate(Some(KeyState::Unlocked(KeyLocation::Vault))).unwrap_err(),
        "The key can only be reset while it's locked or missing"
    );
}

#[test]
fn a_vault_that_refuses_a_new_key_leads_to_a_password() {
    let fresh = vec![9u8; KEY_LEN];
    let o = apply_decision(Decision::CreateNew, fresh.clone(), false);
    assert_eq!(o.state, KeyState::NeedsPassword { legacy: false });
    assert_eq!(o.pending, Some(fresh.clone()));
    assert_eq!(o.remember, Some(KeyLocation::File));
    let o = apply_decision(Decision::CreateNew, fresh.clone(), true);
    assert_eq!(o.state, KeyState::Unlocked(KeyLocation::Vault));
    assert_eq!(o.key, Some(fresh));
}

#[test]
fn unsupported_formats_are_named() {
    let mut f = wrap_fast(&[3u8; KEY_LEN], "correct horse");
    f.v = 2;
    assert_eq!(unwrap_key_file(&f, "correct horse").unwrap_err(), "unsupported key file format (v2, argon2id)");
    let mut g = wrap_fast(&[3u8; KEY_LEN], "correct horse");
    g.nonce = b64(&[1u8; 12]);
    assert_eq!(unwrap_key_file(&g, "correct horse").unwrap_err(), "key file is corrupt (nonce length)");
}

#[test]
fn a_key_of_the_wrong_length_is_refused() {
    assert_eq!(
        reflectodoro::keystore::decode_key(&b64(&[1u8; 16])).unwrap_err(),
        "stored key is not the expected length"
    );
    assert!(parse_key_file_text("not base64 at all!").is_err());
    assert!(matches!(parse_key_file_text("  {\"v\":1}  ").unwrap(), KeyFile::Wrapped(ref w) if w == "{\"v\":1}"));
}

fn store_in(state: KeyState, key: Option<Vec<u8>>, pending: Option<Vec<u8>>) -> KeyStore {
    let mut s = KeyStore::new();
    s.set_state(state, key, pending);
    s
}

#[test]
fn password_and_location_gates_name_what_is_wrong() {
    let k = vec![9u8; KEY_LEN];
    let waiting = store_in(KeyState::NeedsPassword { legacy: true }, None, Some(k.clone()));
    assert_eq!(set_password_gate(&waiting).unwrap(), k);
    assert_eq!(
        set_password_gate(&store_in(KeyState::NeedsPassword { legacy: false }, None, None)).unwrap_err(),
        "no pending key"
    );
    let in_file = store_in(KeyState::Unlocked(KeyLocation::File), Some(k.clone()), None);
    assert_eq!(
        set_password_gate(&in_file).unwrap_err(),
        "The encryption key doesn't need a new password right now"
    );
    assert_eq!(unlocked_in_gate(&in_file, KeyLocation::File).unwrap(), k);
    assert_eq!(
        unlocked_in_gate(&in_file, KeyLocation::Vault).unwrap_err(),
        "The key isn't unlocked in the OS vault"
    );
    assert_eq!(
        unlocked_in_gate(&waiting, KeyLocation::File).unwrap_err(),
        "The key isn't in an unlocked password-protected file"
    );
    assert_eq!(migrate_to_vault_source(&in_file).unwrap(), k);
    assert_eq!(migrate_to_vault_source(&waiting).unwrap(), k);
    assert_eq!(
        migrate_to_vault_source(&store_in(KeyState::FileLocked, None, None)).unwrap_err(),
        "The key isn't available to move to the OS vault"
    );
}

#[test]
fn revealing_a_file_key_needs_its_password() {
    let k = vec![5u8; KEY_LEN];
    let in_file = store_in(KeyState::Unlocked(KeyLocation::File), Some(k.clone()), None);
    assert_eq!(reveal_gate(&in_file, false).unwrap_err(), "Enter the key file password to show the key");
    assert_eq!(reveal_gate(&in_file, true).unwrap(), (k.clone(), true));
    let in_vault = store_in(KeyState::Unlocked(KeyLocation::Vault), Some(k.clone()), None);
    assert_eq!(reveal_gate(&in_vault, false).unwrap(), (k, false));
    assert!(reveal_gate(&store_in(KeyState::FileLocked, None, None), true)
        .unwrap_err()
        .starts_with("KEY_LOCKED:"));
}

#[test]
fn retry_skip_vault_and_stored_locations() {
    assert!(!retry_needed(Some(KeyState::Unlocked(KeyLocation::Vault))));
    assert!(retry_needed(Some(KeyState::KeyMissing)));
    assert!(retry_needed(None));
    assert!(skip_vault(Some(KeyLocation::File), &Ok(KeyFile::Missing)));
    assert!(!skip_vault(Some(KeyLocation::Vault), &Ok(KeyFile::Wrapped("{}".into()))));
    assert!(!skip_vault(None, &Ok(KeyFile::Missing)));
    assert!(skip_vault(None, &Err("unreadable".into())));
    assert_eq!(location_from_setting(Some("vault")), Some(KeyLocation::Vault));
    assert_eq!(location_from_setting(Some("file")), Some(KeyLocation::File));
    assert_eq!(location_from_setting(Some("disk")), None);
    assert_eq!(location_from_setting(None), None);
    assert_eq!(location_setting_value(KeyLocation::Vault), "vault");
    assert_eq!(location_setting_value(KeyLocation::File), "file");
}

#[test]
fn new_key_files_need_a_long_enough_password() {
    assert!(require_file_password(KeyLocation::Vault, &None).is_ok());
    assert_eq!(
        require_file_password(KeyLocation::File, &None).unwrap_err(),
        "Choose a password for the key file"
    );
    assert!(require_file_password(KeyLocation::File, &Some("short".into())).is_err());
    assert!(require_file_password(KeyLocation::File, &Some("long enough".into())).is_ok());
}

#[test]
fn pasted_keys_lose_their_white_space_and_fresh_keys_are_full_length() {
    assert_eq!(compact_key_text(" ab c\n d\te\u{00A0}f "), "abcdef");
    assert_eq!(random_key().len(), KEY_LEN);
    assert_ne!(random_key(), random_key());
}

#[test]
fn a_failed_data_query_counts_as_encrypted_data() {
    assert!(!has_encrypted_data(&Ok(None)));
    assert!(has_encrypted_data(&Ok(Some("ct".to_string()))));
    assert!(has_encrypted_data(&Err("database is locked".to_string())));
}

#[test]
fn a_legacy_key_that_does_not_decrypt_the_data_sends_resolution_back_to_the_vault() {
    let legacy: Result<KeyFile, String> = Ok(KeyFile::Legacy(vec![7u8; 32]));
    let sample: Result<Option<String>, String> = Ok(Some("ct".to_string()));
    assert!(legacy_key_disproved(None, true, &legacy, &sample, false));
    assert!(!legacy_key_disproved(None, true, &legacy, &sample, true));
    assert!(!legacy_key_disproved(Some(KeyLocation::File), true, &legacy, &sample, false));
    assert!(!legacy_key_disproved(None, false, &legacy, &sample, false));
    assert!(!legacy_key_disproved(None, true, &legacy, &Ok(None), false));
    assert!(!legacy_key_disproved(None, true, &Ok(KeyFile::Missing), &sample, false));

    let mut probe = Probe { vault: Ok(None), vault_skipped: true, file: legacy };
    assert!(!vault_available_after(&probe));
    reask_vault(&mut probe, Ok(Some(vec![1u8; 32])));
    assert!(!probe.vault_skipped);
    assert!(vault_available_after(&probe));
    assert!(matches!(decide(&probe, true), Decision::UseVault(_)));
    reask_vault(&mut probe, Err("no keyring".to_string()));
    assert!(!vault_available_after(&probe));
}
