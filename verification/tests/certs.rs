use kitchen_table::keychain::{describe, Keychain, WriteOutcome, ERR_SEC_DUPLICATE_ITEM, ERR_SEC_INTERACTION_NOT_ALLOWED, ERR_SEC_ITEM_NOT_FOUND, ERR_SEC_SUCCESS};
use kitchen_table::secret::{check_name, FileStore, MemoryStore, SecretError, SecretStore};
use kitchen_table::startup::{key_plan, resolve_keys, KeyPlan, SESSION_KEY};

fn behaves_like_a_store(store: &mut dyn SecretStore) {
    assert!(
        store.get("session-key").expect("reads").is_none(),
        "nothing is stored before anything is stored"
    );

    store.set("session-key", &[7u8; 32]).expect("writes");
    assert_eq!(store.get("session-key").expect("reads"), Some(vec![7u8; 32]));

    store.set("session-key", &[9u8; 32]).expect("overwrites");
    assert_eq!(store.get("session-key").expect("reads"), Some(vec![9u8; 32]));

    store.set("ca-key", &[1u8; 8]).expect("writes");
    assert_eq!(store.get("session-key").expect("reads"), Some(vec![9u8; 32]));
    assert_eq!(store.get("ca-key").expect("reads"), Some(vec![1u8; 8]));
}

#[test]
fn a_memory_store_behaves_like_a_store() {
    behaves_like_a_store(&mut MemoryStore::new());
}

#[test]
fn a_refusing_store_reports_it_rather_than_pretending_to_be_empty() {
    let mut store = MemoryStore::failing("the keychain is locked");
    assert!(store.get("session-key").is_err());
    assert!(store.set("session-key", &[0u8; 32]).is_err());
}

#[test]
fn a_name_that_would_escape_the_directory_is_refused() {
    let store = FileStore::new("/tmp/kt-secret-names");
    for bad in ["../escape", "a/b", "", "UPPER", "with space", "dot.dot"] {
        assert!(check_name(bad).is_err(), "{bad:?} should not be a usable name");
        assert!(store.path(bad).is_err(), "{bad:?} should not be readable");
    }
    assert!(check_name("session-key").is_ok());
}

#[test]
fn a_file_store_keeps_each_secret_in_its_own_file() {
    let store = FileStore::new("/var/lib/kt");
    assert_eq!(store.path("session-key").expect("valid"), "/var/lib/kt/secrets/session-key.key");
}

#[test]
fn a_refusal_names_its_reason() {
    match check_name("a/b") {
        Err(SecretError::BadName(name)) => assert_eq!(name, "a/b"),
        other => panic!("unexpected: {other:?}"),
    }
}

// ---- the Keychain ----------------------------------------------------------

#[test]
fn statuses_are_described_with_their_code() {
    assert!(describe(ERR_SEC_INTERACTION_NOT_ALLOWED).contains("-25308"));
    assert!(describe(ERR_SEC_INTERACTION_NOT_ALLOWED).contains("locked"));
    assert!(describe(-1).contains("-1"));
}

#[test]
fn a_status_reads_as_its_meaning_then_its_code() {
    assert_eq!(describe(-25293), "authentication failed (OSStatus -25293)");
    assert_eq!(describe(-128), "the request was cancelled (OSStatus -128)");
    assert_eq!(describe(7), "unexpected keychain error (OSStatus 7)");
}

#[test]
fn a_missing_item_is_nothing_and_a_duplicate_is_replaced() {
    assert_eq!(Keychain::read_outcome(ERR_SEC_ITEM_NOT_FOUND, None).expect("not an error"), None);
    assert_eq!(
        Keychain::read_outcome(ERR_SEC_SUCCESS, Some(vec![1, 2, 3])).expect("reads"),
        Some(vec![1, 2, 3])
    );
    assert!(Keychain::read_outcome(-25293, None).is_err());
    assert!(matches!(Keychain::write_outcome(ERR_SEC_SUCCESS), WriteOutcome::Stored));
    assert!(matches!(Keychain::write_outcome(ERR_SEC_DUPLICATE_ITEM), WriteOutcome::Replace));
    assert!(matches!(Keychain::write_outcome(-25308), WriteOutcome::Failed(SecretError::Keystore(_))));
    assert!(Keychain::replace_outcome(0, Some(0)).is_ok());
    assert!(Keychain::replace_outcome(-25300, None).is_err());
    assert_eq!(Keychain::new().describe(), "the Keychain");
}

// ---- the session key -------------------------------------------------------

#[test]
fn the_first_run_saves_a_key() {
    let mut store = MemoryStore::new();
    let keys = resolve_keys(&mut store).expect("randomness");

    let saved = store.get(SESSION_KEY).expect("reads").expect("was saved");
    assert_eq!(saved.len(), 32);
    assert_eq!(saved, keys.to_bytes().to_vec(), "saved the key it is actually using");
}

#[test]
fn the_second_run_reuses_the_first_runs_key() {
    let mut store = MemoryStore::new();
    let device = kitchen_table::device::DeviceId::generate().expect("randomness");

    let cookie = resolve_keys(&mut store).expect("randomness").mint(&device, 1_700_000_000);
    let after_restart = resolve_keys(&mut store).expect("randomness");

    let token = after_restart.verify(&cookie, 1_700_000_000).expect("the cookie survives a restart");
    assert_eq!(token.device, device);
}

#[test]
fn a_keystore_that_refuses_still_yields_a_working_daemon() {
    let mut store = MemoryStore::failing("the keychain is locked");
    let keys = resolve_keys(&mut store).expect("randomness");
    let device = kitchen_table::device::DeviceId::generate().expect("randomness");
    let cookie = keys.mint(&device, 1_700_000_000);
    assert!(keys.verify(&cookie, 1_700_000_000).is_ok());
}

#[test]
fn a_stored_key_of_the_wrong_size_is_replaced() {
    assert!(matches!(key_plan(&Ok(Some(vec![1u8; 31]))), KeyPlan::Generate { save: true }));
    assert!(matches!(key_plan(&Ok(None)), KeyPlan::Generate { save: true }));
    assert!(matches!(
        key_plan(&Err(SecretError::Keystore("locked".into()))),
        KeyPlan::Generate { save: false }
    ));
    match key_plan(&Ok(Some(vec![5u8; 32]))) {
        KeyPlan::Use(seed) => assert_eq!(seed, [5u8; 32]),
        other => panic!("unexpected: {other:?}"),
    }
}
