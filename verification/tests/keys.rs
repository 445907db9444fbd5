//! Masking and the credential round trip (against the in-process mock
//! keychain the `keyring` crate falls back to when no platform store is
//! compiled in).

use desktop_core::keyring_store::{mask_secret, KeyStore};
use desktop_core::types::KeysInput;

#[test]
fn mask_secret_keeps_last_four() {
    assert_eq!(mask_secret("abcdef1234"), "***1234");
    assert_eq!(mask_secret("abc"), "***abc");
}

#[test]
fn mask_secret_edges() {
    assert_eq!(mask_secret(""), "***");
    assert_eq!(mask_secret("wxyz"), "***wxyz");
}

#[test]
fn credential_round_trip() {
    let store = KeyStore::new().expect("open key store");
    let written = store
        .set_keys(KeysInput {
            google_api_key: Some("AAAAZZZZ".to_string()),
            brave_api_key: None,
            gemini_api_key: None,
        })
        .expect("set_keys");
    assert!(written.google_api_key_set, "set_keys returns the read-back presence");

    let presence = store.key_presence().expect("presence");
    assert!(presence.google_api_key_set);
    assert!(!presence.brave_api_key_set);
    assert!(!presence.gemini_api_key_set);
    assert_eq!(presence.google_api_key_masked.as_deref(), Some("***ZZZZ"));
    assert_eq!(presence.brave_api_key_masked, None);

    let env = store.read_env_values().expect("env");
    assert_eq!(env.google_api_key.as_deref(), Some("AAAAZZZZ"));
    assert_eq!(env.brave_api_key, None);

    store.clear_keys().expect("clear");
    let presence = store.key_presence().expect("presence after clear");
    assert!(!presence.google_api_key_set);
    assert_eq!(presence.google_api_key_masked, None);
}

#[test]
fn blank_submissions_are_ignored() {
    let store = KeyStore::new().expect("open key store");
    store.clear_keys().expect("clear");
    let presence = store
        .set_keys(KeysInput {
            google_api_key: Some("   ".to_string()),
            brave_api_key: None,
            gemini_api_key: None,
        })
        .expect("a blank submission is ignored, not an error");
    assert!(!presence.google_api_key_set, "a blank value must not be stored");
}
