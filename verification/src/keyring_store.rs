//! The credential store: three named secrets under a fixed service name,
//! reached through the `keyring` crate (the OS keychain when one of its
//! platform-store features is enabled; its in-process store otherwise).
//!
//! The keychain calls stand behind trusted wrappers; which value a read
//! returns depends on the machine's keychain, so the wrappers promise
//! nothing of it. What is decided on the values — blank submissions,
//! absence, masking, post-write verification — is verified logic.

use vstd::prelude::*;

use crate::text::{mask_spec, starts_with_seq, trim_seq};
use crate::text::{mask_secret_chars, trim_str};
use crate::types::{KeyPresence, KeysInput};

verus! {

#[verifier::external_type_specification]
#[verifier::external_body]
pub struct ExEntry(keyring::Entry);

/// Relies on `keyring::Entry::new`: a handle to the keychain credential
/// under the service and account.
#[verifier::external_body]
fn kr_new_entry(service: &str, account: &str) -> (r: Result<keyring::Entry, String>) {
    keyring::Entry::new(service, account).map_err(|e| e.to_string())
}

/// Relies on `keyring::Entry::set_password`: stores a secret in the OS
/// keychain.
#[verifier::external_body]
fn kr_set_password(entry: &keyring::Entry, value: &str) -> (r: Result<(), String>) {
    entry.set_password(value).map_err(|e| e.to_string())
}

/// Relies on `keyring::Entry::get_password`: reads the stored secret; a
/// missing entry reads as `None`.
#[verifier::external_body]
fn kr_get_password(entry: &keyring::Entry) -> (r: Result<Option<String>, String>) {
    match entry.get_password() {
        Ok(value) => Ok(Some(value)),
        Err(keyring::Error::NoEntry) => Ok(None),
        Err(e) => Err(e.to_string()),
    }
}

/// Relies on `keyring::Entry::delete_credential`: removes the stored
/// secret; a missing entry is no error.
#[verifier::external_body]
fn kr_delete_credential(entry: &keyring::Entry) -> (r: Result<(), String>) {
    match entry.delete_credential() {
        Ok(()) => Ok(()),
        Err(keyring::Error::NoEntry) => Ok(()),
        Err(e) => Err(e.to_string()),
    }
}

/// The three credential values, each optional.
#[derive(Debug)]
pub struct KeyEnv {
    pub google_api_key: Option<String>,
    pub brave_api_key: Option<String>,
    pub gemini_api_key: Option<String>,
}

/// `***` followed by the last (up to) four characters of the secret.
pub fn mask_secret(secret: &str) -> (r: String)
    ensures
        r@ == mask_spec(secret@),
{
    mask_secret_chars(secret)
}

/// A submitted value counts only when its trimmed text is non-empty.
pub open spec fn spec_provided(v: Option<String>) -> bool {
    v matches Some(s) && trim_seq(s@).len() > 0
}

/// Whether a submitted credential value counts as provided.
pub fn is_provided(v: &Option<String>) -> (r: bool)
    ensures
        r == spec_provided(*v),
{
    match v {
        Some(s) => trim_str(s.as_str()).unicode_len() > 0,
        None => false,
    }
}

/// Writes one credential; blank values are ignored, not deleted.
fn set_value(entry: &keyring::Entry, account: &str, value: &str) -> (r: Result<(), String>)
    ensures
        trim_seq(value@).len() == 0 ==> r is Ok,
        r matches Err(m) ==> starts_with_seq(m@, "failed to store key '"@),
{
    if trim_str(value).unicode_len() == 0 {
        return Ok(());
    }
    match kr_set_password(entry, value) {
        Ok(()) => Ok(()),
        Err(e) => {
            let mut m = String::from_str("failed to store key '");
            m = m.concat(account);
            m = m.concat("': ");
            m = m.concat(e.as_str());
            proof {
                assert(m@.take("failed to store key '"@.len() as int) =~= "failed to store key '"@);
            }
            Err(m)
        },
    }
}

/// Reads one credential; a missing entry and a blank stored value both
/// read as absent.
fn get_value(entry: &keyring::Entry, account: &str) -> (r: Result<Option<String>, String>)
    ensures
        (match r {
            Ok(Some(v)) => trim_seq(v@).len() > 0,
            Ok(None) => true,
            Err(m) => starts_with_seq(m@, "failed to read key '"@),
        }),
{
    match kr_get_password(entry) {
        Ok(Some(value)) => {
            if trim_str(value.as_str()).unicode_len() > 0 {
                Ok(Some(value))
            } else {
                Ok(None)
            }
        },
        Ok(None) => Ok(None),
        Err(e) => {
            let mut m = String::from_str("failed to read key '");
            m = m.concat(account);
            m = m.concat("': ");
            m = m.concat(e.as_str());
            proof {
                assert(m@.take("failed to read key '"@.len() as int) =~= "failed to read key '"@);
            }
            Err(m)
        },
    }
}

/// Removes one credential; a missing entry is no error.
fn delete_value(entry: &keyring::Entry, account: &str) -> (r: Result<(), String>)
    ensures
        r matches Err(m) ==> starts_with_seq(m@, "failed to clear key '"@),
{
    match kr_delete_credential(entry) {
        Ok(()) => Ok(()),
        Err(e) => {
            let mut m = String::from_str("failed to clear key '");
            m = m.concat(account);
            m = m.concat("': ");
            m = m.concat(e.as_str());
            proof {
                assert(m@.take("failed to clear key '"@.len() as int) =~= "failed to clear key '"@);
            }
            Err(m)
        },
    }
}

/// The presence report of three read credential values: each flag says
/// whether the value is present, and each mask is the mask of exactly the
/// value that was read.
pub open spec fn spec_presence(
    google: Option<String>,
    brave: Option<String>,
    gemini: Option<String>,
    p: KeyPresence,
) -> bool {
    &&& p.google_api_key_set == (google is Some)
    &&& p.brave_api_key_set == (brave is Some)
    &&& p.gemini_api_key_set == (gemini is Some)
    &&& (match google {
        Some(v) => p.google_api_key_masked matches Some(m) && m@ == mask_spec(v@),
        None => p.google_api_key_masked is None,
    })
    &&& (match brave {
        Some(v) => p.brave_api_key_masked matches Some(m) && m@ == mask_spec(v@),
        None => p.brave_api_key_masked is None,
    })
    &&& (match gemini {
        Some(v) => p.gemini_api_key_masked matches Some(m) && m@ == mask_spec(v@),
        None => p.gemini_api_key_masked is None,
    })
}

/// Builds the presence report of three read credential values.
pub fn presence_of(
    google: Option<String>,
    brave: Option<String>,
    gemini: Option<String>,
) -> (r: KeyPresence)
    ensures
        spec_presence(google, brave, gemini, r),
{
    let google_api_key_set = google.is_some();
    let brave_api_key_set = brave.is_some();
    let gemini_api_key_set = gemini.is_some();
    let google_api_key_masked = match &google {
        Some(v) => Some(mask_secret(v.as_str())),
        None => None,
    };
    let brave_api_key_masked = match &brave {
        Some(v) => Some(mask_secret(v.as_str())),
        None => None,
    };
    let gemini_api_key_masked = match &gemini {
        Some(v) => Some(mask_secret(v.as_str())),
        None => None,
    };
    KeyPresence {
        google_api_key_set,
        brave_api_key_set,
        gemini_api_key_set,
        google_api_key_masked,
        brave_api_key_masked,
        gemini_api_key_masked,
    }
}

/// The error reported when a submitted key cannot be read back after the
/// write: one distinct message per submitted-but-missing key, the Google
/// key checked first, then Brave, then Gemini.
pub open spec fn spec_verify_error(
    google_provided: bool,
    brave_provided: bool,
    gemini_provided: bool,
    google_set: bool,
    brave_set: bool,
    gemini_set: bool,
) -> Option<Seq<char>> {
    if google_provided && !google_set {
        Some("Google API key was submitted but could not be verified from OS keychain."@)
    } else if brave_provided && !brave_set {
        Some("Brave Search API key was submitted but could not be verified from OS keychain."@)
    } else if gemini_provided && !gemini_set {
        Some("Gemini API key was submitted but could not be verified from OS keychain."@)
    } else {
        None
    }
}

/// Checks the post-write presence of the submitted keys.
pub fn verify_submitted(
    google_provided: bool,
    brave_provided: bool,
    gemini_provided: bool,
    presence: &KeyPresence,
) -> (r: Result<(), String>)
    ensures
        (match r {
            Ok(()) => spec_verify_error(
                google_provided,
                brave_provided,
                gemini_provided,
                presence.google_api_key_set,
                presence.brave_api_key_set,
                presence.gemini_api_key_set,
            ) is None,
            Err(m) => spec_verify_error(
                google_provided,
                brave_provided,
                gemini_provided,
                presence.google_api_key_set,
                presence.brave_api_key_set,
                presence.gemini_api_key_set,
            ) == Some(m@),
        }),
{
    if google_provided && !presence.google_api_key_set {
        return Err(
            String::from_str(
                "Google API key was submitted but could not be verified from OS keychain.",
            ),
        );
    }
    if brave_provided && !presence.brave_api_key_set {
        return Err(
            String::from_str(
                "Brave Search API key was submitted but could not be verified from OS keychain.",
            ),
        );
    }
    if gemini_provided && !presence.gemini_api_key_set {
        return Err(
            String::from_str(
                "Gemini API key was submitted but could not be verified from OS keychain.",
            ),
        );
    }
    Ok(())
}

/// The credential store: handles to the three keychain entries under the
/// fixed service name.
#[derive(Debug)]
pub struct KeyStore {
    google: keyring::Entry,
    brave: keyring::Entry,
    gemini: keyring::Entry,
}

impl KeyStore {
    /// Opens handles to the three credentials.
    pub fn new() -> (r: Result<KeyStore, String>) {
        let google = match kr_new_entry("project-validator-search", "google_api_key") {
            Ok(e) => e,
            Err(e) => {
                return Err(e);
            },
        };
        let brave = match kr_new_entry("project-validator-search", "brave_search_api_key") {
            Ok(e) => e,
            Err(e) => {
                return Err(e);
            },
        };
        let gemini = match kr_new_entry("project-validator-search", "gemini_api_key") {
            Ok(e) => e,
            Err(e) => {
                return Err(e);
            },
        };
        Ok(KeyStore { google, brave, gemini })
    }

    /// Upserts every provided (non-blank) submitted value, then reads the
    /// store back: on success the read-back presence, in which every
    /// submitted key shows as stored; on failure either a store/read
    /// error, or the fixed verification message of the first submitted
    /// key (Google, then Brave, then Gemini) that did not read back.
    pub fn set_keys(&self, keys: KeysInput) -> (r: Result<KeyPresence, String>)
        ensures
            (match r {
                Ok(p) => {
                    &&& spec_verify_error(
                        spec_provided(keys.google_api_key),
                        spec_provided(keys.brave_api_key),
                        spec_provided(keys.gemini_api_key),
                        p.google_api_key_set,
                        p.brave_api_key_set,
                        p.gemini_api_key_set,
                    ) is None
                    &&& (spec_provided(keys.google_api_key) ==> p.google_api_key_set)
                    &&& (spec_provided(keys.brave_api_key) ==> p.brave_api_key_set)
                    &&& (spec_provided(keys.gemini_api_key) ==> p.gemini_api_key_set)
                    &&& p.google_api_key_set == (p.google_api_key_masked is Some)
                    &&& p.brave_api_key_set == (p.brave_api_key_masked is Some)
                    &&& p.gemini_api_key_set == (p.gemini_api_key_masked is Some)
                },
                Err(m) => {
                    ||| starts_with_seq(m@, "failed to store key '"@)
                    ||| starts_with_seq(m@, "failed to read key '"@)
                    ||| exists|gs: bool, bs: bool, gms: bool|
                        #[trigger] spec_verify_error(
                            spec_provided(keys.google_api_key),
                            spec_provided(keys.brave_api_key),
                            spec_provided(keys.gemini_api_key),
                            gs,
                            bs,
                            gms,
                        ) == Some(m@)
                },
            }),
    {
        let google_provided = is_provided(&keys.google_api_key);
        let brave_provided = is_provided(&keys.brave_api_key);
        let gemini_provided = is_provided(&keys.gemini_api_key);

        if let Some(value) = &keys.google_api_key {
            if let Err(e) = set_value(&self.google, "google_api_key", value.as_str()) {
                return Err(e);
            }
        }
        if let Some(value) = &keys.brave_api_key {
            if let Err(e) = set_value(&self.brave, "brave_search_api_key", value.as_str()) {
                return Err(e);
            }
        }
        if let Some(value) = &keys.gemini_api_key {
            if let Err(e) = set_value(&self.gemini, "gemini_api_key", value.as_str()) {
                return Err(e);
            }
        }

        let presence = match self.key_presence() {
            Ok(p) => p,
            Err(e) => {
                return Err(e);
            },
        };
        match verify_submitted(google_provided, brave_provided, gemini_provided, &presence) {
            Ok(()) => Ok(presence),
            Err(m) => {
                proof {
                    let gs = presence.google_api_key_set;
                    let bs = presence.brave_api_key_set;
                    let gms = presence.gemini_api_key_set;
                    assert(spec_verify_error(
                        spec_provided(keys.google_api_key),
                        spec_provided(keys.brave_api_key),
                        spec_provided(keys.gemini_api_key),
                        gs,
                        bs,
                        gms,
                    ) == Some(m@));
                }
                Err(m)
            },
        }
    }

    /// Removes all three credentials; missing entries are no error.
    pub fn clear_keys(&self) -> (r: Result<(), String>)
        ensures
            r matches Err(m) ==> starts_with_seq(m@, "failed to clear key '"@),
    {
        if let Err(e) = delete_value(&self.google, "google_api_key") {
            return Err(e);
        }
        if let Err(e) = delete_value(&self.brave, "brave_search_api_key") {
            return Err(e);
        }
        if let Err(e) = delete_value(&self.gemini, "gemini_api_key") {
            return Err(e);
        }
        Ok(())
    }

    /// Reads the three credential values for environment injection; a
    /// returned value always has non-blank trimmed text (missing entries
    /// and blank stored values both read as absent).
    pub fn read_env_values(&self) -> (r: Result<KeyEnv, String>)
        ensures
            (match r {
                Ok(env) => {
                    &&& (env.google_api_key matches Some(v) ==> trim_seq(v@).len() > 0)
                    &&& (env.brave_api_key matches Some(v) ==> trim_seq(v@).len() > 0)
                    &&& (env.gemini_api_key matches Some(v) ==> trim_seq(v@).len() > 0)
                },
                Err(m) => starts_with_seq(m@, "failed to read key '"@),
            }),
    {
        let google_api_key = match get_value(&self.google, "google_api_key") {
            Ok(v) => v,
            Err(e) => {
                return Err(e);
            },
        };
        let brave_api_key = match get_value(&self.brave, "brave_search_api_key") {
            Ok(v) => v,
            Err(e) => {
                return Err(e);
            },
        };
        let gemini_api_key = match get_value(&self.gemini, "gemini_api_key") {
            Ok(v) => v,
            Err(e) => {
                return Err(e);
            },
        };
        Ok(KeyEnv { google_api_key, brave_api_key, gemini_api_key })
    }

    /// Which credentials are stored, each with a mask of exactly the
    /// value that was read; stored values are non-blank by construction.
    pub fn key_presence(&self) -> (r: Result<KeyPresence, String>)
        ensures
            (match r {
                Ok(p) => exists|google: Option<String>, brave: Option<String>, gemini: Option<
                    String,
                >|
                    {
                        &&& #[trigger] spec_presence(google, brave, gemini, p)
                        &&& (google matches Some(v) ==> trim_seq(v@).len() > 0)
                        &&& (brave matches Some(v) ==> trim_seq(v@).len() > 0)
                        &&& (gemini matches Some(v) ==> trim_seq(v@).len() > 0)
                    },
                Err(m) => starts_with_seq(m@, "failed to read key '"@),
            }),
            (match r {
                Ok(p) => {
                    &&& p.google_api_key_set == (p.google_api_key_masked is Some)
                    &&& p.brave_api_key_set == (p.brave_api_key_masked is Some)
                    &&& p.gemini_api_key_set == (p.gemini_api_key_masked is Some)
                },
                Err(_) => true,
            }),
    {
        let google = match get_value(&self.google, "google_api_key") {
            Ok(v) => v,
            Err(e) => {
                return Err(e);
            },
        };
        let brave = match get_value(&self.brave, "brave_search_api_key") {
            Ok(v) => v,
            Err(e) => {
                return Err(e);
            },
        };
        let gemini = match get_value(&self.gemini, "gemini_api_key") {
            Ok(v) => v,
            Err(e) => {
                return Err(e);
            },
        };
        let ghost g = google;
        let ghost b = brave;
        let ghost gm = gemini;
        let p = presence_of(google, brave, gemini);
        proof {
            assert(spec_presence(g, b, gm, p));
        }
        Ok(p)
    }
}

} // verus!
