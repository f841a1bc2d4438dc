//! Where the desktop at-rest key lives (the OS vault, or a password-
//! protected key file) and the rules around it: which key a launch uses,
//! when a new key may be generated (never over existing encrypted data),
//! what each key-management command accepts in which state, and what the
//! settings card is told. The vault, the file system and the database are
//! reached outside; their answers come in here as plain values.
use vstd::prelude::*;

use base64::Engine;
use chacha20poly1305::aead::{Aead, AeadCore, KeyInit, Payload};
use chacha20poly1305::aead::rand_core::RngCore;
use zeroize::Zeroize;

use crate::text::{concat, decimal_spec, str_lt, u64_text, unicode_white_space};

verus! {

/// Length of the at-rest key, in bytes.
pub const KEY_LEN: usize = 32;

/// Shortest password a key file may be protected with, in characters.
pub const MIN_PASSWORD_CHARS: usize = 8;

/// Upper bounds accepted when reading a key file's Argon2 parameters.
pub const KDF_MAX_M_KIB: u32 = 1024 * 1024;
pub const KDF_MAX_T: u32 = 16;
pub const KDF_MAX_P: u32 = 16;

/// Length of the XChaCha20-Poly1305 nonce stored in a key file.
pub const NONCE_LEN: usize = 24;

#[derive(Clone, Copy, Debug, PartialEq, Eq, Structural)]
pub enum KeyLocation {
    Vault,
    File,
}

#[derive(Clone, Copy, Debug, PartialEq, Eq, Structural)]
pub enum KeyState {
    Unlocked(KeyLocation),
    /// A wrapped key file exists and the vault has no key: needs the password.
    FileLocked,
    /// A key is in hand but not stored anywhere acceptable yet.
    NeedsPassword { legacy: bool },
    /// No usable key anywhere, but the database already holds ciphertext.
    KeyMissing,
}

/// What was found in the key file.
#[derive(Clone, Debug, PartialEq, Eq)]
pub enum KeyFile {
    Missing,
    /// A pre-password file: the raw key as base64.
    Legacy(Vec<u8>),
    /// The JSON body of a password-wrapped key file.
    Wrapped(String),
}

/// What resolution learned: the vault's answer (an error when it could not
/// be reached), whether the vault was deliberately not asked, and the key
/// file's state (an error when it was unreadable or corrupt).
#[derive(Debug)]
pub struct Probe {
    pub vault: Result<Option<Vec<u8>>, String>,
    pub vault_skipped: bool,
    pub file: Result<KeyFile, String>,
}

#[derive(Clone, Debug, PartialEq, Eq)]
pub enum Decision {
    UseVault(Vec<u8>),
    FileLocked,
    Legacy(Vec<u8>),
    KeyMissing,
    CreateNew,
    /// Nothing to lose and the vault is off-limits: a new key that goes
    /// straight to a password-protected file.
    CreateNewInFile,
}

impl Probe {
    pub open spec fn vault_has_key(&self) -> bool {
        self.vault matches Ok(Some(_))
    }

    pub open spec fn file_missing(&self) -> bool {
        self.file matches Ok(KeyFile::Missing)
    }

    /// Only worth asking the database for encrypted data when no key was
    /// found at all.
    pub fn needs_data_check(&self) -> (r: bool)
        ensures
            r == (!self.vault_has_key() && self.file_missing()),
    {
        let vault_key = match &self.vault {
            Ok(Some(_)) => true,
            _ => false,
        };
        let missing = match &self.file {
            Ok(KeyFile::Missing) => true,
            _ => false,
        };
        !vault_key && missing
    }
}

/// The kinds of decision, without their keys.
#[derive(Clone, Copy, Debug, PartialEq, Eq, Structural)]
pub enum DecisionKind {
    UseVault,
    FileLocked,
    Legacy,
    KeyMissing,
    CreateNew,
    CreateNewInFile,
}

/// Which key a launch uses. The vault wins when it holds a key; an
/// unreadable or corrupt file is never overwritten; a wrapped file needs
/// its password; a legacy file is used but must be given one; and a new
/// key is only ever created when there is no key file and no encrypted
/// data -- in a file when the vault was deliberately skipped.
pub open spec fn decide_spec(probe: Probe, has_encrypted_data: bool) -> DecisionKind {
    match probe.vault {
        Ok(Some(_)) => DecisionKind::UseVault,
        _ => match probe.file {
            Err(_) => DecisionKind::KeyMissing,
            Ok(KeyFile::Wrapped(_)) => DecisionKind::FileLocked,
            Ok(KeyFile::Legacy(_)) => DecisionKind::Legacy,
            Ok(KeyFile::Missing) => if has_encrypted_data {
                DecisionKind::KeyMissing
            } else if probe.vault_skipped {
                DecisionKind::CreateNewInFile
            } else {
                DecisionKind::CreateNew
            },
        },
    }
}

impl Decision {
    pub open spec fn kind(self) -> DecisionKind {
        match self {
            Decision::UseVault(_) => DecisionKind::UseVault,
            Decision::FileLocked => DecisionKind::FileLocked,
            Decision::Legacy(_) => DecisionKind::Legacy,
            Decision::KeyMissing => DecisionKind::KeyMissing,
            Decision::CreateNew => DecisionKind::CreateNew,
            Decision::CreateNewInFile => DecisionKind::CreateNewInFile,
        }
    }
}

pub fn decide(probe: &Probe, has_encrypted_data: bool) -> (r: Decision)
    ensures
        r.kind() == decide_spec(*probe, has_encrypted_data),
        r matches Decision::UseVault(k) ==> (probe.vault matches Ok(Some(v)) && k@ == v@),
        r matches Decision::Legacy(k) ==> (probe.file matches Ok(KeyFile::Legacy(v)) && k@ == v@),
{
    if let Ok(Some(k)) = &probe.vault {
        return Decision::UseVault(k.clone());
    }
    match &probe.file {
        Err(_) => Decision::KeyMissing,
        Ok(KeyFile::Wrapped(_)) => Decision::FileLocked,
        Ok(KeyFile::Legacy(k)) => Decision::Legacy(k.clone()),
        Ok(KeyFile::Missing) => {
            if has_encrypted_data {
                Decision::KeyMissing
            } else if probe.vault_skipped {
                Decision::CreateNewInFile
            } else {
                Decision::CreateNew
            }
        },
    }
}

/// The rule the key store exists for: with encrypted data in the database,
/// no decision ever creates a key.
pub proof fn lemma_never_creates_over_data(probe: Probe)
    ensures
        decide_spec(probe, true) != DecisionKind::CreateNew,
        decide_spec(probe, true) != DecisionKind::CreateNewInFile,
{
}

/// A password-protected key file is always offered for unlock: when the
/// vault holds no key and the key file is a wrapped one, the key is locked
/// in its file -- whether or not the vault was asked, and whatever the
/// database holds.
pub proof fn lemma_wrapped_file_is_locked_not_missing(probe: Probe, has_data: bool)
    requires
        !(probe.vault matches Ok(Some(_))),
        probe.file matches Ok(KeyFile::Wrapped(_)),
    ensures
        decide_spec(probe, has_data) == DecisionKind::FileLocked,
        decide_spec(probe, has_data) != DecisionKind::KeyMissing,
{
}

/// A skipped vault is never written to: with the vault off-limits, a new
/// key can only go to a file.
pub proof fn lemma_skipped_vault_never_written(probe: Probe, has_data: bool)
    requires
        probe.vault_skipped,
    ensures
        decide_spec(probe, has_data) != DecisionKind::CreateNew,
{
}

/// When the database must be asked about existing data, the decision is
/// exactly one of "key missing" and a new key.
pub proof fn lemma_data_check_decides_creation(probe: Probe, has_data: bool)
    requires
        !probe.vault_has_key() && probe.file_missing(),
    ensures
        has_data <==> decide_spec(probe, has_data) == DecisionKind::KeyMissing,
{
}

/// Whether resolution leaves the vault alone: a remembered "file" says so,
/// a remembered "vault" says not; with nothing remembered, any key file
/// other than a missing one (which only ever appeared after the vault
/// failed) keeps the vault unasked.
pub open spec fn skip_vault_spec(flag: Option<KeyLocation>, file_missing: bool) -> bool {
    match flag {
        Some(KeyLocation::File) => true,
        Some(KeyLocation::Vault) => false,
        None => !file_missing,
    }
}

pub fn skip_vault(flag: Option<KeyLocation>, file: &Result<KeyFile, String>) -> (r: bool)
    ensures
        r == skip_vault_spec(flag, file matches Ok(KeyFile::Missing)),
{
    match flag {
        Some(KeyLocation::File) => true,
        Some(KeyLocation::Vault) => false,
        None => match file {
            Ok(KeyFile::Missing) => false,
            _ => true,
        },
    }
}

/// Whether the database holds encrypted data, from the sampling query's
/// answer: a sample found means yes, none found means no, and a query that
/// failed counts as yes, so a key is never generated over rows it cannot
/// read.
pub fn has_encrypted_data(sample: &Result<Option<String>, String>) -> (r: bool)
    ensures
        r == !(sample matches Ok(None)),
{
    match sample {
        Ok(None) => false,
        _ => true,
    }
}

/// Whether a plaintext key file found on an install with no remembered
/// location must be proven before the vault is skipped for good: only when
/// the vault was going to be skipped, the file is a legacy key, a sample of
/// encrypted data exists, and that key does not decrypt it (`decrypts`: the
/// outcome of decrypting the sample with the file's key). Then the vault is
/// asked after all.
pub fn legacy_key_disproved(
    flag: Option<KeyLocation>,
    skipping_vault: bool,
    file: &Result<KeyFile, String>,
    sample: &Result<Option<String>, String>,
    decrypts: bool,
) -> (r: bool)
    ensures
        r == (flag is None && skipping_vault && (file matches Ok(KeyFile::Legacy(_))) && (sample matches Ok(
            Some(_),
        )) && !decrypts),
{
    let legacy = match file {
        Ok(KeyFile::Legacy(_)) => true,
        _ => false,
    };
    let sampled = match sample {
        Ok(Some(_)) => true,
        _ => false,
    };
    flag.is_none() && skipping_vault && legacy && sampled && !decrypts
}

/// The probe after a disproved legacy key: the vault is no longer skipped,
/// and its answer (asked again) is what counts.
pub fn reask_vault(probe: &mut Probe, vault: Result<Option<Vec<u8>>, String>)
    ensures
        !final(probe).vault_skipped,
        final(probe).vault == vault,
        final(probe).file == old(probe).file,
{
    probe.vault_skipped = false;
    probe.vault = vault;
}

/// Whether the vault counts as available after resolution: it was asked,
/// and it answered.
pub fn vault_available_after(probe: &Probe) -> (r: bool)
    ensures
        r == (!probe.vault_skipped && probe.vault is Ok),
{
    !probe.vault_skipped && probe.vault.is_ok()
}

/// The remembered location, as stored in `app_setting`.
pub fn location_from_setting(value: Option<&str>) -> (r: Option<KeyLocation>)
    ensures
        r == (match value {
            Some(v) => if v@ == "vault"@ {
                Some(KeyLocation::Vault)
            } else if v@ == "file"@ {
                Some(KeyLocation::File)
            } else {
                None
            },
            None => None,
        }),
{
    match value {
        Some(v) => {
            let s = v.to_owned();
            let vault = String::from_str("vault");
            let file = String::from_str("file");
            proof {
                reveal_strlit("vault");
                reveal_strlit("file");
            }
            if s == vault {
                Some(KeyLocation::Vault)
            } else if s == file {
                Some(KeyLocation::File)
            } else {
                None
            }
        },
        None => None,
    }
}

pub fn location_setting_value(location: KeyLocation) -> (r: &'static str)
    ensures
        location == KeyLocation::Vault ==> r@ == "vault"@,
        location == KeyLocation::File ==> r@ == "file"@,
{
    match location {
        KeyLocation::Vault => "vault",
        KeyLocation::File => "file",
    }
}

/// What the settings card and the unlock modal are told.
#[derive(Clone, Copy, Debug)]
pub struct KeyStorageStatus {
    /// "vault" | "password_file" | "keystore" (Android) | "none" (not settled)
    pub mode: &'static str,
    /// "unlocked" | "locked" | "needs_password" | "key_missing"
    pub state: &'static str,
    /// Needs a password because a pre-password plaintext key file was found.
    pub legacy: bool,
    /// Whether the OS vault answered the last time it was asked.
    pub vault_available: bool,
}

/// The status of a key store state (`None`: not resolved yet).
pub open spec fn status_spec(state: Option<KeyState>) -> (Seq<char>, Seq<char>, bool) {
    match state {
        Some(KeyState::Unlocked(KeyLocation::Vault)) => ("vault"@, "unlocked"@, false),
        Some(KeyState::Unlocked(KeyLocation::File)) => ("password_file"@, "unlocked"@, false),
        Some(KeyState::FileLocked) => ("password_file"@, "locked"@, false),
        Some(KeyState::NeedsPassword { legacy }) => ("none"@, "needs_password"@, legacy),
        Some(KeyState::KeyMissing) => ("none"@, "key_missing"@, false),
        None => ("none"@, "key_missing"@, false),
    }
}

/// The in-memory key store of one process.
#[derive(Clone, Debug)]
pub struct KeyStore {
    /// `None` until the first resolution finishes.
    pub state: Option<KeyState>,
    /// Set exactly when `state` is `Unlocked`.
    pub key: Option<Vec<u8>>,
    pub pending: Option<Vec<u8>>,
    pub vault_available: bool,
    /// Resolved and not unlocked.
    pub locked: bool,
}

impl KeyStore {
    /// The store's invariant: locked exactly when a state was resolved and
    /// it is not an unlocked one.
    pub open spec fn wf(self) -> bool {
        self.locked == (self.state matches Some(s) && !(s is Unlocked))
    }

    pub fn new() -> (r: Self)
        ensures
            r.wf(),
            r.state is None,
            r.key is None,
            r.pending is None,
            !r.vault_available,
            !r.locked,
    {
        KeyStore { state: None, key: None, pending: None, vault_available: false, locked: false }
    }

    /// Records a new state with its key and pending key; locked unless the
    /// state is unlocked.
    pub fn set_state(&mut self, state: KeyState, key: Option<Vec<u8>>, pending: Option<Vec<u8>>)
        ensures
            final(self).state == Some(state),
            final(self).key == key,
            final(self).pending == pending,
            final(self).vault_available == old(self).vault_available,
            final(self).locked == !(state is Unlocked),
            final(self).wf(),
    {
        self.state = Some(state);
        self.key = key;
        self.pending = pending;
        self.locked = match state {
            KeyState::Unlocked(_) => false,
            _ => true,
        };
    }

    pub fn set_vault_available(&mut self, available: bool)
        ensures
            final(self).vault_available == available,
            final(self).state == old(self).state,
            final(self).key == old(self).key,
            final(self).pending == old(self).pending,
            final(self).locked == old(self).locked,
            old(self).wf() ==> final(self).wf(),
    {
        self.vault_available = available;
    }

    pub fn current_state(&self) -> (r: Option<KeyState>)
        ensures
            r == self.state,
    {
        self.state
    }

    pub fn current_key(&self) -> (r: Option<Vec<u8>>)
        ensures
            match self.key {
                Some(k) => r matches Some(c) && c@ == k@,
                None => r is None,
            },
    {
        match &self.key {
            Some(k) => Some(k.clone()),
            None => None,
        }
    }

    pub fn status(&self) -> (r: KeyStorageStatus)
        ensures
            r.mode@ == status_spec(self.state).0,
            r.state@ == status_spec(self.state).1,
            r.legacy == status_spec(self.state).2,
            r.vault_available == self.vault_available,
    {
        let (mode, state, legacy): (&'static str, &'static str, bool) = match self.state {
            Some(KeyState::Unlocked(KeyLocation::Vault)) => ("vault", "unlocked", false),
            Some(KeyState::Unlocked(KeyLocation::File)) => ("password_file", "unlocked", false),
            Some(KeyState::FileLocked) => ("password_file", "locked", false),
            Some(KeyState::NeedsPassword { legacy }) => ("none", "needs_password", legacy),
            Some(KeyState::KeyMissing) => ("none", "key_missing", false),
            None => ("none", "key_missing", false),
        };
        KeyStorageStatus { mode, state, legacy, vault_available: self.vault_available }
    }
}

/// Whether the key is resolved and not unlocked (readable without waiting,
/// by the screen-time flush path).
pub fn is_locked(store: &KeyStore) -> (r: bool)
    ensures
        r == store.locked,
        store.wf() ==> (r <==> (store.state matches Some(s) && !(s is Unlocked))),
{
    store.locked
}

/// What resolution does with a decision (for `CreateNew`, with whether the
/// vault kept the new key): the state to enter, and the location to
/// remember, if any.
#[derive(Clone, Debug)]
pub struct ResolutionOutcome {
    pub state: KeyState,
    pub key: Option<Vec<u8>>,
    pub pending: Option<Vec<u8>>,
    pub remember: Option<KeyLocation>,
    /// A new value for `vault_available`, when the outcome tells.
    pub vault_available: Option<bool>,
}

/// Applies a decision. `fresh` is the newly generated key (used by the two
/// creating decisions), `vault_kept` whether the vault verified storing it
/// (asked for `CreateNew` only).
pub fn apply_decision(decision: Decision, fresh: Vec<u8>, vault_kept: bool) -> (r: ResolutionOutcome)
    ensures
        decision matches Decision::UseVault(k) ==> r.state == KeyState::Unlocked(KeyLocation::Vault)
            && r.key == Some(k) && r.pending is None && r.remember == Some(KeyLocation::Vault),
        decision is FileLocked ==> r.state == KeyState::FileLocked && r.key is None && r.pending is None
            && r.remember == Some(KeyLocation::File),
        decision matches Decision::Legacy(k) ==> r.state == (KeyState::NeedsPassword { legacy: true })
            && r.key is None && r.pending == Some(k) && r.remember == Some(KeyLocation::File),
        decision is KeyMissing ==> r.state == KeyState::KeyMissing && r.key is None && r.pending is None
            && r.remember is None,
        decision is CreateNewInFile ==> r.state == (KeyState::NeedsPassword { legacy: false })
            && r.key is None && r.pending == Some(fresh) && r.remember is None,
        decision is CreateNew && vault_kept ==> r.state == KeyState::Unlocked(KeyLocation::Vault)
            && r.key == Some(fresh) && r.pending is None && r.remember == Some(KeyLocation::Vault)
            && r.vault_available == Some(true),
        decision is CreateNew && !vault_kept ==> r.state == (KeyState::NeedsPassword { legacy: false })
            && r.key is None && r.pending == Some(fresh) && r.remember == Some(KeyLocation::File)
            && r.vault_available == Some(false),
        !(decision is CreateNew) ==> r.vault_available is None,
{
    match decision {
        Decision::UseVault(k) => ResolutionOutcome {
            state: KeyState::Unlocked(KeyLocation::Vault),
            key: Some(k),
            pending: None,
            remember: Some(KeyLocation::Vault),
            vault_available: None,
        },
        Decision::FileLocked => ResolutionOutcome {
            state: KeyState::FileLocked,
            key: None,
            pending: None,
            remember: Some(KeyLocation::File),
            vault_available: None,
        },
        Decision::Legacy(k) => ResolutionOutcome {
            state: KeyState::NeedsPassword { legacy: true },
            key: None,
            pending: Some(k),
            remember: Some(KeyLocation::File),
            vault_available: None,
        },
        Decision::KeyMissing => ResolutionOutcome {
            state: KeyState::KeyMissing,
            key: None,
            pending: None,
            remember: None,
            vault_available: None,
        },
        Decision::CreateNewInFile => ResolutionOutcome {
            state: KeyState::NeedsPassword { legacy: false },
            key: None,
            pending: Some(fresh),
            remember: None,
            vault_available: None,
        },
        Decision::CreateNew => {
            if vault_kept {
                ResolutionOutcome {
                    state: KeyState::Unlocked(KeyLocation::Vault),
                    key: Some(fresh),
                    pending: None,
                    remember: Some(KeyLocation::Vault),
                    vault_available: Some(true),
                }
            } else {
                ResolutionOutcome {
                    state: KeyState::NeedsPassword { legacy: false },
                    key: None,
                    pending: Some(fresh),
                    remember: Some(KeyLocation::File),
                    vault_available: Some(false),
                }
            }
        },
    }
}

// ---------------------------------------------------------------------------
// Command gates
// ---------------------------------------------------------------------------

pub open spec fn locked_message() -> Seq<char> {
    "KEY_LOCKED: the encryption key is locked -- unlock it to continue"@
}

/// The error a locked key is reported with; its `KEY_LOCKED:` prefix is
/// what the frontend recognizes.
pub fn locked_error() -> (r: String)
    ensures
        r@ == locked_message(),
{
    String::from_str("KEY_LOCKED: the encryption key is locked -- unlock it to continue")
}

/// `password.chars().count() < MIN_PASSWORD_CHARS` refuses it.
pub fn validate_new_password(password: &str) -> (r: Result<(), String>)
    ensures
        r is Ok <==> password@.len() >= MIN_PASSWORD_CHARS,
        r matches Err(e) ==> e@ == "Use at least 8 characters"@,
{
    let n = crate::text::to_chars(password).len();
    if n < MIN_PASSWORD_CHARS {
        return Err(String::from_str("Use at least 8 characters"));
    }
    Ok(())
}

/// `{other:?}` for a string (`Debug` for `str`: quoted and escaped).
pub uninterp spec fn str_debug_text(s: Seq<char>) -> Seq<char>;

#[verifier::external_body]
fn debug_str(s: &str) -> (r: String)
    ensures
        r@ == str_debug_text(s@),
{
    format!("{s:?}")
}

/// The location a restore or reset is aimed at: "vault" or "file".
pub fn parse_target(target: &str) -> (r: Result<KeyLocation, String>)
    ensures
        target@ == "vault"@ ==> r == Ok::<KeyLocation, String>(KeyLocation::Vault),
        target@ == "file"@ ==> r == Ok::<KeyLocation, String>(KeyLocation::File),
        target@ != "vault"@ && target@ != "file"@ ==> (r matches Err(e) && e@ == "unknown key location "@
            + str_debug_text(target@)),
{
    proof {
        reveal_strlit("vault");
        reveal_strlit("file");
        assert("file"@.len() == 4);
        assert("vault"@.len() == 5);
        assert("file"@ != "vault"@);
    }
    match location_from_setting(Some(target)) {
        Some(l) => Ok(l),
        None => Err(concat("unknown key location ", debug_str(target).as_str())),
    }
}

/// `unlock`: a no-op when already unlocked (`Ok(false)`), the go-ahead to
/// unwrap the file when it is locked (`Ok(true)`), refused otherwise.
pub fn unlock_gate(state: Option<KeyState>) -> (r: Result<bool, String>)
    ensures
        state matches Some(KeyState::Unlocked(_)) ==> r == Ok::<bool, String>(false),
        state == Some(KeyState::FileLocked) ==> r == Ok::<bool, String>(true),
        !(state matches Some(KeyState::Unlocked(_))) && state != Some(KeyState::FileLocked) ==> (r matches Err(e)
            && e@ == "There is no password-protected key file to unlock"@),
{
    match state {
        Some(KeyState::Unlocked(_)) => Ok(false),
        Some(KeyState::FileLocked) => Ok(true),
        _ => Err(String::from_str("There is no password-protected key file to unlock")),
    }
}

/// `set_password`: only a key waiting for a password (with one pending)
/// can be given one; returns that pending key.
pub fn set_password_gate(store: &KeyStore) -> (r: Result<Vec<u8>, String>)
    ensures
        store.state matches Some(KeyState::NeedsPassword { .. }) ==> match store.pending {
            Some(k) => r matches Ok(rk) && rk@ == k@,
            None => r matches Err(e) && e@ == "no pending key"@,
        },
        !(store.state matches Some(KeyState::NeedsPassword { .. })) ==> (r matches Err(e) && e@
            == "The encryption key doesn't need a new password right now"@),
{
    match store.state {
        Some(KeyState::NeedsPassword { .. }) => match &store.pending {
            Some(k) => Ok(k.clone()),
            None => Err(String::from_str("no pending key")),
        },
        _ => Err(String::from_str("The encryption key doesn't need a new password right now")),
    }
}

/// `change_password` and `migrate_to_file`: the key must be unlocked in the
/// given location; returns it.
pub fn unlocked_in_gate(store: &KeyStore, location: KeyLocation) -> (r: Result<Vec<u8>, String>)
    ensures
        store.state == Some(KeyState::Unlocked(location)) && store.key is Some ==> (r matches Ok(k)
            && k@ == store.key->0@),
        !(store.state == Some(KeyState::Unlocked(location)) && store.key is Some) ==> (r matches Err(e)
            && e@ == (if location == KeyLocation::File {
            "The key isn't in an unlocked password-protected file"@
        } else {
            "The key isn't unlocked in the OS vault"@
        })),
{
    let unlocked_here = match store.state {
        Some(KeyState::Unlocked(l)) => l == location,
        _ => false,
    };
    match (&store.key, unlocked_here) {
        (Some(k), true) => Ok(k.clone()),
        _ => Err(
            match location {
                KeyLocation::File => String::from_str(
                    "The key isn't in an unlocked password-protected file",
                ),
                KeyLocation::Vault => String::from_str("The key isn't unlocked in the OS vault"),
            },
        ),
    }
}

/// `migrate_to_vault`: the key to move -- the unlocked file key, or the key
/// waiting for a password.
pub fn migrate_to_vault_source(store: &KeyStore) -> (r: Result<Vec<u8>, String>)
    ensures
        r matches Ok(k) ==> ((store.state == Some(KeyState::Unlocked(KeyLocation::File))
            && (store.key matches Some(sk) && sk@ == k@)) || ((store.state matches Some(KeyState::NeedsPassword { .. }))
            && (store.pending matches Some(pk) && pk@ == k@))),
        r is Err <==> !((store.state == Some(KeyState::Unlocked(KeyLocation::File)) && store.key is Some)
            || (store.state matches Some(KeyState::NeedsPassword { .. }) && store.pending is Some)),
        r matches Err(e) ==> e@ == "The key isn't available to move to the OS vault"@,
{
    let k: Option<Vec<u8>> = match store.state {
        Some(KeyState::Unlocked(KeyLocation::File)) => store.key.clone(),
        Some(KeyState::NeedsPassword { .. }) => store.pending.clone(),
        _ => None,
    };
    match k {
        Some(k) => Ok(k),
        None => Err(String::from_str("The key isn't available to move to the OS vault")),
    }
}

/// `reveal`: the key must be unlocked; a file key also needs its password
/// (checked against the file afterwards). Returns the key and whether that
/// password check is due.
pub fn reveal_gate(store: &KeyStore, password_given: bool) -> (r: Result<(Vec<u8>, bool), String>)
    ensures
        r matches Ok((k, check)) ==> (store.key matches Some(sk) && sk@ == k@) && (store.state == Some(
            KeyState::Unlocked(KeyLocation::File),
        )) == check && (check ==> password_given),
        r is Ok <==> (store.state matches Some(KeyState::Unlocked(_)) && store.key is Some && (store.state
            == Some(KeyState::Unlocked(KeyLocation::File)) ==> password_given)),
        (!(store.state matches Some(KeyState::Unlocked(_))) || store.key is None) ==> (r matches Err(e)
            && e@ == locked_message()),
        (store.state == Some(KeyState::Unlocked(KeyLocation::File)) && store.key is Some
            && !password_given) ==> (r matches Err(e) && e@
            == "Enter the key file password to show the key"@),
{
    let loc = match store.state {
        Some(KeyState::Unlocked(l)) => Some(l),
        _ => None,
    };
    match (loc, &store.key) {
        (Some(l), Some(k)) => {
            if l == KeyLocation::File {
                if !password_given {
                    return Err(String::from_str("Enter the key file password to show the key"));
                }
                Ok((k.clone(), true))
            } else {
                Ok((k.clone(), false))
            }
        },
        _ => Err(locked_error()),
    }
}

/// `reset`: only while the key is locked in its file or missing.
pub fn reset_gate(state: Option<KeyState>) -> (r: Result<(), String>)
    ensures
        r is Ok <==> (state == Some(KeyState::FileLocked) || state == Some(KeyState::KeyMissing)),
        r matches Err(e) ==> e@ == "The key can only be reset while it's locked or missing"@,
{
    match state {
        Some(KeyState::FileLocked) | Some(KeyState::KeyMissing) => Ok(()),
        _ => Err(String::from_str("The key can only be reset while it's locked or missing")),
    }
}

/// `retry`: a no-op while unlocked.
pub fn retry_needed(state: Option<KeyState>) -> (r: bool)
    ensures
        r == !(state matches Some(KeyState::Unlocked(_))),
{
    match state {
        Some(KeyState::Unlocked(_)) => false,
        _ => true,
    }
}

/// A new key file needs a password: "Choose a password for the key file"
/// when none was given, else the password rule.
pub fn require_file_password(location: KeyLocation, password: &Option<String>) -> (r: Result<(), String>)
    ensures
        location == KeyLocation::Vault ==> r is Ok,
        location == KeyLocation::File ==> match password {
            None => r matches Err(e) && e@ == "Choose a password for the key file"@,
            Some(p) => (r is Ok <==> p@.len() >= MIN_PASSWORD_CHARS),
        },
{
    if location == KeyLocation::File {
        match password {
            None => Err(String::from_str("Choose a password for the key file")),
            Some(p) => validate_new_password(p.as_str()),
        }
    } else {
        Ok(())
    }
}

// ---------------------------------------------------------------------------
// Key encodings and the key file
// ---------------------------------------------------------------------------

/// What the standard base64 engine decodes a string to, `None` when it
/// refuses it.
pub uninterp spec fn base64_decoded(s: Seq<char>) -> Option<Seq<u8>>;

/// What the standard base64 engine encodes bytes as.
pub uninterp spec fn base64_text(bytes: Seq<u8>) -> Seq<char>;

/// `STANDARD.decode`. The error's text is base64's own message.
#[verifier::external_body]
fn base64_decode(s: &str) -> (r: Result<Vec<u8>, String>)
    ensures
        r is Ok <==> base64_decoded(s@) is Some,
        r matches Ok(v) ==> v@ == base64_decoded(s@)->0,
{
    match base64::engine::general_purpose::STANDARD.decode(s) {
        Ok(v) => Ok(v),
        Err(e) => Err(e.to_string()),
    }
}

/// `STANDARD.encode`; the standard engine decodes what it encoded back to
/// the same bytes.
#[verifier::external_body]
pub(crate) fn base64_encode(bytes: &[u8]) -> (r: String)
    ensures
        r@ == base64_text(bytes@),
        base64_decoded(r@) == Some(bytes@),
{
    base64::engine::general_purpose::STANDARD.encode(bytes)
}

/// A stored key: base64 of exactly `KEY_LEN` bytes.
pub fn decode_key(encoded: &str) -> (r: Result<Vec<u8>, String>)
    ensures
        r matches Ok(k) ==> base64_decoded(encoded@) == Some(k@) && k@.len() == KEY_LEN,
        r is Ok <==> (base64_decoded(encoded@) matches Some(b) && b.len() == KEY_LEN),
        (base64_decoded(encoded@) matches Some(b) && b.len() != KEY_LEN) ==> (r matches Err(e) && e@
            == "stored key is not the expected length"@),
{
    match base64_decode(encoded) {
        Ok(bytes) => {
            if bytes.len() == KEY_LEN {
                Ok(bytes)
            } else {
                Err(String::from_str("stored key is not the expected length"))
            }
        },
        Err(e) => Err(concat("stored key is not valid base64: ", e.as_str())),
    }
}

/// A key typed or pasted for a restore, with every white-space character
/// removed.
pub open spec fn compact_spec(s: Seq<char>) -> Seq<char>
    decreases s.len(),
{
    if s.len() == 0 {
        s
    } else {
        let r = compact_spec(s.drop_last());
        if unicode_white_space(s.last()) {
            r
        } else {
            r.push(s.last())
        }
    }
}

pub fn compact_key_text(s: &str) -> (r: String)
    ensures
        r@ == compact_spec(s@),
{
    let cs = crate::text::to_chars(s);
    let mut out: Vec<char> = Vec::new();
    let mut i: usize = 0;
    while i < cs.len()
        invariant
            0 <= i <= cs.len(),
            cs@ == s@,
            out@ == compact_spec(cs@.take(i as int)),
        decreases cs.len() - i,
    {
        proof {
            assert(cs@.take(i + 1).drop_last() =~= cs@.take(i as int));
        }
        if !crate::text::char_is_whitespace(cs[i]) {
            out.push(cs[i]);
        }
        i = i + 1;
    }
    proof {
        assert(cs@.take(cs.len() as int) =~= cs@);
    }
    crate::text::string_from_chars(out.as_slice())
}


// ---------------------------------------------------------------------------
// The password-wrapped key file
// ---------------------------------------------------------------------------

/// Argon2id cost of new key files: 64 MiB, 3 passes, 1 lane.
pub const KDF_M_KIB: u32 = 64 * 1024;
pub const KDF_T: u32 = 3;
pub const KDF_P: u32 = 1;

/// Length of a key file's random salt.
pub const SALT_LEN: usize = 16;

/// The associated data binding a wrapped key to its purpose and format:
/// the ASCII bytes of "reflectodoro/keyfile/v1".
pub open spec fn keyfile_aad() -> Seq<u8> {
    seq![114u8, 101u8, 102u8, 108u8, 101u8, 99u8, 116u8, 111u8, 100u8, 111u8, 114u8, 111u8, 47u8, 107u8, 101u8, 121u8, 102u8, 105u8, 108u8, 101u8, 47u8, 118u8, 49u8]
}

fn keyfile_aad_bytes() -> (r: Vec<u8>)
    ensures
        r@ == keyfile_aad(),
{
    let v: Vec<u8> = vec![114u8, 101u8, 102u8, 108u8, 101u8, 99u8, 116u8, 111u8, 100u8, 111u8, 114u8, 111u8, 47u8, 107u8, 101u8, 121u8, 102u8, 105u8, 108u8, 101u8, 47u8, 118u8, 49u8];
    proof {
        assert(v@ =~= keyfile_aad());
    }
    v
}

/// The JSON body of a key file, as read.
#[derive(Clone, Debug)]
pub struct WrappedKeyFile {
    pub v: u32,
    pub kdf: String,
    pub m: u32,
    pub t: u32,
    pub p: u32,
    pub salt: String,
    pub nonce: String,
    pub ct: String,
}

/// The key-encryption key Argon2id (v0x13) derives from a password and
/// salt under the given costs, or `None` when argon2 refuses them.
pub uninterp spec fn argon2id_output(password: Seq<char>, salt: Seq<u8>, m: u32, t: u32, p: u32) -> Option<Seq<u8>>;

/// What XChaCha20-Poly1305 decrypts a ciphertext to under a key, nonce and
/// associated data, or `None` when the tag does not verify.
pub uninterp spec fn xchacha_open(key: Seq<u8>, nonce: Seq<u8>, ct: Seq<u8>, aad: Seq<u8>) -> Option<Seq<u8>>;

/// What XChaCha20-Poly1305 encrypts a message to under a key, nonce and
/// associated data.
pub uninterp spec fn xchacha_seal(key: Seq<u8>, nonce: Seq<u8>, msg: Seq<u8>, aad: Seq<u8>) -> Option<Seq<u8>>;

/// Why argon2 refused: the costs themselves (`Params::new`), or the hash
/// (`hash_password_into`); with argon2's own message.
#[derive(Clone, Debug)]
pub struct KdfError {
    pub bad_params: bool,
    pub detail: String,
}

/// `Params::new(m, t, p, Some(32))` then `Argon2::new(Argon2id, V0x13,
/// params).hash_password_into(password, salt, ..)`: a 32-byte key, or
/// argon2's refusal; a parallelism above argon2's maximum (2^24 - 1) is
/// refused by `Params::new`. `p` is bounded so `Params::new`'s `p * 8`
/// (computed before that check) cannot overflow.
#[verifier::external_body]
fn argon2id_derive(password: &str, salt: &[u8], m: u32, t: u32, p: u32) -> (r: Result<Vec<u8>, KdfError>)
    requires
        p <= 0x1FFF_FFFF,
    ensures
        p > 0xFF_FFFF ==> r is Err,
        r matches Err(e) ==> (p > 0xFF_FFFF ==> e.bad_params),
        r is Ok <==> argon2id_output(password@, salt@, m, t, p) is Some,
        r matches Ok(k) ==> k@ == argon2id_output(password@, salt@, m, t, p)->0 && k@.len() == KEY_LEN,
{
    let params = match argon2::Params::new(m, t, p, Some(KEY_LEN)) {
        Ok(x) => x,
        Err(e) => return Err(KdfError { bad_params: true, detail: e.to_string() }),
    };
    let mut kek = vec![0u8; KEY_LEN];
    match argon2::Argon2::new(argon2::Algorithm::Argon2id, argon2::Version::V0x13, params)
        .hash_password_into(password.as_bytes(), salt, &mut kek) {
        Ok(()) => Ok(kek),
        Err(e) => Err(KdfError { bad_params: false, detail: e.to_string() }),
    }
}

/// `XChaCha20Poly1305::new(key).decrypt(nonce, Payload { msg: ct, aad })`.
#[verifier::external_body]
fn xchacha_decrypt(key: &[u8], nonce: &[u8], ct: &[u8], aad: &[u8]) -> (r: Option<Vec<u8>>)
    requires
        key@.len() == KEY_LEN,
        nonce@.len() == NONCE_LEN,
    ensures
        match r {
            Some(v) => xchacha_open(key@, nonce@, ct@, aad@) == Some(v@),
            None => xchacha_open(key@, nonce@, ct@, aad@) is None,
        },
{
    let cipher = chacha20poly1305::XChaCha20Poly1305::new(key.into());
    match cipher.decrypt(nonce.into(), Payload { msg: ct, aad }) {
        Ok(v) => Some(v),
        Err(_) => None,
    }
}

/// `XChaCha20Poly1305::new(key).encrypt(nonce, Payload { msg, aad })`; the
/// error's text is aead's own. What it seals, `decrypt` opens again under
/// the same key, nonce and associated data.
#[verifier::external_body]
fn xchacha_encrypt(key: &[u8], nonce: &[u8], msg: &[u8], aad: &[u8]) -> (r: Result<Vec<u8>, String>)
    requires
        key@.len() == KEY_LEN,
        nonce@.len() == NONCE_LEN,
    ensures
        r is Ok <==> xchacha_seal(key@, nonce@, msg@, aad@) is Some,
        r matches Ok(v) ==> xchacha_seal(key@, nonce@, msg@, aad@) == Some(v@),
        r matches Ok(v) ==> xchacha_open(key@, nonce@, v@, aad@) == Some(msg@),
{
    let cipher = chacha20poly1305::XChaCha20Poly1305::new(key.into());
    match cipher.encrypt(nonce.into(), Payload { msg, aad }) {
        Ok(v) => Ok(v),
        Err(e) => Err(e.to_string()),
    }
}

/// `OsRng.fill_bytes`: `len` random bytes from the operating system.
#[verifier::external_body]
fn os_random_bytes(len: usize) -> (r: Vec<u8>)
    ensures
        r@.len() == len,
{
    let mut buf = vec![0u8; len];
    chacha20poly1305::aead::OsRng.fill_bytes(&mut buf);
    buf
}

/// `XChaCha20Poly1305::generate_nonce(&mut OsRng)`: a random 24-byte nonce.
#[verifier::external_body]
fn generate_xnonce() -> (r: Vec<u8>)
    ensures
        r@.len() == NONCE_LEN,
{
    chacha20poly1305::XChaCha20Poly1305::generate_nonce(&mut chacha20poly1305::aead::OsRng).to_vec()
}

/// `Zeroize` for a byte vector: every byte overwritten, then emptied.
#[verifier::external_body]
fn wipe(buf: &mut Vec<u8>)
    ensures
        final(buf)@.len() == 0,
{
    buf.zeroize();
}

/// A fresh random at-rest key.
pub fn random_key() -> (r: Vec<u8>)
    ensures
        r@.len() == KEY_LEN,
{
    os_random_bytes(KEY_LEN)
}

/// Derives the key-encryption key, with argon2's refusal worded for the
/// user.
pub fn derive_kek(password: &str, salt: &[u8], m: u32, t: u32, p: u32) -> (r: Result<Vec<u8>, String>)
    requires
        p <= 0x1FFF_FFFF,
    ensures
        p > 0xFF_FFFF ==> r is Err,
        r is Ok <==> argon2id_output(password@, salt@, m, t, p) is Some,
        r matches Ok(k) ==> k@ == argon2id_output(password@, salt@, m, t, p)->0 && k@.len() == KEY_LEN,
{
    match argon2id_derive(password, salt, m, t, p) {
        Ok(k) => Ok(k),
        Err(e) => {
            if e.bad_params {
                Err(concat("bad key file parameters: ", e.detail.as_str()))
            } else {
                Err(concat("key derivation failed: ", e.detail.as_str()))
            }
        },
    }
}

/// "unsupported key file format (v{v}, {kdf})".
pub open spec fn unsupported_format_message(v: u32, kdf: Seq<char>) -> Seq<char> {
    "unsupported key file format (v"@ + decimal_spec(v as nat) + ", "@ + kdf + ")"@
}

/// Whether the key file's format and Argon2 costs are ones an unlock
/// accepts.
pub open spec fn key_file_accepted(f: WrappedKeyFile) -> bool {
    &&& f.v == 1 && f.kdf@ == "argon2id"@
    &&& f.m <= KDF_MAX_M_KIB && f.t <= KDF_MAX_T && f.p <= KDF_MAX_P
}

/// The key a key file gives up under a password: the salt, nonce and
/// ciphertext decoded, the key-encryption key derived, and the ciphertext
/// opened to a key of the right length; `None` when any step fails.
pub open spec fn unwrap_spec(f: WrappedKeyFile, password: Seq<char>) -> Option<Seq<u8>> {
    if key_file_accepted(f) {
        match (base64_decoded(f.salt@), base64_decoded(f.nonce@), base64_decoded(f.ct@)) {
            (Some(salt), Some(nonce), Some(ct)) => if nonce.len() == NONCE_LEN {
                match argon2id_output(password, salt, f.m, f.t, f.p) {
                    Some(kek) => match xchacha_open(kek, nonce, ct, keyfile_aad()) {
                        Some(k) => if k.len() == KEY_LEN {
                            Some(k)
                        } else {
                            None
                        },
                        None => None,
                    },
                    None => None,
                }
            } else {
                None
            },
            _ => None,
        }
    } else {
        None
    }
}

/// `f` holds `key` sealed under `password`: a fresh salt and nonce,
/// written as base64, the key-encryption key Argon2id derives from the
/// password and salt at `f`'s costs, and the key sealed under it with the
/// key file's associated data.
pub open spec fn wrapped_under(f: WrappedKeyFile, key: Seq<u8>, password: Seq<char>) -> bool {
    &&& f.v == 1 && f.kdf@ == "argon2id"@
    &&& exists|salt: Seq<u8>, nonce: Seq<u8>, kek: Seq<u8>, ct: Seq<u8>|
        #![trigger argon2id_output(password, salt, f.m, f.t, f.p), xchacha_seal(kek, nonce, key, keyfile_aad()), base64_text(ct)]
        {
            &&& salt.len() == SALT_LEN && nonce.len() == NONCE_LEN
            &&& f.salt@ == base64_text(salt) && base64_decoded(f.salt@) == Some(salt)
            &&& f.nonce@ == base64_text(nonce) && base64_decoded(f.nonce@) == Some(nonce)
            &&& f.ct@ == base64_text(ct) && base64_decoded(f.ct@) == Some(ct)
            &&& argon2id_output(password, salt, f.m, f.t, f.p) == Some(kek)
            &&& xchacha_seal(kek, nonce, key, keyfile_aad()) == Some(ct)
            &&& xchacha_open(kek, nonce, ct, keyfile_aad()) == Some(key)
        }
}

/// A key file written for a key under a password gives that same key back
/// under that password, whenever its Argon2 costs are within what an
/// unlock accepts (the standard costs are).
pub proof fn lemma_wrapped_key_unwraps(f: WrappedKeyFile, key: Seq<u8>, password: Seq<char>)
    requires
        wrapped_under(f, key, password),
        key.len() == KEY_LEN,
        f.m <= KDF_MAX_M_KIB,
        f.t <= KDF_MAX_T,
        f.p <= KDF_MAX_P,
    ensures
        unwrap_spec(f, password) == Some(key),
{
    let (salt, nonce, kek, ct) = choose|salt: Seq<u8>, nonce: Seq<u8>, kek: Seq<u8>, ct: Seq<u8>|
        #![trigger argon2id_output(password, salt, f.m, f.t, f.p), xchacha_seal(kek, nonce, key, keyfile_aad()), base64_text(ct)]
        {
            &&& salt.len() == SALT_LEN && nonce.len() == NONCE_LEN
            &&& f.salt@ == base64_text(salt) && base64_decoded(f.salt@) == Some(salt)
            &&& f.nonce@ == base64_text(nonce) && base64_decoded(f.nonce@) == Some(nonce)
            &&& f.ct@ == base64_text(ct) && base64_decoded(f.ct@) == Some(ct)
            &&& argon2id_output(password, salt, f.m, f.t, f.p) == Some(kek)
            &&& xchacha_seal(kek, nonce, key, keyfile_aad()) == Some(ct)
            &&& xchacha_open(kek, nonce, ct, keyfile_aad()) == Some(key)
        };
}

/// Unwraps a key file's key with a password. The format and the Argon2
/// costs are checked before anything is derived (a tampered file cannot
/// make an unlock allocate or spin forever); then the salt, nonce and
/// ciphertext are decoded, the key-encryption key derived, and the key
/// decrypted -- a tag that does not verify is a wrong password.
pub fn unwrap_key_file(f: &WrappedKeyFile, password: &str) -> (r: Result<Vec<u8>, String>)
    ensures
        match r {
            Ok(k) => unwrap_spec(*f, password@) == Some(k@),
            Err(_) => unwrap_spec(*f, password@) is None,
        },
        (f.v != 1 || f.kdf@ != "argon2id"@) ==> (r matches Err(e) && e@ == unsupported_format_message(
            f.v,
            f.kdf@,
        )),
        (f.v == 1 && f.kdf@ == "argon2id"@ && (f.m > KDF_MAX_M_KIB || f.t > KDF_MAX_T || f.p > KDF_MAX_P))
            ==> (r matches Err(e) && e@ == "key file parameters are out of range"@),
        r matches Ok(k) ==> {
            &&& f.v == 1 && f.kdf@ == "argon2id"@
            &&& f.m <= KDF_MAX_M_KIB && f.t <= KDF_MAX_T && f.p <= KDF_MAX_P
            &&& base64_decoded(f.salt@) matches Some(salt)
            &&& base64_decoded(f.nonce@) matches Some(nonce)
            &&& nonce.len() == NONCE_LEN
            &&& base64_decoded(f.ct@) matches Some(ct)
            &&& argon2id_output(password@, salt, f.m, f.t, f.p) matches Some(kek)
            &&& xchacha_open(kek, nonce, ct, keyfile_aad()) == Some(k@)
            &&& k@.len() == KEY_LEN
        },
        ({
            let checks_pass = f.v == 1 && f.kdf@ == "argon2id"@ && f.m <= KDF_MAX_M_KIB && f.t <= KDF_MAX_T
                && f.p <= KDF_MAX_P;
            checks_pass ==> match (base64_decoded(f.salt@), base64_decoded(f.nonce@), base64_decoded(f.ct@)) {
                (Some(salt), Some(nonce), Some(ct)) => nonce.len() == NONCE_LEN ==> match argon2id_output(password@, salt, f.m, f.t, f.p) {
                    Some(kek) => match xchacha_open(kek, nonce, ct, keyfile_aad()) {
                        Some(k) => k.len() == KEY_LEN ==> (r matches Ok(out) && out@ == k),
                        None => r matches Err(e) && e@ == "Wrong password"@,
                    },
                    None => r is Err,
                },
                _ => r is Err,
            }
        }),
{
    let kdf_ok = f.kdf == String::from_str("argon2id");
    proof {
        reveal_strlit("argon2id");
    }
    if f.v != 1 || !kdf_ok {
        let a = concat("unsupported key file format (v", u64_text(f.v as u64).as_str());
        let b = concat(a.as_str(), ", ");
        let c = concat(b.as_str(), f.kdf.as_str());
        let d = concat(c.as_str(), ")");
        proof {
            reveal_strlit("unsupported key file format (v");
            reveal_strlit(", ");
            reveal_strlit(")");
            assert(d@ =~= unsupported_format_message(f.v, f.kdf@));
        }
        return Err(d);
    }
    if f.m > KDF_MAX_M_KIB || f.t > KDF_MAX_T || f.p > KDF_MAX_P {
        return Err(String::from_str("key file parameters are out of range"));
    }
    let salt = match base64_decode(f.salt.as_str()) {
        Ok(v) => v,
        Err(_) => { return Err(String::from_str("key file is corrupt (salt)")); },
    };
    let nonce = match base64_decode(f.nonce.as_str()) {
        Ok(v) => v,
        Err(_) => { return Err(String::from_str("key file is corrupt (nonce)")); },
    };
    if nonce.len() != NONCE_LEN {
        return Err(String::from_str("key file is corrupt (nonce length)"));
    }
    let ct = match base64_decode(f.ct.as_str()) {
        Ok(v) => v,
        Err(_) => { return Err(String::from_str("key file is corrupt (ciphertext)")); },
    };
    let mut kek = derive_kek(password, salt.as_slice(), f.m, f.t, f.p)?;
    let aad = keyfile_aad_bytes();
    let opened = xchacha_decrypt(kek.as_slice(), nonce.as_slice(), ct.as_slice(), aad.as_slice());
    wipe(&mut kek);
    let mut plain = match opened {
        Some(p) => p,
        None => { return Err(String::from_str("Wrong password")); },
    };
    if plain.len() != KEY_LEN {
        wipe(&mut plain);
        return Err(String::from_str("key file holds a key of the wrong length"));
    }
    Ok(plain)
}

/// Why wrapping may fail: for the random salt that was drawn, Argon2id
/// refuses the password and costs, or for the random nonce that was drawn,
/// sealing the key under the derived key-encryption key fails.
pub open spec fn wrap_may_fail(key: Seq<u8>, password: Seq<char>, m: u32, t: u32, p: u32) -> bool {
    exists|salt: Seq<u8>|
        #![trigger argon2id_output(password, salt, m, t, p)]
        salt.len() == SALT_LEN && match argon2id_output(password, salt, m, t, p) {
            None => true,
            Some(kek) => exists|nonce: Seq<u8>|
                #![trigger xchacha_seal(kek, nonce, key, keyfile_aad())]
                nonce.len() == NONCE_LEN && xchacha_seal(kek, nonce, key, keyfile_aad()) is None,
        }
}

/// Wraps `key` under `password` with the given Argon2 costs: a fresh random
/// salt and nonce, the key-encryption key derived from them, and the key
/// sealed with the key file's associated data.
pub fn wrap_key_with_params(key: &[u8], password: &str, m: u32, t: u32, p: u32) -> (r: Result<WrappedKeyFile, String>)
    requires
        key@.len() == KEY_LEN,
        p <= 0x1FFF_FFFF,
    ensures
        r matches Ok(f) ==> f.m == m && f.t == t && f.p == p && wrapped_under(f, key@, password@),
        r is Err ==> wrap_may_fail(key@, password@, m, t, p),
{
    let salt = os_random_bytes(SALT_LEN);
    let mut kek = match derive_kek(password, salt.as_slice(), m, t, p) {
        Ok(k) => k,
        Err(e) => {
            proof {
                assert(argon2id_output(password@, salt@, m, t, p) is None);
            }
            return Err(e);
        },
    };
    let nonce = generate_xnonce();
    let aad = keyfile_aad_bytes();
    let sealed = xchacha_encrypt(kek.as_slice(), nonce.as_slice(), key, aad.as_slice());
    let ghost kek_view = kek@;
    wipe(&mut kek);
    let ct = match sealed {
        Ok(c) => c,
        Err(e) => {
            proof {
                assert(xchacha_seal(kek_view, nonce@, key@, keyfile_aad()) is None);
                assert(argon2id_output(password@, salt@, m, t, p) == Some(kek_view));
            }
            return Err(concat("key wrapping failed: ", e.as_str()));
        },
    };
    let kdf = String::from_str("argon2id");
    let f = WrappedKeyFile {
        v: 1,
        kdf,
        m,
        t,
        p,
        salt: base64_encode(salt.as_slice()),
        nonce: base64_encode(nonce.as_slice()),
        ct: base64_encode(ct.as_slice()),
    };
    proof {
        assert(argon2id_output(password@, salt@, m, t, p) == Some(kek_view));
        assert(xchacha_seal(kek_view, nonce@, key@, keyfile_aad()) == Some(ct@));
        assert(wrapped_under(f, key@, password@));
    }
    Ok(f)
}

/// Wraps `key` under `password` at the standard costs.
pub fn wrap_key(key: &[u8], password: &str) -> (r: Result<WrappedKeyFile, String>)
    requires
        key@.len() == KEY_LEN,
    ensures
        r matches Ok(f) ==> f.m == KDF_M_KIB && f.t == KDF_T && f.p == KDF_P && wrapped_under(
            f,
            key@,
            password@,
        ),
        r is Err ==> wrap_may_fail(key@, password@, KDF_M_KIB, KDF_T, KDF_P),
{
    wrap_key_with_params(key, password, KDF_M_KIB, KDF_T, KDF_P)
}

/// What a key file holds: a password-wrapped key (JSON, starting with `{`
/// once trimmed) or a legacy plaintext key (base64 of exactly 32 bytes).
/// Whether the JSON has the wrapped-key shape is checked by the caller,
/// which parses it.
pub fn parse_key_file_text(contents: &str) -> (r: Result<KeyFile, String>)
    ensures
        ({
            let t = crate::text::trim_spec(contents@);
            &&& (t.len() > 0 && t[0] == '{') ==> (r matches Ok(KeyFile::Wrapped(w)) && w@ == t)
            &&& !(t.len() > 0 && t[0] == '{') ==> match base64_decoded(t) {
                Some(b) => if b.len() == KEY_LEN {
                    r matches Ok(KeyFile::Legacy(k)) && k@ == b
                } else {
                    r is Err
                },
                None => r is Err,
            }
        }),
{
    let trimmed = crate::text::trim(contents);
    let cs = crate::text::to_chars(trimmed.as_str());
    if cs.len() > 0 && cs[0] == '{' {
        return Ok(KeyFile::Wrapped(trimmed));
    }
    match decode_key(trimmed.as_str()) {
        Ok(k) => Ok(KeyFile::Legacy(k)),
        Err(e) => Err(e),
    }
}
} // verus!
