//! Where OAuth tokens and DCR client credentials are kept.
//!
//! Files and the OS keychain are accessed outside: a `StorageAction` says what is to be done, and
//! what came of it is handed back.
pub mod encrypted_file;
pub mod keychain;

use vstd::prelude::*;
use vstd::string::*;
use crate::config::{StorageType, TokenStorageConfig};
use crate::name_map::NameMap;

verus! {

/// Why something could not be stored or looked up.
#[derive(Debug)]
pub enum StorageError {
    Directory { path: String },
    ReadFile { path: String },
    Decrypt,
    Parse,
    Encrypt,
    WriteFile { path: String },
    Probe,
    KeychainUnavailable { reason: String },
    KeychainEntry,
    KeychainGet { reason: String },
    KeychainSet,
    KeychainDelete { reason: String },
    KeychainPanicked,
}

impl StorageError {
    /// The words for this error.
    pub open spec fn words(self) -> Seq<char> {
        match self {
            StorageError::Directory { path } => "failed to create token storage directory: "@
                + path@,
            StorageError::ReadFile { path } => "failed to read token file: "@ + path@,
            StorageError::Decrypt =>
            "failed to decrypt token file — key mismatch or corruption"@,
            StorageError::Parse => "failed to parse decrypted token data"@,
            StorageError::Encrypt => "failed to encrypt token data"@,
            StorageError::WriteFile { path } => "failed to write token file: "@ + path@,
            StorageError::Probe =>
            "failed to create keyring entry — OS keychain may not be available"@,
            StorageError::KeychainUnavailable { reason } => "OS keychain not available: "@ + reason@,
            StorageError::KeychainEntry => "failed to create keyring entry"@,
            StorageError::KeychainGet { reason } => "keychain get failed: "@ + reason@,
            StorageError::KeychainSet => "keychain set failed"@,
            StorageError::KeychainDelete { reason } => "keychain delete failed: "@ + reason@,
            StorageError::KeychainPanicked => "keychain task panicked"@,
        }
    }

    /// The words for this error.
    pub fn message(&self) -> (r: String)
        ensures
            r@ == self.words(),
    {
        match self {
            StorageError::Directory { path } =>
            "failed to create token storage directory: ".to_owned().concat(path.as_str()),
            StorageError::ReadFile { path } => "failed to read token file: ".to_owned().concat(
                path.as_str(),
            ),
            StorageError::Decrypt =>
            "failed to decrypt token file — key mismatch or corruption".to_owned(),
            StorageError::Parse => "failed to parse decrypted token data".to_owned(),
            StorageError::Encrypt => "failed to encrypt token data".to_owned(),
            StorageError::WriteFile { path } => "failed to write token file: ".to_owned().concat(
                path.as_str(),
            ),
            StorageError::Probe =>
            "failed to create keyring entry — OS keychain may not be available".to_owned(),
            StorageError::KeychainUnavailable { reason } =>
            "OS keychain not available: ".to_owned().concat(reason.as_str()),
            StorageError::KeychainEntry => "failed to create keyring entry".to_owned(),
            StorageError::KeychainGet { reason } => "keychain get failed: ".to_owned().concat(
                reason.as_str(),
            ),
            StorageError::KeychainSet => "keychain set failed".to_owned(),
            StorageError::KeychainDelete { reason } => "keychain delete failed: ".to_owned().concat(
                reason.as_str(),
            ),
            StorageError::KeychainPanicked => "keychain task panicked".to_owned(),
        }
    }
}

/// What is to be done for a request to the storage.
#[derive(Debug)]
pub enum StorageAction {
    /// Nothing: this is what stands under the key.
    Found(Option<String>),
    Fail(StorageError),
    /// Read the token file, hand it to `EncryptedFileStorage::load`, and ask again.
    ReadFile,
    /// Write the token file, and then hand `contents` to `EncryptedFileStorage::commit`.
    WriteFile { bytes: Vec<u8>, contents: NameMap<String> },
    /// Get the password of the keychain entry, and go on with `keychain::got`.
    KeychainGet { service: String, key: String },
    /// Set the password of the keychain entry, and go on with `keychain::was_set`.
    KeychainSet { service: String, key: String, value: String },
    /// Delete the keychain entry, and go on with `keychain::deleted`.
    KeychainDelete { service: String, key: String },
}

/// Persisting OAuth tokens and DCR client credentials.
pub trait TokenStorage {
    /// `action` is what is to be done to look up `key`.
    spec fn looks_up(&self, key: Seq<char>, action: StorageAction) -> bool;

    /// `action` is what is to be done to keep `value` under `key`.
    spec fn keeps(&self, key: Seq<char>, value: Seq<char>, action: StorageAction) -> bool;

    /// `action` is what is to be done to keep nothing under `key`.
    spec fn drops(&self, key: Seq<char>, action: StorageAction) -> bool;

    /// Looks up `key`.
    fn get(&self, key: &str) -> (r: StorageAction)
        ensures
            self.looks_up(key@, r),
    ;

    /// Keeps `value` under `key`.
    fn set(&self, key: &str, value: &str) -> (r: StorageAction)
        ensures
            self.keeps(key@, value@, r),
    ;

    /// Keeps nothing under `key`.
    fn delete(&self, key: &str) -> (r: StorageAction)
        ensures
            self.drops(key@, r),
    ;
}

/// The storage to set up. The path of a file is held in the bytes that the system gives it, which
/// need not be UTF-8.
#[derive(Debug)]
pub enum StorageSpec {
    Keychain,
    EncryptedFile { path: Vec<u8> },
}

/// `name` within the directory `base`.
pub open spec fn joined_path(base: Seq<u8>, name: Seq<char>) -> Seq<u8> {
    if base.len() == 0 || base.last() == 0x2f {
        base + vstd::utf8::encode_utf8(name)
    } else {
        base.push(0x2f) + vstd::utf8::encode_utf8(name)
    }
}

/// The token file within the directory of user configuration, or within the current directory
/// where there is none.
pub open spec fn default_file(config_dir: Option<Seq<u8>>) -> Seq<u8> {
    let base = match config_dir {
        Some(dir) => dir,
        None => vstd::utf8::encode_utf8("."@),
    };
    joined_path(joined_path(base, "mcp-auth-proxy"@), "tokens.enc"@)
}

/// The directory of user configuration (`dirs::config_dir`), where there is one. It depends on the
/// environment, so nothing is said of it.
#[verifier::external_body]
fn config_directory() -> Option<Vec<u8>> {
    dirs::config_dir().map(|dir| dir.into_os_string().into_encoded_bytes())
}

/// `name` within the directory `base`.
fn join_path(base: Vec<u8>, name: &str) -> (r: Vec<u8>)
    ensures
        r@ == joined_path(base@, name@),
{
    let mut path = base;
    let count: usize = path.len();
    if count > 0 && path[count - 1] != 0x2f {
        path.push(0x2f);
    }
    let ghost before = path@;
    path.extend_from_slice(name.as_bytes());
    assert(path@ =~= before + vstd::utf8::encode_utf8(name@));
    path
}

/// The token file for a directory of user configuration.
pub fn encrypted_file_path(config_dir: Option<Vec<u8>>) -> (r: Vec<u8>)
    ensures
        r@ == default_file(
            match config_dir {
                Some(dir) => Some(dir@),
                None => None,
            },
        ),
{
    let base = match config_dir {
        Some(dir) => dir,
        None => ".".as_bytes_vec(),
    };
    join_path(join_path(base, "mcp-auth-proxy"), "tokens.enc")
}

/// The token file where the configuration names none.
pub fn default_encrypted_file_path() -> (r: Vec<u8>)
    ensures
        exists|config_dir: Option<Seq<u8>>| r@ == #[trigger] default_file(config_dir),
{
    encrypted_file_path(config_directory())
}

/// The token file that the configuration names.
pub open spec fn configured_path(config: TokenStorageConfig) -> Option<String> {
    match config.encrypted_file {
        Some(file) => file.path,
        None => None,
    }
}

/// `chosen` is the storage of the type `storage_type`.
pub open spec fn is_of_type(
    chosen: StorageSpec,
    storage_type: StorageType,
    config: TokenStorageConfig,
) -> bool {
    match storage_type {
        StorageType::Keychain => chosen == StorageSpec::Keychain,
        StorageType::EncryptedFile => match configured_path(config) {
            Some(named) => chosen matches StorageSpec::EncryptedFile { path } && path@
                == vstd::utf8::encode_utf8(named@),
            None => chosen matches StorageSpec::EncryptedFile { path } && exists|
                config_dir: Option<Seq<u8>>,
            |
                path@ == #[trigger] default_file(config_dir),
        },
    }
}

/// The storage of the type `storage_type`.
pub fn create_storage_by_type(storage_type: StorageType, config: &TokenStorageConfig) -> (r:
    StorageSpec)
    ensures
        is_of_type(r, storage_type, *config),
{
    match storage_type {
        StorageType::Keychain => StorageSpec::Keychain,
        StorageType::EncryptedFile => {
            if let Some(file) = &config.encrypted_file {
                if let Some(path) = &file.path {
                    return StorageSpec::EncryptedFile { path: path.as_str().as_bytes_vec() };
                }
            }
            StorageSpec::EncryptedFile { path: default_encrypted_file_path() }
        },
    }
}

/// `chosen` is the storage to try: that of the configured type, or, where that has been found to
/// be unavailable, that of the fallback type, if there is one.
pub open spec fn is_tried(
    chosen: Option<StorageSpec>,
    config: TokenStorageConfig,
    primary_failed: bool,
) -> bool {
    &&& !primary_failed ==> chosen is Some && is_of_type(chosen->0, config.storage_type, config)
    &&& primary_failed ==> match config.fallback {
        Some(fallback) => chosen is Some && is_of_type(chosen->0, fallback, config),
        None => chosen is None,
    }
}

/// The storage to try, with fallback support: the configured type, or, where that has been found
/// to be unavailable, the fallback type, if there is one.
pub fn create_storage(config: &TokenStorageConfig, primary_failed: bool) -> (r: Option<StorageSpec>)
    ensures
        is_tried(r, *config, primary_failed),
{
    if !primary_failed {
        return Some(create_storage_by_type(config.storage_type, config));
    }
    match config.fallback {
        Some(fallback) => Some(create_storage_by_type(fallback, config)),
        None => None,
    }
}

/// A path within a directory is the directory, one slash, and the name, whether or not the
/// directory already ends in a slash; within no directory it is the name.
pub proof fn law_joined_path(base: Seq<u8>, name: Seq<char>)
    requires
        base.len() > 0,
        base.last() != 0x2f,
    ensures
        joined_path(base, name) == base.push(0x2f) + vstd::utf8::encode_utf8(name),
        joined_path(base.push(0x2f), name) == joined_path(base, name),
        joined_path(Seq::empty(), name) == vstd::utf8::encode_utf8(name),
{
    assert(Seq::<u8>::empty() + vstd::utf8::encode_utf8(name) =~= vstd::utf8::encode_utf8(name));
}

/// The token file stands in the directory of this program within the directory of user
/// configuration, and without that within the current directory.
pub proof fn law_default_file(dir: Seq<u8>)
    requires
        dir.len() > 0,
        dir.last() != 0x2f,
    ensures
        default_file(Some(dir)) == (dir.push(0x2f) + vstd::utf8::encode_utf8(
            "mcp-auth-proxy"@,
        )).push(0x2f) + vstd::utf8::encode_utf8("tokens.enc"@),
        default_file(None) == default_file(Some(vstd::utf8::encode_utf8("."@))),
        default_file(Some(dir.push(0x2f))) == default_file(Some(dir)),
{
    reveal_strlit("mcp-auth-proxy");
    let name = "mcp-auth-proxy"@;
    vstd::utf8::is_ascii_chars_encode_utf8(name);
    law_joined_path(dir, name);
    let inner = joined_path(dir, name);
    assert(inner.last() == vstd::utf8::encode_utf8(name).last());
    assert(vstd::utf8::encode_utf8(name).last() == 'y' as u8);
    law_joined_path(inner, "tokens.enc"@);
}

/// The storage is of the configured type; where that has failed it is of the fallback type, if one
/// is configured. A token file stands where the configuration says, if it does.
pub proof fn law_storage_as_configured(
    config: TokenStorageConfig,
    failed: bool,
    wanted: StorageType,
    chosen: Option<StorageSpec>,
)
    requires
        is_tried(chosen, config, failed),
        failed ==> config.fallback == Some(wanted) || config.fallback is None,
        !failed ==> config.storage_type == wanted,
    ensures
        chosen is None <==> failed && config.fallback is None,
        chosen is Some && wanted is Keychain ==> chosen->0 is Keychain,
        chosen is Some && wanted is EncryptedFile ==> chosen->0 is EncryptedFile,
        chosen is Some && wanted is EncryptedFile && config.encrypted_file is Some
            && config.encrypted_file->0.path is Some ==> chosen->0->path@
            == vstd::utf8::encode_utf8(config.encrypted_file->0.path->0@),
        chosen is Some && wanted is EncryptedFile && (config.encrypted_file is None
            || config.encrypted_file->0.path is None) ==> exists|dir: Option<Seq<u8>>|
            chosen->0->path@ == #[trigger] default_file(dir),
{
}

/// The words for an error name the file or the reason that it tells of.
pub proof fn law_storage_error_tells(path: String, reason: String)
    ensures
        (StorageError::Directory { path }).words()
            == "failed to create token storage directory: "@ + path@,
        (StorageError::ReadFile { path }).words() == "failed to read token file: "@ + path@,
        (StorageError::WriteFile { path }).words() == "failed to write token file: "@ + path@,
        (StorageError::KeychainUnavailable { reason }).words() == "OS keychain not available: "@
            + reason@,
        (StorageError::KeychainGet { reason }).words() == "keychain get failed: "@ + reason@,
        (StorageError::KeychainDelete { reason }).words() == "keychain delete failed: "@ + reason@,
{
}

} // verus!
