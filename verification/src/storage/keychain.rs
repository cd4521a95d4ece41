//! OS keychain-backed token storage: macOS Keychain, Windows Credential Manager, or Linux
//! secret-service. The keychain itself is accessed outside.
use vstd::prelude::*;
use vstd::string::*;
use crate::storage::{StorageAction, StorageError, TokenStorage};

verus! {

/// The service under which everything is kept.
pub fn service_name() -> (r: &'static str)
    ensures
        r@ == "mcp-auth-proxy"@,
{
    "mcp-auth-proxy"
}

/// The key of the entry that is looked up to see whether the keychain is available.
pub fn probe_key() -> (r: &'static str)
    ensures
        r@ == "__probe__"@,
{
    "__probe__"
}

/// A keychain that was found to be available.
#[derive(Debug)]
pub struct KeychainStorage {
    verified: (),
}

/// What the keychain replied.
#[derive(Debug)]
pub enum KeychainReply {
    /// No entry could be made for the key.
    NoHandle,
    /// The request was met. `value` is the password that was asked for, if one was.
    Done { value: String },
    /// There is no such entry.
    NoEntry,
    Failed { reason: String },
    /// The request did not come to an end.
    Panicked,
}

impl KeychainStorage {
    /// The keychain, where the reply to a probe shows that it is available.
    pub fn new(probe: &KeychainReply) -> (r: Result<KeychainStorage, StorageError>)
        ensures
            match *probe {
                KeychainReply::Done { .. } => r is Ok,
                KeychainReply::NoEntry => r is Ok,
                KeychainReply::NoHandle => r == Err::<KeychainStorage, StorageError>(
                    StorageError::Probe,
                ),
                KeychainReply::Failed { reason } => r == Err::<KeychainStorage, StorageError>(
                    StorageError::KeychainUnavailable { reason },
                ),
                KeychainReply::Panicked => r == Err::<KeychainStorage, StorageError>(
                    StorageError::KeychainPanicked,
                ),
            },
    {
        match probe {
            KeychainReply::Done { .. } => Ok(KeychainStorage { verified: () }),
            KeychainReply::NoEntry => Ok(KeychainStorage { verified: () }),
            KeychainReply::NoHandle => Err(StorageError::Probe),
            KeychainReply::Failed { reason } => Err(
                StorageError::KeychainUnavailable { reason: reason.clone() },
            ),
            KeychainReply::Panicked => Err(StorageError::KeychainPanicked),
        }
    }
}

impl TokenStorage for KeychainStorage {
    open spec fn looks_up(&self, key: Seq<char>, action: StorageAction) -> bool {
        action matches StorageAction::KeychainGet { service, key: k } && service@
            == "mcp-auth-proxy"@ && k@ == key
    }

    open spec fn keeps(&self, key: Seq<char>, value: Seq<char>, action: StorageAction) -> bool {
        action matches StorageAction::KeychainSet { service, key: k, value: v } && service@
            == "mcp-auth-proxy"@ && k@ == key && v@ == value
    }

    open spec fn drops(&self, key: Seq<char>, action: StorageAction) -> bool {
        action matches StorageAction::KeychainDelete { service, key: k } && service@
            == "mcp-auth-proxy"@ && k@ == key
    }

    fn get(&self, key: &str) -> (r: StorageAction) {
        StorageAction::KeychainGet { service: service_name().to_owned(), key: key.to_owned() }
    }

    fn set(&self, key: &str, value: &str) -> (r: StorageAction) {
        StorageAction::KeychainSet {
            service: service_name().to_owned(),
            key: key.to_owned(),
            value: value.to_owned(),
        }
    }

    fn delete(&self, key: &str) -> (r: StorageAction) {
        StorageAction::KeychainDelete { service: service_name().to_owned(), key: key.to_owned() }
    }
}

/// What a lookup comes to.
pub fn got(reply: KeychainReply) -> (r: Result<Option<String>, StorageError>)
    ensures
        match reply {
            KeychainReply::Done { value } => r == Ok::<Option<String>, StorageError>(Some(value)),
            KeychainReply::NoEntry => r == Ok::<Option<String>, StorageError>(None),
            KeychainReply::NoHandle => r == Err::<Option<String>, StorageError>(
                StorageError::KeychainEntry,
            ),
            KeychainReply::Failed { reason } => r == Err::<Option<String>, StorageError>(
                StorageError::KeychainGet { reason },
            ),
            KeychainReply::Panicked => r == Err::<Option<String>, StorageError>(
                StorageError::KeychainPanicked,
            ),
        },
{
    match reply {
        KeychainReply::Done { value } => Ok(Some(value)),
        KeychainReply::NoEntry => Ok(None),
        KeychainReply::NoHandle => Err(StorageError::KeychainEntry),
        KeychainReply::Failed { reason } => Err(StorageError::KeychainGet { reason }),
        KeychainReply::Panicked => Err(StorageError::KeychainPanicked),
    }
}

/// What keeping a value comes to.
pub fn was_set(reply: KeychainReply) -> (r: Result<(), StorageError>)
    ensures
        match reply {
            KeychainReply::Done { .. } => r is Ok,
            KeychainReply::NoEntry => r == Err::<(), StorageError>(StorageError::KeychainSet),
            KeychainReply::NoHandle => r == Err::<(), StorageError>(StorageError::KeychainEntry),
            KeychainReply::Failed { .. } => r == Err::<(), StorageError>(StorageError::KeychainSet),
            KeychainReply::Panicked => r == Err::<(), StorageError>(StorageError::KeychainPanicked),
        },
{
    match reply {
        KeychainReply::Done { .. } => Ok(()),
        KeychainReply::NoEntry => Err(StorageError::KeychainSet),
        KeychainReply::NoHandle => Err(StorageError::KeychainEntry),
        KeychainReply::Failed { .. } => Err(StorageError::KeychainSet),
        KeychainReply::Panicked => Err(StorageError::KeychainPanicked),
    }
}

/// What dropping a value comes to. To drop what is not there is no failure.
pub fn deleted(reply: KeychainReply) -> (r: Result<(), StorageError>)
    ensures
        match reply {
            KeychainReply::Done { .. } => r is Ok,
            KeychainReply::NoEntry => r is Ok,
            KeychainReply::NoHandle => r == Err::<(), StorageError>(StorageError::KeychainEntry),
            KeychainReply::Failed { reason } => r == Err::<(), StorageError>(
                StorageError::KeychainDelete { reason },
            ),
            KeychainReply::Panicked => r == Err::<(), StorageError>(StorageError::KeychainPanicked),
        },
{
    match reply {
        KeychainReply::Done { .. } => Ok(()),
        KeychainReply::NoEntry => Ok(()),
        KeychainReply::NoHandle => Err(StorageError::KeychainEntry),
        KeychainReply::Failed { reason } => Err(StorageError::KeychainDelete { reason }),
        KeychainReply::Panicked => Err(StorageError::KeychainPanicked),
    }
}

/// What is kept under a key, looked up under it and dropped under it is one entry of the keychain:
/// the one of that key, in the service of this program. It is kept as it is.
pub proof fn law_one_entry_for_a_key(
    storage: KeychainStorage,
    key: Seq<char>,
    value: Seq<char>,
    kept: StorageAction,
    found: StorageAction,
    dropped: StorageAction,
)
    requires
        storage.keeps(key, value, kept),
        storage.looks_up(key, found),
        storage.drops(key, dropped),
    ensures
        kept matches StorageAction::KeychainSet { service, key: k, value: v } && service@
            == "mcp-auth-proxy"@ && k@ == key && v@ == value,
        found matches StorageAction::KeychainGet { service, key: k } && service@
            == "mcp-auth-proxy"@ && k@ == key,
        dropped matches StorageAction::KeychainDelete { service, key: k } && service@
            == "mcp-auth-proxy"@ && k@ == key,
{
}

/// That there is no entry is no failure of a lookup, which then finds nothing, nor of a deletion,
/// nor of a probe; it is one of keeping a value.
pub proof fn law_missing_entry_is_no_failure(
    reply: KeychainReply,
    probed: Result<KeychainStorage, StorageError>,
    found: Result<Option<String>, StorageError>,
    kept: Result<(), StorageError>,
    dropped: Result<(), StorageError>,
)
    requires
        call_ensures(KeychainStorage::new, (&reply,), probed),
        call_ensures(got, (reply,), found),
        call_ensures(was_set, (reply,), kept),
        call_ensures(deleted, (reply,), dropped),
    ensures
        probed is Ok <==> reply is Done || reply is NoEntry,
        found is Ok <==> reply is Done || reply is NoEntry,
        dropped is Ok <==> reply is Done || reply is NoEntry,
        kept is Ok <==> reply is Done,
        reply matches KeychainReply::Done { value } ==> found == Ok::<Option<String>, StorageError>(
            Some(value),
        ),
        reply is NoEntry ==> found == Ok::<Option<String>, StorageError>(None),
{
}

/// A failure of the keychain is told with its reason, by what was asked of it.
pub proof fn law_keychain_failure_is_told(
    reason: String,
    probed: Result<KeychainStorage, StorageError>,
    found: Result<Option<String>, StorageError>,
    kept: Result<(), StorageError>,
    dropped: Result<(), StorageError>,
)
    requires
        call_ensures(KeychainStorage::new, (&KeychainReply::Failed { reason },), probed),
        call_ensures(got, (KeychainReply::Failed { reason },), found),
        call_ensures(was_set, (KeychainReply::Failed { reason },), kept),
        call_ensures(deleted, (KeychainReply::Failed { reason },), dropped),
    ensures
        probed matches Err(e) && e.words() == "OS keychain not available: "@ + reason@,
        found matches Err(e) && e.words() == "keychain get failed: "@ + reason@,
        kept matches Err(e) && e.words() == "keychain set failed"@,
        dropped matches Err(e) && e.words() == "keychain delete failed: "@ + reason@,
{
}

} // verus!
