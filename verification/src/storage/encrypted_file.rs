//! AES-256-GCM encrypted JSON file for token storage.
//!
//! A file is a nonce and a ciphertext. Under the ciphertext stands a JSON object that has the
//! stored values under their keys. The file itself is read and written outside; its path is held in
//! the bytes that the system gives it, which need not be UTF-8.
use vstd::prelude::*;
use vstd::string::*;
use crate::json;
use crate::json::Json;
use crate::name_map;
use crate::name_map::NameMap;
use crate::storage::{StorageAction, StorageError, TokenStorage};
use crate::text;

verus! {

/// The length of a nonce, in bytes.
pub const NONCE_BYTES: usize = 12;

/// The length of a key, in bytes.
pub const KEY_BYTES: usize = 32;

/// The length of the longest plaintext that can be encrypted, in bytes: 2^36.
pub const MAX_PLAINTEXT_BYTES: u64 = 0x10_0000_0000;

/// What AES-256-GCM makes of a plaintext; `None` where it is too long.
pub uninterp spec fn sealed(key: Seq<u8>, nonce: Seq<u8>, plaintext: Seq<u8>) -> Option<Seq<u8>>;

/// The plaintext of an AES-256-GCM ciphertext; `None` where it does not authenticate.
pub uninterp spec fn unsealed(key: Seq<u8>, nonce: Seq<u8>, ciphertext: Seq<u8>) -> Option<Seq<u8>>;

/// The SHA-256 digest of `data`.
pub uninterp spec fn sha256(data: Seq<u8>) -> Seq<u8>;

/// Encrypts (`aes_gcm::Aes256Gcm`, `Aead::encrypt`, with no associated data). It fails exactly for
/// a plaintext of more than 2^36 bytes, and adds a tag of 16 bytes.
#[verifier::external_body]
fn encrypt(key: &[u8], nonce: &[u8], plaintext: &[u8]) -> (r: Option<Vec<u8>>)
    requires
        key@.len() == KEY_BYTES,
        nonce@.len() == NONCE_BYTES,
    ensures
        match r {
            Some(ciphertext) => sealed(key@, nonce@, plaintext@) == Some(ciphertext@),
            None => sealed(key@, nonce@, plaintext@) is None,
        },
        r is Some <==> plaintext@.len() <= MAX_PLAINTEXT_BYTES,
        r is Some ==> r->0@.len() == plaintext@.len() + 16,
{
    let key = aes_gcm::Key::<aes_gcm::Aes256Gcm>::from_slice(key);
    let cipher: aes_gcm::Aes256Gcm = aes_gcm::KeyInit::new(key);
    aes_gcm::aead::Aead::encrypt(&cipher, aes_gcm::Nonce::from_slice(nonce), plaintext).ok()
}

/// Where `ciphertext` was made of a plaintext, `r` is that plaintext.
pub open spec fn recovers_plaintext(
    key: Seq<u8>,
    nonce: Seq<u8>,
    ciphertext: Seq<u8>,
    r: Option<Vec<u8>>,
) -> bool {
    forall|plaintext: Seq<u8>|
        #[trigger] sealed(key, nonce, plaintext) == Some(ciphertext) ==> (r matches Some(v) && v@
            == plaintext)
}

/// Decrypts (`aes_gcm::Aes256Gcm`, `Aead::decrypt`, with no associated data). What was encrypted
/// with the same key and nonce is recovered.
#[verifier::external_body]
fn decrypt(key: &[u8], nonce: &[u8], ciphertext: &[u8]) -> (r: Option<Vec<u8>>)
    requires
        key@.len() == KEY_BYTES,
        nonce@.len() == NONCE_BYTES,
    ensures
        match r {
            Some(plaintext) => unsealed(key@, nonce@, ciphertext@) == Some(plaintext@),
            None => unsealed(key@, nonce@, ciphertext@) is None,
        },
        recovers_plaintext(key@, nonce@, ciphertext@, r),
{
    let key = aes_gcm::Key::<aes_gcm::Aes256Gcm>::from_slice(key);
    let cipher: aes_gcm::Aes256Gcm = aes_gcm::KeyInit::new(key);
    aes_gcm::aead::Aead::decrypt(&cipher, aes_gcm::Nonce::from_slice(nonce), ciphertext).ok()
}

/// The SHA-256 digest of `data` (`sha2::Sha256::digest`), 32 bytes long.
#[verifier::external_body]
fn digest(data: &[u8]) -> (r: Vec<u8>)
    ensures
        r@ == sha256(data@),
        r@.len() == KEY_BYTES,
{
    <sha2::Sha256 as sha2::Digest>::digest(data).to_vec()
}

/// A fresh nonce (`rand::RngCore::fill_bytes` of `rand::thread_rng`): random, but always of the
/// length of a nonce.
#[verifier::external_body]
fn random_nonce() -> (r: Vec<u8>)
    ensures
        r@.len() == NONCE_BYTES,
{
    let mut nonce = vec![0u8; NONCE_BYTES];
    rand::RngCore::fill_bytes(&mut rand::thread_rng(), &mut nonce);
    nonce
}

/// The name of this machine (`hostname::get`), where it can be had. It depends on the machine, so
/// nothing is said of it.
#[verifier::external_body]
fn machine_name() -> Option<Vec<u8>> {
    hostname::get().ok().map(|name| name.as_encoded_bytes().to_vec())
}

/// The name of the user (`whoami::username`). It depends on the machine, so nothing is said of it.
#[verifier::external_body]
fn user_name() -> String {
    whoami::username()
}

/// What the key of a machine and a user is the digest of.
pub open spec fn key_seed(hostname: Option<Seq<u8>>, username: Seq<char>) -> Seq<u8> {
    let host = match hostname {
        Some(name) => name,
        None => Seq::empty(),
    };
    host + vstd::utf8::encode_utf8(username) + vstd::utf8::encode_utf8(
        "mcp-auth-proxy-token-storage-v1"@,
    )
}

/// The key of a machine and a user.
pub fn derive_key(hostname: Option<&[u8]>, username: &str) -> (r: Vec<u8>)
    ensures
        r@ == sha256(
            key_seed(
                match hostname {
                    Some(name) => Some(name@),
                    None => None,
                },
                username@,
            ),
        ),
        r@.len() == KEY_BYTES,
{
    let mut seed: Vec<u8> = Vec::new();
    if let Some(name) = hostname {
        seed.extend_from_slice(name);
        assert(seed@ =~= name@);
    }
    let ghost host = seed@;
    seed.extend_from_slice(username.as_bytes());
    seed.extend_from_slice("mcp-auth-proxy-token-storage-v1".as_bytes());
    assert(seed@ =~= host + vstd::utf8::encode_utf8(username@) + vstd::utf8::encode_utf8(
        "mcp-auth-proxy-token-storage-v1"@,
    ));
    digest(seed.as_slice())
}

/// Derive a 256-bit key from machine-specific data.
/// This is NOT a secure key derivation for adversarial scenarios: it protects
/// against casual file access but not determined attackers with local access.
pub fn derive_machine_key() -> (r: Vec<u8>)
    ensures
        r@.len() == KEY_BYTES,
        exists|hostname: Option<Seq<u8>>, username: Seq<char>|
            r@ == sha256(#[trigger] key_seed(hostname, username)),
{
    let host = machine_name();
    let user = user_name();
    match &host {
        Some(name) => derive_key(Some(name.as_slice()), user.as_str()),
        None => derive_key(None, user.as_str()),
    }
}

/// What stands under the ciphertext of a file that holds `contents`.
pub open spec fn plaintext_of(contents: Map<Seq<char>, Seq<char>>) -> Seq<u8> {
    vstd::utf8::encode_utf8(json::json_text(json::text_object(contents)))
}

/// The file that holds `contents`, with the nonce `nonce`; `None` where they are too long.
pub open spec fn encoded(
    key: Seq<u8>,
    nonce: Seq<u8>,
    contents: Map<Seq<char>, Seq<char>>,
) -> Option<Seq<u8>> {
    match sealed(key, nonce, plaintext_of(contents)) {
        Some(ciphertext) => Some(nonce + ciphertext),
        None => None,
    }
}

/// What a file holds. One that is too short for a nonce holds nothing.
pub open spec fn decoded(key: Seq<u8>, file: Seq<u8>) -> Result<
    Map<Seq<char>, Seq<char>>,
    StorageError,
> {
    if file.len() < NONCE_BYTES {
        Ok(Map::empty())
    } else {
        match unsealed(key, file.take(NONCE_BYTES as int), file.skip(NONCE_BYTES as int)) {
            None => Err(StorageError::Decrypt),
            Some(plaintext) => match json::texts_parsed(plaintext) {
                None => Err(StorageError::Parse),
                Some(contents) => Ok(contents),
            },
        }
    }
}

/// Where `file` was made of some contents, `r` is those contents.
pub open spec fn recovers_contents(
    key: Seq<u8>,
    file: Seq<u8>,
    r: Result<NameMap<String>, StorageError>,
) -> bool {
    forall|nonce: Seq<u8>, contents: Map<Seq<char>, Seq<char>>|
        nonce.len() == NONCE_BYTES && contents.dom().finite() && #[trigger] encoded(
            key,
            nonce,
            contents,
        ) == Some(file) ==> (r matches Ok(found) && found@ == contents)
}

/// The contents of a file, from the texts that its plaintext reads as, if it does.
pub fn read_contents(texts: Option<NameMap<String>>) -> (r: Result<NameMap<String>, StorageError>)
    ensures
        match texts {
            Some(contents) => r == Ok::<NameMap<String>, StorageError>(contents),
            None => r == Err::<NameMap<String>, StorageError>(StorageError::Parse),
        },
{
    match texts {
        Some(contents) => Ok(contents),
        None => Err(StorageError::Parse),
    }
}

/// The file that holds `contents`, with the nonce `nonce`.
pub fn encode(key: &[u8], nonce: &[u8], contents: &NameMap<String>) -> (r: Result<
    Vec<u8>,
    StorageError,
>)
    requires
        key@.len() == KEY_BYTES,
        nonce@.len() == NONCE_BYTES,
    ensures
        match encoded(key@, nonce@, contents@) {
            Some(file) => r matches Ok(bytes) && bytes@ == file,
            None => r == Err::<Vec<u8>, StorageError>(StorageError::Encrypt),
        },
        r is Ok <==> plaintext_of(contents@).len() <= MAX_PLAINTEXT_BYTES,
{
    let plaintext = Json::from_texts(contents).to_text();
    match encrypt(key, nonce, plaintext.as_str().as_bytes()) {
        Some(ciphertext) => {
            let mut out: Vec<u8> = Vec::new();
            out.extend_from_slice(nonce);
            out.extend_from_slice(ciphertext.as_slice());
            assert(out@ =~= nonce@ + ciphertext@);
            Ok(out)
        },
        None => Err(StorageError::Encrypt),
    }
}

/// What a file holds. What was encoded with the same key is read back as it was.
pub fn decode(key: &[u8], file: &[u8]) -> (r: Result<NameMap<String>, StorageError>)
    requires
        key@.len() == KEY_BYTES,
    ensures
        match decoded(key@, file@) {
            Ok(contents) => r matches Ok(found) && found@ == contents,
            Err(e) => r == Err::<NameMap<String>, StorageError>(e),
        },
        recovers_contents(key@, file@, r),
{
    if file.len() < NONCE_BYTES {
        return Ok(NameMap::new());
    }
    let (nonce, ciphertext) = file.split_at(NONCE_BYTES);
    assert(nonce@ =~= file@.take(NONCE_BYTES as int));
    assert(ciphertext@ =~= file@.skip(NONCE_BYTES as int));
    let opened = decrypt(key, nonce, ciphertext);
    let r = match &opened {
        None => Err(StorageError::Decrypt),
        Some(plaintext) => read_contents(json::parse_texts(plaintext.as_slice())),
    };
    proof {
        assert forall|n: Seq<u8>, contents: Map<Seq<char>, Seq<char>>|
            n.len() == NONCE_BYTES && contents.dom().finite() && #[trigger] encoded(
                key@,
                n,
                contents,
            ) == Some(file@) implies (r matches Ok(found) && found@ == contents) by {
            let plaintext = plaintext_of(contents);
            let inner = sealed(key@, n, plaintext)->0;
            assert(file@ == n + inner);
            assert(nonce@ =~= n);
            assert(ciphertext@ =~= inner);
            assert(sealed(key@, nonce@, plaintext) == Some(ciphertext@));
        }
    }
    r
}

/// A token file and what it holds, as far as it has been read. Reading the file anew on every
/// access is avoided.
#[derive(Debug)]
pub struct EncryptedFileStorage {
    path: Vec<u8>,
    key: Vec<u8>,
    cache: Option<NameMap<String>>,
}

/// What came of reading the token file.
#[derive(Debug)]
pub enum FileContents {
    Missing,
    Unreadable,
    Bytes(Vec<u8>),
}

impl EncryptedFileStorage {
    /// The key has the length of a key.
    #[verifier::type_invariant]
    spec fn has_key(self) -> bool {
        self.key@.len() == KEY_BYTES
    }

    /// The path of the token file.
    pub closed spec fn path(self) -> Seq<u8> {
        self.path@
    }

    /// The key that the token file is encrypted with.
    pub closed spec fn key(self) -> Seq<u8> {
        self.key@
    }

    /// What the token file holds, once it has been read.
    pub closed spec fn contents(self) -> Option<Map<Seq<char>, Seq<char>>> {
        match self.cache {
            Some(contents) => Some(contents@),
            None => None,
        }
    }

    /// Where `file` was made of some contents, they are known.
    pub open spec fn has_read(self, file: Seq<u8>) -> bool {
        forall|nonce: Seq<u8>, contents: Map<Seq<char>, Seq<char>>|
            nonce.len() == NONCE_BYTES && contents.dom().finite() && #[trigger] encoded(
                self.key(),
                nonce,
                contents,
            ) == Some(file) ==> self.contents() == Some(contents)
    }

    /// The storage in the file `path`, encrypted with `key`.
    pub fn with_key(path: Vec<u8>, key: Vec<u8>) -> (r: EncryptedFileStorage)
        requires
            key@.len() == KEY_BYTES,
        ensures
            r.path() == path@,
            r.key() == key@,
            r.contents() is None,
    {
        EncryptedFileStorage { path, key, cache: None }
    }

    /// The storage in the file `path`, encrypted with a key that is derived from machine-specific
    /// data (hostname and username).
    pub fn new(path: Vec<u8>) -> (r: EncryptedFileStorage)
        ensures
            r.path() == path@,
            exists|hostname: Option<Seq<u8>>, username: Seq<char>|
                r.key() == sha256(#[trigger] key_seed(hostname, username)),
            r.contents() is None,
    {
        EncryptedFileStorage::with_key(path, derive_machine_key())
    }

    /// The path of the token file.
    pub fn file(&self) -> (r: &Vec<u8>)
        ensures
            r@ == self.path(),
    {
        &self.path
    }

    /// What becomes of `self` when the token file is taken in: what has been read before stays.
    pub open spec fn loads(
        self,
        file: FileContents,
        after: EncryptedFileStorage,
        r: Result<(), StorageError>,
    ) -> bool {
        &&& after.path() == self.path()
        &&& after.key() == self.key()
        &&& match self.contents() {
            Some(contents) => r is Ok && after.contents() == Some(contents),
            None => match file {
                FileContents::Missing => r is Ok && after.contents() == Some(
                    Map::<Seq<char>, Seq<char>>::empty(),
                ),
                FileContents::Unreadable => {
                    &&& r matches Err(StorageError::ReadFile { path }) && path@
                        == text::utf8_lossy(self.path())
                    &&& after.contents() is None
                },
                FileContents::Bytes(bytes) => match decoded(self.key(), bytes@) {
                    Ok(contents) => r is Ok && after.contents() == Some(contents),
                    Err(e) => r == Err::<(), StorageError>(e) && after.contents() is None,
                },
            },
        }
    }

    /// Takes in the token file, unless it has been read before.
    pub fn load(&mut self, file: FileContents) -> (r: Result<(), StorageError>)
        ensures
            old(self).loads(file, *final(self), r),
            old(self).contents() is None && file is Bytes ==> final(self).has_read(
                file->Bytes_0@,
            ),
    {
        if self.cache.is_some() {
            return Ok(());
        }
        proof {
            use_type_invariant(&*self);
        }
        match file {
            FileContents::Missing => {
                self.cache = Some(NameMap::new());
                Ok(())
            },
            FileContents::Unreadable => Err(
                StorageError::ReadFile { path: text::lossy_text(self.path.as_slice()) },
            ),
            FileContents::Bytes(bytes) => match decode(self.key.as_slice(), bytes.as_slice()) {
                Ok(contents) => {
                    self.cache = Some(contents);
                    Ok(())
                },
                Err(e) => Err(e),
            },
        }
    }

    /// Takes in what was written to the token file.
    pub fn commit(&mut self, contents: NameMap<String>)
        ensures
            final(self).path() == old(self).path(),
            final(self).key() == old(self).key(),
            final(self).contents() == Some(contents@),
    {
        proof {
            use_type_invariant(&*self);
        }
        self.cache = Some(contents);
    }

    /// `action` writes a file that holds `contents`, with some nonce. Contents that are too long
    /// are not written.
    pub open spec fn writes(self, contents: Map<Seq<char>, Seq<char>>, action: StorageAction) -> bool {
        &&& contents.dom().finite()
        &&& action is WriteFile <==> plaintext_of(contents).len() <= MAX_PLAINTEXT_BYTES
        &&& exists|nonce: Seq<u8>|
            nonce.len() == NONCE_BYTES && match #[trigger] encoded(self.key(), nonce, contents) {
                Some(file) => action matches StorageAction::WriteFile { bytes, contents: kept }
                    && bytes@ == file && kept@ == contents,
                None => action == StorageAction::Fail(StorageError::Encrypt),
            }
    }

    /// Writes `contents` with a nonce that is drawn at random.
    fn save(&self, contents: NameMap<String>) -> (r: StorageAction)
        ensures
            self.writes(contents@, r),
    {
        proof {
            use_type_invariant(self);
        }
        let nonce = random_nonce();
        let ghost expected = encoded(self.key(), nonce@, contents@);
        proof {
            name_map::lemma_entries_map_finite(contents.entries());
        }
        match encode(self.key.as_slice(), nonce.as_slice(), &contents) {
            Ok(bytes) => StorageAction::WriteFile { bytes, contents },
            Err(e) => StorageAction::Fail(e),
        }
    }
}

impl TokenStorage for EncryptedFileStorage {
    open spec fn looks_up(&self, key: Seq<char>, action: StorageAction) -> bool {
        match self.contents() {
            None => action is ReadFile,
            Some(contents) => action matches StorageAction::Found(value) && value.deep_view()
                == if contents.contains_key(key) {
                Some(contents[key])
            } else {
                None
            },
        }
    }

    open spec fn keeps(&self, key: Seq<char>, value: Seq<char>, action: StorageAction) -> bool {
        match self.contents() {
            None => action is ReadFile,
            Some(contents) => self.writes(contents.insert(key, value), action),
        }
    }

    open spec fn drops(&self, key: Seq<char>, action: StorageAction) -> bool {
        match self.contents() {
            None => action is ReadFile,
            Some(contents) => self.writes(contents.remove(key), action),
        }
    }

    fn get(&self, key: &str) -> (r: StorageAction) {
        match &self.cache {
            None => StorageAction::ReadFile,
            Some(contents) => match contents.get(key) {
                Some(value) => StorageAction::Found(Some(value.clone())),
                None => StorageAction::Found(None),
            },
        }
    }

    fn set(&self, key: &str, value: &str) -> (r: StorageAction) {
        match &self.cache {
            None => StorageAction::ReadFile,
            Some(contents) => {
                let mut contents = contents.duplicate();
                contents.insert(key.to_owned(), value.to_owned());
                self.save(contents)
            },
        }
    }

    fn delete(&self, key: &str) -> (r: StorageAction) {
        match &self.cache {
            None => StorageAction::ReadFile,
            Some(contents) => {
                let mut contents = contents.duplicate();
                contents.remove(key);
                self.save(contents)
            },
        }
    }
}

/// What was written is read back whole by whoever reads the file with the same key.
pub proof fn law_written_is_read(
    storage: EncryptedFileStorage,
    contents: Map<Seq<char>, Seq<char>>,
    written: StorageAction,
    reader: EncryptedFileStorage,
)
    requires
        storage.writes(contents, written),
        written is WriteFile,
        reader.key() == storage.key(),
        reader.has_read(written->bytes@),
    ensures
        reader.contents() == Some(contents),
{
}

/// What was kept is found by whoever reads the file that was written, with the same key: under its
/// key stands the value, and under every other key stands what stood there before.
pub proof fn law_kept_is_found(
    storage: EncryptedFileStorage,
    key: Seq<char>,
    value: Seq<char>,
    written: StorageAction,
    reader: EncryptedFileStorage,
    other: Seq<char>,
    found: StorageAction,
)
    requires
        storage.contents() is Some,
        storage.keeps(key, value, written),
        written is WriteFile,
        reader.key() == storage.key(),
        reader.has_read(written->bytes@),
        reader.looks_up(other, found),
    ensures
        other == key ==> (found matches StorageAction::Found(Some(v)) && v@ == value),
        other != key ==> storage.looks_up(other, found),
{
}

/// What was dropped is not found by whoever reads the file that was written, with the same key;
/// everything else is.
pub proof fn law_dropped_is_gone(
    storage: EncryptedFileStorage,
    key: Seq<char>,
    written: StorageAction,
    reader: EncryptedFileStorage,
    other: Seq<char>,
    found: StorageAction,
)
    requires
        storage.contents() is Some,
        storage.drops(key, written),
        written is WriteFile,
        reader.key() == storage.key(),
        reader.has_read(written->bytes@),
        reader.looks_up(other, found),
    ensures
        other == key ==> found == StorageAction::Found(None),
        other != key ==> storage.looks_up(other, found),
{
}

/// The key is the digest of the name of the machine, if that is known, the name of the user, and a
/// text of this program, one after the other.
pub proof fn law_key_seed(host: Seq<u8>, user: Seq<char>)
    ensures
        key_seed(Some(host), user) == host + key_seed(None, user),
        key_seed(None, user) == vstd::utf8::encode_utf8(user) + vstd::utf8::encode_utf8(
            "mcp-auth-proxy-token-storage-v1"@,
        ),
{
    assert(key_seed(None, user) =~= vstd::utf8::encode_utf8(user) + vstd::utf8::encode_utf8(
        "mcp-auth-proxy-token-storage-v1"@,
    ));
    assert(key_seed(Some(host), user) =~= host + key_seed(None, user));
}

/// A file starts with its nonce of 12 bytes, and the rest is the ciphertext of the contents under
/// that nonce: a JSON object that has the values, as texts, under their keys.
pub proof fn law_file_layout(
    key: Seq<u8>,
    nonce: Seq<u8>,
    contents: Map<Seq<char>, Seq<char>>,
    file: Seq<u8>,
)
    requires
        nonce.len() == 12,
        encoded(key, nonce, contents) == Some(file),
    ensures
        file.take(12) == nonce,
        sealed(
            key,
            file.take(12),
            vstd::utf8::encode_utf8(json::json_text(json::text_object(contents))),
        ) == Some(file.skip(12)),
{
    assert(file.take(12) =~= nonce);
    let ciphertext = sealed(key, nonce, plaintext_of(contents))->0;
    assert(file.skip(12) =~= ciphertext);
}

/// A file that is too short for a nonce holds nothing; one that does not decrypt with the nonce it
/// starts with, and one whose plaintext holds no texts, is told as such; any other holds the texts
/// of its plaintext.
pub proof fn law_file_is_read(key: Seq<u8>, nonce: Seq<u8>, ciphertext: Seq<u8>, short: Seq<u8>)
    requires
        nonce.len() == 12,
        short.len() < 12,
    ensures
        decoded(key, short) == Ok::<Map<Seq<char>, Seq<char>>, StorageError>(Map::empty()),
        unsealed(key, nonce, ciphertext) is None ==> decoded(key, nonce + ciphertext) == Err::<
            Map<Seq<char>, Seq<char>>,
            StorageError,
        >(StorageError::Decrypt),
        unsealed(key, nonce, ciphertext) matches Some(plaintext) ==> (json::texts_parsed(
            plaintext,
        ) is None ==> decoded(key, nonce + ciphertext) == Err::<
            Map<Seq<char>, Seq<char>>,
            StorageError,
        >(StorageError::Parse)),
        unsealed(key, nonce, ciphertext) matches Some(plaintext) ==> (json::texts_parsed(
            plaintext,
        ) matches Some(contents) ==> decoded(key, nonce + ciphertext) == Ok::<
            Map<Seq<char>, Seq<char>>,
            StorageError,
        >(contents)),
{
    let file = nonce + ciphertext;
    assert(file.take(12) =~= nonce);
    assert(file.skip(12) =~= ciphertext);
}

/// What has been read is not read again: whatever file is taken in later, the contents stay. A file
/// that is missing holds nothing, and one that cannot be read, or not understood, leaves the
/// contents unknown.
pub proof fn law_file_is_read_once(
    before: EncryptedFileStorage,
    file: FileContents,
    after: EncryptedFileStorage,
    r: Result<(), StorageError>,
)
    requires
        before.loads(file, after, r),
    ensures
        after.path() == before.path(),
        after.key() == before.key(),
        before.contents() is Some ==> r is Ok && after.contents() == before.contents(),
        before.contents() is None && file is Missing ==> r is Ok && after.contents() == Some(
            Map::<Seq<char>, Seq<char>>::empty(),
        ),
        before.contents() is None && file is Unreadable ==> (r matches Err(e) && e.words()
            == "failed to read token file: "@ + text::utf8_lossy(before.path())),
        r is Ok <==> after.contents() is Some,
        before.contents() is None && file is Bytes && decoded(before.key(), file->Bytes_0@) is Ok
            ==> after.contents() == Some(decoded(before.key(), file->Bytes_0@)->Ok_0),
        before.contents() is None && file is Bytes && decoded(before.key(), file->Bytes_0@) is Err
            ==> r is Err && r->Err_0 == decoded(before.key(), file->Bytes_0@)->Err_0,
{
}

/// As long as the file has not been read, every request asks for it first. Once it has, a lookup is
/// answered from it, and what is to be kept is written unless it is longer than 2^36 bytes.
pub proof fn law_file_is_asked_for(
    storage: EncryptedFileStorage,
    key: Seq<char>,
    value: Seq<char>,
    found: StorageAction,
    kept: StorageAction,
    dropped: StorageAction,
)
    requires
        storage.looks_up(key, found),
        storage.keeps(key, value, kept),
        storage.drops(key, dropped),
    ensures
        storage.contents() is None ==> found is ReadFile && kept is ReadFile && dropped is ReadFile,
        storage.contents() matches Some(contents) ==> {
            &&& found is Found
            &&& contents.contains_key(key) ==> (found->Found_0 matches Some(v) && v@
                == contents[key])
            &&& !contents.contains_key(key) ==> found->Found_0 is None
            &&& kept is WriteFile || kept == StorageAction::Fail(StorageError::Encrypt)
            &&& dropped is WriteFile || dropped == StorageAction::Fail(StorageError::Encrypt)
            &&& kept is WriteFile ==> kept->WriteFile_contents@ == contents.insert(key, value)
            &&& dropped is WriteFile ==> dropped->WriteFile_contents@ == contents.remove(key)
            &&& kept is WriteFile <==> vstd::utf8::encode_utf8(
                json::json_text(json::text_object(contents.insert(key, value))),
            ).len() <= 0x10_0000_0000
            &&& dropped is WriteFile <==> vstd::utf8::encode_utf8(
                json::json_text(json::text_object(contents.remove(key))),
            ).len() <= 0x10_0000_0000
        },
{
}

} // verus!
