use mcp_auth_proxy::config::{EncryptedFileConfig, StorageType, TokenStorageConfig};
use mcp_auth_proxy::name_map::NameMap;
use mcp_auth_proxy::storage::encrypted_file::{
    decode, derive_key, derive_machine_key, encode, read_contents, EncryptedFileStorage,
    FileContents,
};
use mcp_auth_proxy::storage::keychain::{
    deleted, got, probe_key, service_name, was_set, KeychainReply, KeychainStorage,
};
use mcp_auth_proxy::storage::{
    create_storage, create_storage_by_type, default_encrypted_file_path, encrypted_file_path,
    StorageAction, StorageError, StorageSpec, TokenStorage,
};

fn storage() -> EncryptedFileStorage {
    EncryptedFileStorage::with_key(b"tokens.enc".to_vec(), vec![7u8; 32])
}

fn written(action: StorageAction) -> (Vec<u8>, NameMap<String>) {
    match action {
        StorageAction::WriteFile { bytes, contents } => (bytes, contents),
        other => panic!("{:?}", other),
    }
}

fn found(action: StorageAction) -> Option<String> {
    match action {
        StorageAction::Found(value) => value,
        other => panic!("{:?}", other),
    }
}

#[test]
fn what_was_set_is_found_after_a_restart() {
    let mut s = storage();
    assert!(matches!(s.get("k"), StorageAction::ReadFile));
    assert!(matches!(s.set("k", "v"), StorageAction::ReadFile));
    assert!(s.load(FileContents::Missing).is_ok());
    assert_eq!(found(s.get("k")), None);
    let (_, contents) = written(s.set("k", "v"));
    s.commit(contents);
    let (bytes, contents) = written(s.set("other", "\u{1F511} \"w\"\n"));
    s.commit(contents);
    assert_eq!(found(s.get("k")), Some("v".to_string()));

    let mut reader = storage();
    assert!(reader.load(FileContents::Bytes(bytes.clone())).is_ok());
    assert_eq!(found(reader.get("k")), Some("v".to_string()));
    assert_eq!(found(reader.get("other")), Some("\u{1F511} \"w\"\n".to_string()));
    assert_eq!(found(reader.get("none")), None);

    let (bytes, _) = written(reader.delete("k"));
    let mut last = storage();
    assert!(last.load(FileContents::Bytes(bytes)).is_ok());
    assert_eq!(found(last.get("k")), None);
    assert_eq!(found(last.get("other")), Some("\u{1F511} \"w\"\n".to_string()));
}

#[test]
fn any_key_can_be_set() {
    let reserved = "$serde_json::private::RawValue";
    let mut s = storage();
    assert!(s.load(FileContents::Missing).is_ok());
    let (bytes, _) = written(s.set(reserved, "{"));
    let mut reader = storage();
    assert!(reader.load(FileContents::Bytes(bytes)).is_ok());
    assert_eq!(found(reader.get(reserved)), Some("{".to_string()));
}

#[test]
fn paths_need_not_be_unicode() {
    let mut s = EncryptedFileStorage::with_key(vec![b'/', 0xff], vec![7u8; 32]);
    assert_eq!(s.file(), &vec![b'/', 0xff]);
    let e = s.load(FileContents::Unreadable).unwrap_err();
    assert_eq!(e.message(), "failed to read token file: /\u{fffd}");
}

#[test]
fn an_unwritten_value_is_not_found() {
    let mut s = storage();
    assert!(s.load(FileContents::Missing).is_ok());
    let _ = s.set("k", "v");
    assert_eq!(found(s.get("k")), None);
}

#[test]
fn files_hide_their_contents() {
    let mut s = storage();
    assert!(s.load(FileContents::Missing).is_ok());
    let (one, _) = written(s.set("key", "secret-value"));
    let (two, _) = written(s.set("key", "secret-value"));
    assert_ne!(one, two);
    assert_eq!(one.len(), 12 + 16 + "{\"key\":\"secret-value\"}".len());
    assert!(!one.windows(6).any(|w| w == b"secret"));
}

#[test]
fn broken_files() {
    let mut s = storage();
    assert!(s.load(FileContents::Bytes(b"short".to_vec())).is_ok());
    assert_eq!(found(s.get("k")), None);
    let mut s = storage();
    let e = s.load(FileContents::Bytes(vec![0u8; 40])).unwrap_err();
    assert_eq!(e.message(), "failed to decrypt token file — key mismatch or corruption");
    let e = s.load(FileContents::Unreadable).unwrap_err();
    assert_eq!(e.message(), "failed to read token file: tokens.enc");
    assert!(matches!(s.get("k"), StorageAction::ReadFile));
    let mut contents: NameMap<String> = NameMap::new();
    contents.insert("a".to_string(), "b".to_string());
    let file = encode(&[7u8; 32], &[1u8; 12], &contents).unwrap();
    assert!(s.load(FileContents::Bytes(file.clone())).is_ok());
    let mut stranger = EncryptedFileStorage::with_key(b"x".to_vec(), vec![8u8; 32]);
    assert!(matches!(stranger.load(FileContents::Bytes(file)), Err(StorageError::Decrypt)));
}

#[test]
fn a_file_is_read_once() {
    let mut s = storage();
    assert!(s.load(FileContents::Missing).is_ok());
    assert!(s.load(FileContents::Unreadable).is_ok());
    assert_eq!(found(s.get("k")), None);
}

#[test]
fn files_are_a_nonce_and_a_ciphertext() {
    let mut contents: NameMap<String> = NameMap::new();
    contents.insert("a".to_string(), "b".to_string());
    let file = encode(&[7u8; 32], &[9u8; 12], &contents).unwrap();
    assert_eq!(&file[..12], &[9u8; 12]);
    assert_eq!(file.len(), 12 + 9 + 16);
    let back = decode(&[7u8; 32], &file).unwrap();
    assert_eq!(back.get("a").map(|v| v.as_str()), Some("b"));
    assert_eq!(back.len(), 1);
}

#[test]
fn contents_are_objects_of_texts() {
    let mut texts: NameMap<String> = NameMap::new();
    texts.insert("a".to_string(), "b".to_string());
    assert_eq!(read_contents(Some(texts)).unwrap().len(), 1);
    let e = read_contents(None).unwrap_err();
    assert_eq!(e.message(), "failed to parse decrypted token data");
}

#[test]
fn keys_depend_on_machine_and_user() {
    let key = derive_key(Some(b"host"), "user");
    assert_eq!(key.len(), 32);
    assert_eq!(key, derive_key(None, "hostuser"));
    assert_ne!(key, derive_key(Some(b"host"), "other"));
    let hex: String = key.iter().map(|b| format!("{:02x}", b)).collect();
    assert_eq!(hex, "9ff81175e9b2da477036ff7bba4b1174cc598763da3d00cbc597cfb2d3a20012");
    assert_ne!(derive_key(None, ""), key);
    assert_eq!(derive_machine_key(), derive_machine_key());
    assert_eq!(derive_machine_key().len(), 32);
    assert_eq!(EncryptedFileStorage::new(b"p".to_vec()).file(), b"p");
}

#[test]
fn keychain_requests() {
    assert_eq!(service_name(), "mcp-auth-proxy");
    assert_eq!(probe_key(), "__probe__");
    let k = KeychainStorage::new(&KeychainReply::NoEntry).unwrap();
    assert!(matches!(k.get("a"), StorageAction::KeychainGet { service, key } if service == "mcp-auth-proxy" && key == "a"));
    assert!(matches!(k.set("a", "b"), StorageAction::KeychainSet { key, value, .. } if key == "a" && value == "b"));
    assert!(matches!(k.delete("a"), StorageAction::KeychainDelete { key, .. } if key == "a"));
}

#[test]
fn keychain_replies() {
    let done = || KeychainReply::Done { value: "v".to_string() };
    let failed = || KeychainReply::Failed { reason: "why".to_string() };
    assert!(KeychainStorage::new(&done()).is_ok());
    assert_eq!(
        KeychainStorage::new(&failed()).unwrap_err().message(),
        "OS keychain not available: why"
    );
    assert_eq!(
        KeychainStorage::new(&KeychainReply::NoHandle).unwrap_err().message(),
        "failed to create keyring entry — OS keychain may not be available"
    );
    assert!(KeychainStorage::new(&KeychainReply::Panicked).is_err());
    assert_eq!(got(done()).unwrap(), Some("v".to_string()));
    assert_eq!(got(KeychainReply::NoEntry).unwrap(), None);
    assert_eq!(got(failed()).unwrap_err().message(), "keychain get failed: why");
    assert_eq!(got(KeychainReply::NoHandle).unwrap_err().message(), "failed to create keyring entry");
    assert_eq!(got(KeychainReply::Panicked).unwrap_err().message(), "keychain task panicked");
    assert!(was_set(done()).is_ok());
    assert_eq!(was_set(failed()).unwrap_err().message(), "keychain set failed");
    assert!(deleted(done()).is_ok());
    assert!(deleted(KeychainReply::NoEntry).is_ok());
    assert_eq!(deleted(failed()).unwrap_err().message(), "keychain delete failed: why");
}

#[test]
fn words_of_storage_errors() {
    let path = || "p".to_string();
    assert_eq!(
        StorageError::Directory { path: path() }.message(),
        "failed to create token storage directory: p"
    );
    assert_eq!(StorageError::WriteFile { path: path() }.message(), "failed to write token file: p");
    assert_eq!(StorageError::Encrypt.message(), "failed to encrypt token data");
}

fn config(fallback: Option<StorageType>, path: Option<&str>) -> TokenStorageConfig {
    TokenStorageConfig {
        storage_type: StorageType::Keychain,
        fallback,
        encrypted_file: Some(EncryptedFileConfig { path: path.map(|p| p.to_string()) }),
    }
}

#[test]
fn storage_falls_back() {
    let c = config(Some(StorageType::EncryptedFile), Some("/t"));
    assert!(matches!(create_storage(&c, false), Some(StorageSpec::Keychain)));
    assert!(matches!(create_storage(&c, true), Some(StorageSpec::EncryptedFile { path }) if path == b"/t"));
    assert!(create_storage(&config(None, None), true).is_none());
}

#[test]
fn token_files() {
    let path = |dir: &[u8]| encrypted_file_path(Some(dir.to_vec()));
    assert_eq!(path(b"/home/me/.config"), b"/home/me/.config/mcp-auth-proxy/tokens.enc");
    assert_eq!(path(b"/x/"), b"/x/mcp-auth-proxy/tokens.enc");
    assert_eq!(path(b"/\xff"), b"/\xff/mcp-auth-proxy/tokens.enc");
    assert_eq!(path(b""), b"mcp-auth-proxy/tokens.enc");
    assert_eq!(encrypted_file_path(None), b"./mcp-auth-proxy/tokens.enc");
    assert!(default_encrypted_file_path().ends_with(b"mcp-auth-proxy/tokens.enc"));
    match create_storage_by_type(StorageType::EncryptedFile, &config(None, None)) {
        StorageSpec::EncryptedFile { path } => assert_eq!(path, default_encrypted_file_path()),
        other => panic!("{:?}", other),
    }
}
