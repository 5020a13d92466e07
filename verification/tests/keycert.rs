use sni_config::error::{ConfigError, IoFailure};
use sni_config::keycert::Keycert;
use std::path::PathBuf;

fn denied() -> IoFailure {
    IoFailure { code: Some(13), message: String::from("Permission denied (os error 13)") }
}

#[test]
fn new_keycert_has_no_key() {
    let keycert = Keycert::new();
    assert_eq!(keycert.key(), Err(ConfigError::EmptyKey));
    assert!(keycert.key_file().is_none());
}

#[test]
fn new_keycert_has_no_cert() {
    let keycert = Keycert::new();
    assert_eq!(keycert.cert(), Err(ConfigError::EmptyCert));
    assert!(keycert.cert_file().is_none());
}

#[test]
fn default_keycert_is_empty() {
    let keycert = Keycert::default();
    assert_eq!(keycert.key(), Err(ConfigError::EmptyKey));
    assert_eq!(keycert.cert(), Err(ConfigError::EmptyCert));
    assert!(keycert.ocsp_resp().is_empty());
    assert!(keycert.next_file().is_none());
}

#[test]
fn key_bytes_are_handed_back() {
    let keycert = Keycert::new().with_key(vec![1, 2, 3]);
    assert_eq!(keycert.key(), Ok(&[1u8, 2, 3][..]));
    assert_eq!(keycert.cert(), Err(ConfigError::EmptyCert));
}

#[test]
fn cert_bytes_are_handed_back() {
    let keycert = Keycert::new().with_cert(vec![9, 8]);
    assert_eq!(keycert.cert(), Ok(&[9u8, 8][..]));
    assert_eq!(keycert.key(), Err(ConfigError::EmptyKey));
}

#[test]
fn last_setter_wins() {
    let keycert = Keycert::new().with_key(vec![1]).with_key(vec![2, 2]).with_cert(vec![3]).with_cert(vec![4]);
    assert_eq!(keycert.key(), Ok(&[2u8, 2][..]));
    assert_eq!(keycert.cert(), Ok(&[4u8][..]));
    let keycert = Keycert::new().with_key_path(PathBuf::from("a.key")).with_key_path(PathBuf::from("b.key"));
    assert_eq!(keycert.key_file(), Some(&PathBuf::from("b.key")));
}

#[test]
fn key_path_alone_gives_no_bytes_until_the_file_is_read() {
    let mut keycert = Keycert::new().with_key_path(PathBuf::from("server.key"));
    assert_eq!(keycert.key_file(), Some(&PathBuf::from("server.key")));
    assert_eq!(keycert.key(), Err(ConfigError::EmptyKey));
    assert_eq!(keycert.key_loaded(Ok(vec![7, 7, 7])), Ok(()));
    assert_eq!(keycert.key(), Ok(&[7u8, 7, 7][..]));
    assert!(keycert.key_file().is_none());
}

#[test]
fn key_file_is_asked_for_once() {
    let mut keycert = Keycert::new().with_key_path(PathBuf::from("empty.key"));
    assert_eq!(keycert.key_loaded(Ok(vec![])), Ok(()));
    assert!(keycert.key_file().is_none());
    assert_eq!(keycert.key(), Err(ConfigError::EmptyKey));
    assert_eq!(keycert.key_loaded(Ok(vec![1])), Ok(()));
    assert_eq!(keycert.key(), Err(ConfigError::EmptyKey));
}

#[test]
fn key_bytes_come_before_the_path() {
    let mut keycert = Keycert::new().with_key(vec![5]).with_key_path(PathBuf::from("server.key"));
    assert!(keycert.key_file().is_none());
    assert_eq!(keycert.key_loaded(Ok(vec![6])), Ok(()));
    assert_eq!(keycert.key(), Ok(&[5u8][..]));
    assert_eq!(keycert.key_loaded(Err(denied())), Ok(()));
}

#[test]
fn failed_key_read_is_handed_back() {
    let mut keycert = Keycert::new().with_key_path(PathBuf::from("server.key"));
    assert_eq!(keycert.key_loaded(Err(denied())), Err(ConfigError::IoFailure(denied())));
    assert_eq!(keycert.key_file(), Some(&PathBuf::from("server.key")));
    assert_eq!(keycert.key(), Err(ConfigError::EmptyKey));
}

#[test]
fn cert_path_alone_gives_no_bytes_until_the_file_is_read() {
    let mut keycert = Keycert::new().with_cert_path(PathBuf::from("server.crt"));
    assert_eq!(keycert.cert_file(), Some(&PathBuf::from("server.crt")));
    assert_eq!(keycert.cert(), Err(ConfigError::EmptyCert));
    assert_eq!(keycert.cert_loaded(Ok(vec![4, 2])), Ok(()));
    assert_eq!(keycert.cert(), Ok(&[4u8, 2][..]));
    assert!(keycert.cert_file().is_none());
}

#[test]
fn failed_cert_read_is_handed_back() {
    let mut keycert = Keycert::new().with_cert_path(PathBuf::from("server.crt"));
    assert_eq!(keycert.cert_loaded(Err(denied())), Err(ConfigError::IoFailure(denied())));
    assert_eq!(keycert.cert_file(), Some(&PathBuf::from("server.crt")));
}

#[test]
fn certificate_file_is_read_before_key_file() {
    let mut keycert = Keycert::new()
        .with_key_path(PathBuf::from("server.key"))
        .with_cert_path(PathBuf::from("server.crt"));
    assert_eq!(keycert.next_file(), Some(&PathBuf::from("server.crt")));
    assert_eq!(keycert.file_loaded(Ok(vec![1])), Ok(()));
    assert_eq!(keycert.next_file(), Some(&PathBuf::from("server.key")));
    assert_eq!(keycert.file_loaded(Ok(vec![2])), Ok(()));
    assert!(keycert.next_file().is_none());
    assert_eq!(keycert.cert(), Ok(&[1u8][..]));
    assert_eq!(keycert.key(), Ok(&[2u8][..]));
    assert_eq!(keycert.file_loaded(Ok(vec![3])), Ok(()));
    assert_eq!(keycert.cert(), Ok(&[1u8][..]));
    assert_eq!(keycert.key(), Ok(&[2u8][..]));
}

#[test]
fn new_path_is_asked_for_again() {
    let mut keycert = Keycert::new().with_key_path(PathBuf::from("empty.key"));
    assert_eq!(keycert.key_loaded(Ok(vec![])), Ok(()));
    assert!(keycert.key_file().is_none());
    let keycert = keycert.with_key_path(PathBuf::from("other.key"));
    assert_eq!(keycert.key_file(), Some(&PathBuf::from("other.key")));
}

#[test]
fn empty_material_builds_no_identity() {
    assert!(matches!(Keycert::new().build_certified_key(), Err(ConfigError::EmptyCert)));
}
