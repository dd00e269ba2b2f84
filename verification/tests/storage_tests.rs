use assistant_core::secure_storage::{SecureStorage, SecureStorageError};

#[test]
fn set_get_delete_has() {
    let mut st = SecureStorage::new("machine-under-test");
    assert!(!st.has_credential("provider_a"));
    st.set_credential("provider_a", "SECRET-REDACTED").unwrap();
    assert!(st.has_credential("provider_a"));
    assert_eq!(st.get_credential("provider_a").unwrap(), "SECRET-REDACTED");
    st.set_credential("provider_a", "rotated").unwrap();
    assert_eq!(st.get_credential("provider_a").unwrap(), "rotated");
    st.delete_credential("provider_a").unwrap();
    assert!(!st.has_credential("provider_a"));
    // deleting an absent name still succeeds
    st.delete_credential("provider_a").unwrap();
}

#[test]
fn missing_credential_is_not_found() {
    let st = SecureStorage::new("machine-under-test");
    match st.get_credential("nope") {
        Err(SecureStorageError::NotFound(k)) => assert_eq!(k, "nope"),
        other => panic!("expected the not-found error, got {:?}", other),
    }
}

#[test]
fn credential_pairs_lists_all_entries() {
    let mut st = SecureStorage::new("machine-under-test");
    st.set_credential("a", "1").unwrap();
    st.set_credential("b", "2").unwrap();
    st.set_credential("a", "3").unwrap();
    let mut pairs = st.credential_pairs();
    pairs.sort();
    assert_eq!(
        pairs,
        vec![("a".to_string(), "3".to_string()), ("b".to_string(), "2".to_string())]
    );
}

#[test]
fn seal_then_open_restores_the_blob() {
    let st = SecureStorage::new("machine-under-test");
    let plain: Vec<u8> = br#"{"provider_a":"SECRET-REDACTED"}"#.to_vec();
    let sealed = st.seal_credentials(&plain);
    assert!(sealed.len() > 12);
    let opened = st.open_credentials(&sealed).unwrap();
    assert_eq!(opened, plain);
}

#[test]
fn another_machine_cannot_open_the_blob() {
    let st = SecureStorage::new("machine-one");
    let other = SecureStorage::new("machine-two");
    let sealed = st.seal_credentials(&b"payload".to_vec());
    match other.open_credentials(&sealed) {
        Err(SecureStorageError::Encryption(_)) => {}
        other => panic!("expected the encryption error, got {:?}", other),
    }
}

#[test]
fn tampered_blob_is_rejected() {
    let st = SecureStorage::new("machine-under-test");
    let mut sealed = st.seal_credentials(&b"payload".to_vec());
    let last = sealed.len() - 1;
    sealed[last] ^= 0x01;
    assert!(matches!(
        st.open_credentials(&sealed),
        Err(SecureStorageError::Encryption(_))
    ));
}

#[test]
fn same_machine_identifier_derives_the_same_key() {
    let a = SecureStorage::new("machine-same");
    let b = SecureStorage::new("machine-same");
    let sealed = a.seal_credentials(&b"shared".to_vec());
    assert_eq!(b.open_credentials(&sealed).unwrap(), b"shared".to_vec());
}
