use yushan::store::{Phase, SessionStore, StoreError, StoreValue};

#[test]
fn put_then_get_returns_value() {
    let mut s = SessionStore::new();
    s.put("s1", Phase::SecretNonce, StoreValue::Blob(vec![1, 2, 3]));
    assert_eq!(s.get("s1", Phase::SecretNonce), Ok(&StoreValue::Blob(vec![1, 2, 3])));
}

#[test]
fn missing_key_names_phase() {
    let mut s = SessionStore::new();
    s.put("s1", Phase::SecretNonce, StoreValue::Blob(vec![1]));
    assert_eq!(s.get("s2", Phase::SecretNonce), Err(StoreError::Missing(Phase::SecretNonce)));
    assert_eq!(s.get("s1", Phase::FinalNonce), Err(StoreError::Missing(Phase::FinalNonce)));
}

#[test]
fn later_put_replaces_earlier() {
    let mut s = SessionStore::new();
    s.put("s1", Phase::SecretNonce, StoreValue::Blob(vec![1]));
    s.put("s2", Phase::SecretNonce, StoreValue::Blob(vec![9]));
    s.put("s1", Phase::SecretNonce, StoreValue::Blob(vec![2]));
    assert_eq!(s.get("s1", Phase::SecretNonce), Ok(&StoreValue::Blob(vec![2])));
    assert_eq!(s.get("s2", Phase::SecretNonce), Ok(&StoreValue::Blob(vec![9])));
}

#[test]
fn store_rebuilt_from_entries_reads_the_same() {
    let mut s = SessionStore::new();
    s.put("a", Phase::Commitments, StoreValue::Text("x".to_string()));
    s.put("a", Phase::Commitments, StoreValue::Text("y".to_string()));
    let t = SessionStore::from_entries(s.entries().clone());
    assert_eq!(t.get("a", Phase::Commitments), Ok(&StoreValue::Text("y".to_string())));
}

#[test]
fn greeting_is_fixed() {
    assert_eq!(yushan::test_wasm(), "WASM is working!");
}
