use session_refresh::store::{SessionStore, StoreError, Token};

#[test]
fn declare_then_check_then_invalidate() {
    let mut store = SessionStore::new();
    assert_eq!(store.len(), 0);
    let t = Token::declare_new(1, 10, 5000, &mut store).unwrap();
    assert_eq!(t.user_id, 1);
    assert_eq!(t.token_id, 10);
    assert_eq!(t.expiration, 5000);
    assert!(t.is_valid);
    assert_eq!(Token::is_valid(1, 10, &store), Ok(true));
    // the wrong subject does not validate the session
    assert_eq!(Token::is_valid(2, 10, &store), Ok(false));
    Token::invalidate(1, 10, &mut store).unwrap();
    assert_eq!(Token::is_valid(1, 10, &store), Ok(false));
    // validity is monotonic: nothing turns it back on
    assert_eq!(store.len(), 1);
    assert!(!store.record_at(0).is_valid);
}

#[test]
fn duplicate_session_identifier_fails() {
    let mut store = SessionStore::new();
    Token::declare_new(1, 10, 5000, &mut store).unwrap();
    let r = Token::declare_new(2, 10, 9000, &mut store);
    assert_eq!(r, Err(StoreError::DuplicateSession));
    assert_eq!(store.len(), 1);
}

#[test]
fn remove_expired_purges_only_this_subject() {
    let mut store = SessionStore::new();
    Token::declare_new(1, 10, 100, &mut store).unwrap();
    Token::declare_new(1, 11, 5000, &mut store).unwrap();
    Token::declare_new(2, 12, 100, &mut store).unwrap();
    Token::remove_expired(1, 1000, &mut store).unwrap();
    assert_eq!(store.len(), 2);
    assert_eq!(store.record_at(0).token_id, 11);
    assert_eq!(store.record_at(1).token_id, 12);
}

#[test]
fn remove_expired_keeps_records_expiring_now_or_later() {
    let mut store = SessionStore::new();
    Token::declare_new(1, 10, 1000, &mut store).unwrap();
    Token::remove_expired(1, 1000, &mut store).unwrap();
    assert_eq!(store.len(), 1);
    Token::remove_expired(1, 1001, &mut store).unwrap();
    assert_eq!(store.len(), 0);
}
