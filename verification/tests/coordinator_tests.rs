use session_refresh::claims::JwtToken;
use session_refresh::claims::DecodeOutcome;
use session_refresh::coordinator::{authenticate, process_acquired, MintMaterial, Outcome};
use session_refresh::registry::Registry;
use session_refresh::store::{SessionStore, Token};

const SECRET: &[u8] = b"test-signing-secret";
const SUBJECT: u128 = 42;
const FAR_FUTURE: u64 = 4102444800;

fn store_with_refresh_session(refresh_id: u128) -> SessionStore {
    let mut store = SessionStore::new();
    Token::declare_new(SUBJECT, refresh_id, FAR_FUTURE, &mut store).unwrap();
    store
}

#[test]
fn no_credentials_rejected_without_store_calls() {
    let mut reg = Registry::new();
    let mut store = SessionStore::new();
    let out = authenticate(&mut reg, &mut store, None, None, SECRET);
    assert!(matches!(out, Outcome::Rejected));
    assert_eq!(store.len(), 0);
    assert_eq!(reg.entry_count(), 0);
}

#[test]
fn garbage_credential_rejected_without_store_writes() {
    let mut reg = Registry::new();
    let mut store = store_with_refresh_session(7);
    let junk = "definitely-not-a-signed-credential".to_string();
    let out = authenticate(&mut reg, &mut store, Some(&junk), Some(&junk), SECRET);
    assert!(matches!(out, Outcome::Rejected));
    assert_eq!(store.len(), 1);
    assert_eq!(Token::is_valid(SUBJECT, 7, &store), Ok(true));
    assert_eq!(reg.entry_count(), 0);
}

#[test]
fn valid_access_with_honoured_session_authenticates() {
    let mut reg = Registry::new();
    let mut store = SessionStore::new();
    let claims = JwtToken { iat: 1000, exp: FAR_FUTURE, id: 5, user_id: SUBJECT };
    Token::declare_new(SUBJECT, 5, FAR_FUTURE, &mut store).unwrap();
    let cookie = claims.generate_cookie(SECRET, "access_cookie".to_string());
    let out = authenticate(&mut reg, &mut store, Some(&cookie.value), None, SECRET);
    match out {
        Outcome::Authenticated { subject, fresh } => {
            assert_eq!(subject, SUBJECT);
            assert!(fresh.is_none());
        },
        _ => panic!("expected authentication"),
    }
    assert_eq!(store.len(), 1);
    assert_eq!(reg.entry_count(), 0);
}

#[test]
fn valid_access_with_revoked_session_rejected() {
    let mut reg = Registry::new();
    let mut store = SessionStore::new();
    let claims = JwtToken { iat: 1000, exp: FAR_FUTURE, id: 5, user_id: SUBJECT };
    Token::declare_new(SUBJECT, 5, FAR_FUTURE, &mut store).unwrap();
    Token::invalidate(SUBJECT, 5, &mut store).unwrap();
    let cookie = claims.generate_cookie(SECRET, "access_cookie".to_string());
    let out = authenticate(&mut reg, &mut store, Some(&cookie.value), None, SECRET);
    assert!(matches!(out, Outcome::Rejected));
}

#[test]
fn unknown_session_rejected() {
    let mut reg = Registry::new();
    let mut store = SessionStore::new();
    let claims = JwtToken { iat: 1000, exp: FAR_FUTURE, id: 5, user_id: SUBJECT };
    let cookie = claims.generate_cookie(SECRET, "access_cookie".to_string());
    let out = authenticate(&mut reg, &mut store, Some(&cookie.value), None, SECRET);
    assert!(matches!(out, Outcome::Rejected));
}

#[test]
fn expired_access_with_valid_refresh_rotates() {
    let mut reg = Registry::new();
    let mut store = store_with_refresh_session(7);
    let refresh_claims = JwtToken { iat: 1000, exp: FAR_FUTURE, id: 7, user_id: SUBJECT };
    let refresh_cookie = refresh_claims.generate_cookie(SECRET, "refresh_cookie".to_string());
    let stale_claims = JwtToken { iat: 0, exp: 1, id: 5, user_id: SUBJECT };
    let stale_cookie = stale_claims.generate_cookie(SECRET, "access_cookie".to_string());

    let out = authenticate(
        &mut reg,
        &mut store,
        Some(&stale_cookie.value),
        Some(&refresh_cookie.value),
        SECRET,
    );
    let pair = match out {
        Outcome::Authenticated { subject, fresh } => {
            assert_eq!(subject, SUBJECT);
            fresh.expect("rotation must emit a fresh pair")
        },
        _ => panic!("expected a rotated authentication"),
    };
    assert_ne!(pair.0, stale_cookie.value);
    assert_ne!(pair.1, refresh_cookie.value);
    // the old refresh session is invalidated, two new sessions exist
    assert_eq!(Token::is_valid(SUBJECT, 7, &store), Ok(false));
    assert_eq!(store.len(), 3);
    // the registry entry was evicted once the single holder finished
    assert_eq!(reg.entry_count(), 0);

    // the prior refresh credential is never accepted again
    let out2 = authenticate(
        &mut reg,
        &mut store,
        Some(&stale_cookie.value),
        Some(&refresh_cookie.value),
        SECRET,
    );
    assert!(matches!(out2, Outcome::Rejected));
}

#[test]
fn expired_access_without_refresh_rejected() {
    let mut reg = Registry::new();
    let mut store = store_with_refresh_session(7);
    let stale_claims = JwtToken { iat: 0, exp: 1, id: 5, user_id: SUBJECT };
    let stale_cookie = stale_claims.generate_cookie(SECRET, "access_cookie".to_string());
    let out = authenticate(&mut reg, &mut store, Some(&stale_cookie.value), None, SECRET);
    assert!(matches!(out, Outcome::Rejected));
    assert_eq!(Token::is_valid(SUBJECT, 7, &store), Ok(true));
    assert_eq!(reg.entry_count(), 0);
}

#[test]
fn three_concurrent_requests_share_one_rotation() {
    let mut reg = Registry::new();
    let mut store = store_with_refresh_session(7);
    let refresh_claims = JwtToken { iat: 1000, exp: FAR_FUTURE, id: 7, user_id: SUBJECT };
    let rdec = Some(DecodeOutcome::Valid(refresh_claims));
    let key = "the-shared-stale-credential".to_string();

    // all three contenders acquire the slot before any completes
    reg.declare_lock(&key);
    reg.declare_lock(&key);
    reg.declare_lock(&key);
    assert_eq!(reg.entry_count(), 1);

    let now: u64 = 2000000000;
    let m1 = MintMaterial { now, access_id: 100, refresh_id: 200 };
    let m2 = MintMaterial { now, access_id: 101, refresh_id: 201 };
    let m3 = MintMaterial { now, access_id: 102, refresh_id: 202 };

    let o1 = process_acquired(&mut reg, &mut store, &key, rdec, m1, SECRET);
    let o2 = process_acquired(&mut reg, &mut store, &key, rdec, m2, SECRET);
    let o3 = process_acquired(&mut reg, &mut store, &key, rdec, m3, SECRET);

    let pair_of = |o: Outcome| match o {
        Outcome::Authenticated { subject, fresh } => {
            assert_eq!(subject, SUBJECT);
            fresh.expect("every contender receives the pair")
        },
        _ => panic!("expected authentication"),
    };
    let p1 = pair_of(o1);
    let p2 = pair_of(o2);
    let p3 = pair_of(o3);
    assert_eq!(p1, p2);
    assert_eq!(p1, p3);

    // exactly one rotation was written: the leader's sessions and no others
    assert_eq!(store.len(), 3);
    assert_eq!(Token::is_valid(SUBJECT, 7, &store), Ok(false));
    assert_eq!(Token::is_valid(SUBJECT, 100, &store), Ok(true));
    assert_eq!(Token::is_valid(SUBJECT, 200, &store), Ok(true));
    assert_eq!(Token::is_valid(SUBJECT, 101, &store), Ok(false));
    assert_eq!(Token::is_valid(SUBJECT, 202, &store), Ok(false));

    // once all holders completed, the entry count returns to zero
    assert_eq!(reg.entry_count(), 0);
}

#[test]
fn duplicate_fresh_session_surfaces_internal_error() {
    let mut reg = Registry::new();
    let mut store = store_with_refresh_session(7);
    let refresh_claims = JwtToken { iat: 1000, exp: FAR_FUTURE, id: 7, user_id: SUBJECT };
    let rdec = Some(DecodeOutcome::Valid(refresh_claims));
    let key = "stale".to_string();
    reg.declare_lock(&key);
    // the drawn access identifier collides with the still-present old session
    let m = MintMaterial { now: 2000000000, access_id: 7, refresh_id: 8 };
    let out = process_acquired(&mut reg, &mut store, &key, rdec, m, SECRET);
    assert!(matches!(out, Outcome::InternalError));
    assert_eq!(reg.entry_count(), 0);
}

#[test]
fn purge_removes_expired_sessions_of_subject_on_rotation() {
    let mut reg = Registry::new();
    let mut store = store_with_refresh_session(7);
    // a long-expired session of the same subject, and one of another subject
    Token::declare_new(SUBJECT, 50, 10, &mut store).unwrap();
    Token::declare_new(999, 51, 10, &mut store).unwrap();
    let refresh_claims = JwtToken { iat: 1000, exp: FAR_FUTURE, id: 7, user_id: SUBJECT };
    let rdec = Some(DecodeOutcome::Valid(refresh_claims));
    let key = "stale".to_string();
    reg.declare_lock(&key);
    let m = MintMaterial { now: 2000000000, access_id: 100, refresh_id: 200 };
    let out = process_acquired(&mut reg, &mut store, &key, rdec, m, SECRET);
    assert!(matches!(out, Outcome::Authenticated { .. }));
    // the subject's expired session is purged; the other subject's stays
    assert_eq!(store.len(), 4);
    let mut ids = Vec::new();
    for i in 0..store.len() {
        ids.push(store.record_at(i).token_id);
    }
    assert!(!ids.contains(&50));
    assert!(ids.contains(&51));
    assert!(ids.contains(&100));
    assert!(ids.contains(&200));
}
