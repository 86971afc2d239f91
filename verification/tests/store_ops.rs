use authgate::records::AuthSessionError;
use authgate::store::SessionStore;
use authgate::Id;

fn id(n: u128) -> Id {
    Id::from_u128(n)
}

#[test]
fn create_then_get_returns_the_row() {
    let mut store = SessionStore::new();
    let s = store.create(id(1), id(2), None, 1_000).unwrap();
    assert_eq!(s.id, id(1));
    assert_eq!(s.user_id, id(2));
    assert_eq!(s.created_at, 1_000);
    assert_eq!(s.last_used_at, None);
    assert_eq!(s.revoked_at, None);
    assert_eq!(s.refresh_token_id, None);
    assert_eq!(s.refresh_token_issued_at, None);
    assert_eq!(store.get(id(1)).unwrap(), s);
}

#[test]
fn get_unknown_session_is_not_found() {
    let store = SessionStore::new();
    assert!(matches!(store.get(id(9)), Err(AuthSessionError::NotFound)));
}

#[test]
fn rotate_reuse_of_old_credential_is_detected() {
    // rotate(S, T1 -> T2) succeeds; rotate(S, T1 -> T3) is reuse;
    // rotate(S, T2 -> T3) succeeds again.
    let mut store = SessionStore::new();
    let s = id(1);
    let (t1, t2, t3) = (id(11), id(12), id(13));
    store.create(s, id(2), Some(t1), 1_000).unwrap();

    assert!(store.rotate_tokens(s, t1, t2, 1_001).is_ok());
    assert!(matches!(
        store.rotate_tokens(s, t1, t3, 1_002),
        Err(AuthSessionError::TokenReuseDetected)
    ));
    assert!(store.rotate_tokens(s, t2, t3, 1_003).is_ok());

    assert!(store.is_refresh_token_revoked(t1).unwrap());
    assert!(store.is_refresh_token_revoked(t2).unwrap());
    assert!(!store.is_refresh_token_revoked(t3).unwrap());

    let row = store.get(s).unwrap();
    assert_eq!(row.refresh_token_id, Some(t3));
    assert_eq!(row.refresh_token_issued_at, Some(1_003));
}

#[test]
fn rotate_on_unknown_session_is_reuse() {
    let mut store = SessionStore::new();
    assert!(matches!(
        store.rotate_tokens(id(1), id(11), id(12), 1_000),
        Err(AuthSessionError::TokenReuseDetected)
    ));
}

#[test]
fn revoke_all_counts_sessions_and_ledgers_credentials() {
    // A user with 3 live sessions and 2 live refresh credentials:
    // the call returns count = 3 and both credentials become revoked.
    let mut store = SessionStore::new();
    let u = id(2);
    let (ta, tb) = (id(21), id(22));
    store.create(id(1), u, Some(ta), 1_000).unwrap();
    store.create(id(3), u, Some(tb), 1_001).unwrap();
    store.create(id(4), u, None, 1_002).unwrap();
    // another user's session stays untouched
    store.create(id(5), id(6), Some(id(23)), 1_003).unwrap();

    let count = store.revoke_all_user_sessions(u, 2_000).unwrap();
    assert_eq!(count, 3);
    assert!(store.is_refresh_token_revoked(ta).unwrap());
    assert!(store.is_refresh_token_revoked(tb).unwrap());
    assert!(!store.is_refresh_token_revoked(id(23)).unwrap());

    assert_eq!(store.get(id(1)).unwrap().revoked_at, Some(2_000));
    assert_eq!(store.get(id(3)).unwrap().revoked_at, Some(2_000));
    assert_eq!(store.get(id(4)).unwrap().revoked_at, Some(2_000));
    assert_eq!(store.get(id(5)).unwrap().revoked_at, None);

    // idempotent on a second pass: nothing left to revoke
    let again = store.revoke_all_user_sessions(u, 3_000).unwrap();
    assert_eq!(again, 0);
    assert_eq!(store.get(id(1)).unwrap().revoked_at, Some(2_000));
}

#[test]
fn touch_is_coalesced_within_the_window() {
    let mut store = SessionStore::new();
    store.create(id(1), id(2), None, 0).unwrap();

    // never touched: the first touch writes
    store.touch(id(1), 10_000).unwrap();
    assert_eq!(store.get(id(1)).unwrap().last_used_at, Some(10_000));

    // within one hour: no second write
    store.touch(id(1), 10_000 + 3_600).unwrap();
    assert_eq!(store.get(id(1)).unwrap().last_used_at, Some(10_000));

    // past the window: moves forward
    store.touch(id(1), 10_000 + 3_601).unwrap();
    assert_eq!(store.get(id(1)).unwrap().last_used_at, Some(13_601));
}

#[test]
fn touch_unknown_session_is_a_no_op() {
    let mut store = SessionStore::new();
    assert!(store.touch(id(1), 5).is_ok());
}

#[test]
fn revoke_is_terminal_and_idempotent() {
    let mut store = SessionStore::new();
    store.create(id(1), id(2), None, 0).unwrap();
    store.revoke(id(1), 100).unwrap();
    assert_eq!(store.get(id(1)).unwrap().revoked_at, Some(100));
    // re-revoking is a no-op, not an error, and keeps the first instant
    store.revoke(id(1), 200).unwrap();
    assert_eq!(store.get(id(1)).unwrap().revoked_at, Some(100));
}

#[test]
fn set_current_refresh_token_installs_the_credential() {
    let mut store = SessionStore::new();
    store.create(id(1), id(2), None, 0).unwrap();
    store.set_current_refresh_token(id(1), id(31), 50).unwrap();
    let row = store.get(id(1)).unwrap();
    assert_eq!(row.refresh_token_id, Some(id(31)));
    assert_eq!(row.refresh_token_issued_at, Some(50));
    assert!(store.refresh_token_in_use(id(31)));
    assert!(!store.refresh_token_in_use(id(32)));
}

#[test]
fn last_activity_prefers_last_used() {
    let mut store = SessionStore::new();
    store.create(id(1), id(2), None, 1_000).unwrap();
    let row = store.get(id(1)).unwrap();
    assert_eq!(row.last_activity_at(), 1_000);
    assert_eq!(row.inactivity_duration(1_500), 500);
    store.touch(id(1), 9_000).unwrap();
    let row = store.get(id(1)).unwrap();
    assert_eq!(row.last_activity_at(), 9_000);
    assert_eq!(row.inactivity_duration(9_001), 1);
}
