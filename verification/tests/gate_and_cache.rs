use authgate::cache::{
    cache_get, cache_insert, get_session_cached, get_user_cached, insert_then_lookup_session,
    insert_then_lookup_user, invalidate_user_sessions, lookup_after_invalidate, new_blob_cache,
    session_cache_key, user_cache_key, BlobCache,
};
use authgate::codec::{decode_session_blob, encode_session_blob, encode_user_blob};
use authgate::directory::{OAuthAccount, UserDirectory};
use authgate::gate::{
    auth_status, logout, profile, require_session, AuthOutcome, RequestContext,
};
use authgate::records::{AuthSession, OAuthProviderData, User, MAX_SESSION_INACTIVITY_SECS};
use authgate::store::SessionStore;
use authgate::token::{AccessTokenClaims, TokenVerifier};
use authgate::Id;

fn id(n: u128) -> Id {
    Id::from_u128(n)
}

fn alice() -> User {
    User {
        id: id(0x550e8400e29b41d4a716446655440000),
        username: Some(String::from("alice")),
        email: String::from("alice@example.com"),
    }
}

fn fixture(now: i64) -> (TokenVerifier, SessionStore, UserDirectory, BlobCache, String) {
    let verifier = TokenVerifier::new(0x517cc1b727220a95);
    let mut store = SessionStore::new();
    let mut dir = UserDirectory::new();
    let cache = new_blob_cache(10_000, 300);
    let user = alice();
    let session_id = id(0x660e8400e29b41d4a716446655440001);
    dir.users.push(user.clone());
    dir.accounts.push(OAuthAccount {
        user_id: user.id,
        data: OAuthProviderData {
            provider: String::from("github"),
            username: Some(String::from("alice-gh")),
            display_name: None,
            email: Some(String::from("alice@example.com")),
            avatar_url: None,
        },
    });
    store.create(session_id, user.id, None, now).unwrap();
    let token = verifier.issue_access_token(AccessTokenClaims {
        user_id: user.id,
        session_id,
        expires_at: now + 900,
    });
    (verifier, store, dir, cache, token)
}

#[test]
fn valid_credential_is_accepted_and_touches_the_session() {
    let now = 1_700_000_000;
    let (verifier, mut store, dir, mut cache, token) = fixture(now);
    let session_id = id(0x660e8400e29b41d4a716446655440001);

    let out = require_session(&verifier, &mut store, &dir, &mut cache, Some(&token), now + 10);
    match out {
        AuthOutcome::Accepted(ctx) => {
            assert_eq!(ctx.user, alice());
            assert_eq!(ctx.session_id, session_id);
            assert_eq!(ctx.access_token_expires_at, now + 900);
        }
        other => panic!("expected acceptance, got {:?}", other),
    }
    // the fire-and-forget liveness touch reached the store
    assert_eq!(store.get(session_id).unwrap().last_used_at, Some(now + 10));
}

#[test]
fn missing_or_garbage_credential_is_unauthorized() {
    let now = 1_700_000_000;
    let (verifier, mut store, dir, mut cache, _token) = fixture(now);
    let out = require_session(&verifier, &mut store, &dir, &mut cache, None, now);
    assert!(matches!(out, AuthOutcome::Unauthorized));
    let out = require_session(&verifier, &mut store, &dir, &mut cache, Some("nonsense"), now);
    assert!(matches!(out, AuthOutcome::Unauthorized));
}

#[test]
fn revoked_session_is_rejected_despite_a_valid_credential() {
    let now = 1_700_000_000;
    let (verifier, mut store, dir, mut cache, token) = fixture(now);
    let session_id = id(0x660e8400e29b41d4a716446655440001);

    logout(&mut store, &mut cache, session_id, now + 5).unwrap();
    assert_eq!(store.get(session_id).unwrap().revoked_at, Some(now + 5));

    let out = require_session(&verifier, &mut store, &dir, &mut cache, Some(&token), now + 10);
    assert!(matches!(out, AuthOutcome::Unauthorized));
}

#[test]
fn inactivity_expiry_revokes_and_rejects() {
    // created now, never touched, checked 366 days later
    let now = 1_700_000_000;
    let (verifier, mut store, dir, mut cache, token) = fixture(now);
    let session_id = id(0x660e8400e29b41d4a716446655440001);
    let later = now + 366 * 24 * 60 * 60;
    assert!(later - now > MAX_SESSION_INACTIVITY_SECS);

    // keep the credential alive that long, so only inactivity can reject
    let verifier2 = verifier;
    let token2 = verifier2.issue_access_token(AccessTokenClaims {
        user_id: alice().id,
        session_id,
        expires_at: later + 900,
    });
    let _ = token;

    let out = require_session(&verifier2, &mut store, &dir, &mut cache, Some(&token2), later);
    assert!(matches!(out, AuthOutcome::Unauthorized));
    // the session was auto-revoked in the durable store
    assert_eq!(store.get(session_id).unwrap().revoked_at, Some(later));
    // and its cache entry is gone
    assert_eq!(cache_get(&cache, &session_cache_key(session_id)), None);
}

#[test]
fn unknown_session_or_user_is_unauthorized() {
    let now = 1_700_000_000;
    let (verifier, mut store, dir, mut cache, _token) = fixture(now);
    let ghost_session = verifier.issue_access_token(AccessTokenClaims {
        user_id: alice().id,
        session_id: id(999),
        expires_at: now + 900,
    });
    let out = require_session(&verifier, &mut store, &dir, &mut cache, Some(&ghost_session), now);
    assert!(matches!(out, AuthOutcome::Unauthorized));

    // session exists, user does not
    store.create(id(777), id(888), None, now).unwrap();
    let ghost_user = verifier.issue_access_token(AccessTokenClaims {
        user_id: id(888),
        session_id: id(777),
        expires_at: now + 900,
    });
    let out = require_session(&verifier, &mut store, &dir, &mut cache, Some(&ghost_user), now);
    assert!(matches!(out, AuthOutcome::Unauthorized));
}

#[test]
fn corrupted_cache_blob_falls_through_to_the_store() {
    // the cache holds a corrupted session blob; the lookup returns the
    // durable record and the corrupted entry is gone afterwards
    let now = 1_700_000_000;
    let (_verifier, store, _dir, mut cache, _token) = fixture(now);
    let session_id = id(0x660e8400e29b41d4a716446655440001);
    let key = session_cache_key(session_id);

    cache_insert(&mut cache, key.clone(), vec![0xde, 0xad, 0xbe, 0xef]);
    let got = get_session_cached(&store, &mut cache, session_id).unwrap();
    assert_eq!(got, store.get(session_id).unwrap());

    let cached_now = cache_get(&cache, &key).expect("repopulated after fall-through");
    assert_ne!(cached_now, vec![0xde, 0xad, 0xbe, 0xef]);
    assert_eq!(decode_session_blob(&cached_now), Some(got));
}

#[test]
fn cached_session_roundtrip_through_the_cache() {
    let now = 1_700_000_000;
    let (_verifier, store, dir, mut cache, _token) = fixture(now);
    let session_id = id(0x660e8400e29b41d4a716446655440001);

    let s = store.get(session_id).unwrap();
    cache_insert(&mut cache, session_cache_key(session_id), encode_session_blob(&s));
    let got = get_session_cached(&store, &mut cache, session_id).unwrap();
    assert_eq!(got, s);

    let u = alice();
    cache_insert(&mut cache, user_cache_key(u.id), encode_user_blob(&u));
    let got = get_user_cached(&dir, &mut cache, u.id).unwrap();
    assert_eq!(got, u);
}

#[test]
fn invalidate_makes_the_next_get_a_miss() {
    let mut cache = new_blob_cache(10_000, 300);
    let key = session_cache_key(id(5));
    cache_insert(&mut cache, key.clone(), vec![1, 2, 3]);
    assert_eq!(cache_get(&cache, &key), Some(vec![1, 2, 3]));
    assert_eq!(lookup_after_invalidate(&mut cache, &key), None);
    assert_eq!(cache_get(&cache, &key), None);
}

#[test]
fn invalidate_user_sessions_drops_each_entry() {
    let mut cache = new_blob_cache(10_000, 300);
    let ids = vec![id(1), id(2)];
    cache_insert(&mut cache, session_cache_key(id(1)), vec![1]);
    cache_insert(&mut cache, session_cache_key(id(2)), vec![2]);
    cache_insert(&mut cache, session_cache_key(id(3)), vec![3]);
    invalidate_user_sessions(&mut cache, &ids);
    assert_eq!(cache_get(&cache, &session_cache_key(id(1))), None);
    assert_eq!(cache_get(&cache, &session_cache_key(id(2))), None);
    assert_eq!(cache_get(&cache, &session_cache_key(id(3))), Some(vec![3]));
}

#[test]
fn auth_status_reports_the_live_profile() {
    let now = 1_700_000_000;
    let (verifier, mut store, dir, mut cache, token) = fixture(now);
    let session_id = id(0x660e8400e29b41d4a716446655440001);

    let status = auth_status(&verifier, &mut store, &dir, Some(&token), now);
    assert!(status.logged_in);
    let p = status.profile.expect("profile on a live session");
    assert_eq!(p.user_id, alice().id);
    assert_eq!(p.username, Some(String::from("alice")));
    assert_eq!(p.email, "alice@example.com");
    assert_eq!(p.providers.len(), 1);
    assert_eq!(p.providers[0].provider, "github");
    assert_eq!(p.providers[0].username, Some(String::from("alice-gh")));

    // a status check counts as liveness
    assert_eq!(store.get(session_id).unwrap().last_used_at, Some(now));

    logout(&mut store, &mut cache, session_id, now + 1).unwrap();
    let status = auth_status(&verifier, &mut store, &dir, Some(&token), now + 2);
    assert!(!status.logged_in);
    assert!(status.profile.is_none());

    let status = auth_status(&verifier, &mut store, &dir, None, now);
    assert!(!status.logged_in);
}

#[test]
fn profile_lists_the_linked_accounts() {
    let now = 1_700_000_000;
    let (_verifier, _store, dir, _cache, _token) = fixture(now);
    let ctx = RequestContext {
        user: alice(),
        session_id: id(1),
        access_token_expires_at: now + 900,
    };
    let p = profile(&dir, &ctx);
    assert_eq!(p.user_id, alice().id);
    assert_eq!(p.email, "alice@example.com");
    assert_eq!(p.providers.len(), 1);
    assert_eq!(p.providers[0].provider, "github");
}

#[test]
fn insert_then_lookup_roundtrips_records() {
    let now = 1_700_000_000;
    let (_verifier, store, _dir, mut cache, _token) = fixture(now);
    let session_id = id(0x660e8400e29b41d4a716446655440001);
    let s = store.get(session_id).unwrap();
    assert_eq!(insert_then_lookup_session(&mut cache, &s), Some(s));
    let u = alice();
    assert_eq!(insert_then_lookup_user(&mut cache, &u), Some(u));
}

#[test]
fn auth_status_lists_providers_ascending_by_name() {
    let now = 1_700_000_000;
    let (verifier, mut store, mut dir, _cache, token) = fixture(now);
    // the directory keeps accounts ascending by provider name; a second
    // account of the user and one of a stranger keep that order
    dir.accounts.push(OAuthAccount {
        user_id: alice().id,
        data: OAuthProviderData {
            provider: String::from("gitlab"),
            username: Some(String::from("alice-gl")),
            display_name: None,
            email: None,
            avatar_url: None,
        },
    });
    dir.accounts.push(OAuthAccount {
        user_id: id(4242),
        data: OAuthProviderData {
            provider: String::from("sourcehut"),
            username: None,
            display_name: None,
            email: None,
            avatar_url: None,
        },
    });

    let status = auth_status(&verifier, &mut store, &dir, Some(&token), now);
    let p = status.profile.expect("profile on a live session");
    assert_eq!(p.providers.len(), 2);
    assert_eq!(p.providers[0].provider, "github");
    assert_eq!(p.providers[1].provider, "gitlab");
}
