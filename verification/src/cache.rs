//! Read-through cache of serialized records in front of the durable
//! stores.
//!
//! The cache is bounded and TTL-evicted, and is never authoritative: an
//! entry may vanish at any moment, so its contract promises only that a
//! hit returns the last value inserted under the key and not yet
//! invalidated.  A blob that does not decode is invalidated and treated
//! as a miss; the durable store is then consulted and the entry
//! repopulated.

use vstd::prelude::*;
use vstd::string::StringExecFns;

use crate::codec::{
    decode_session_blob, decode_user_blob, encode_session_blob, encode_user_blob,
    spec_decode_session, spec_decode_user, spec_encode_session, spec_encode_user,
};
use crate::directory::UserDirectory;
use crate::ids::Id;
use crate::records::{AuthSession, AuthSessionError, IdentityError, User};
use crate::store::{SessionStore, StoreModel};

verus! {

/// The outside concurrent cache type, declared so that its values can
/// stand in signatures; Verus sees nothing inside one.
#[verifier::external_type_specification]
#[verifier::external_body]
#[verifier::reject_recursive_types(K)]
#[verifier::reject_recursive_types(V)]
#[verifier::reject_recursive_types(S)]
pub struct ExCache<K, V, S>(moka::sync::Cache<K, V, S>);

/// Bounded read-through cache of byte blobs under string keys.
pub type BlobCache = moka::sync::Cache<String, Vec<u8>, std::hash::RandomState>;

/// The contents of a cache that holds nothing.
pub open spec fn empty_contents() -> Map<Seq<char>, Seq<u8>> {
    Map::empty()
}

/// What the cache may still answer: for each key, the last value
/// inserted under it and not invalidated.  Eviction can only drop
/// entries, so a lookup answers either `None` or exactly this value.
pub uninterp spec fn cache_contents(c: BlobCache) -> Map<Seq<char>, Seq<u8>>;

/// Relies on moka's `sync::Cache` builder: a freshly built cache holds
/// no entries.  The builder refuses (by panicking) a time-to-live
/// beyond 1000 years, so that bound is required here.
#[verifier::external_body]
pub fn new_blob_cache(capacity: u64, ttl_secs: u64) -> (r: BlobCache)
    requires
        ttl_secs <= 31_536_000_000,
    ensures
        cache_contents(r) == empty_contents(),
{
    moka::sync::Cache::builder().max_capacity(capacity).time_to_live(
        core::time::Duration::from_secs(ttl_secs),
    ).build()
}

/// Relies on moka's `sync::Cache::get`: returns a clone of the value
/// most recently inserted under the key and not invalidated, or `None`
/// (a miss, or an entry evicted by bound or TTL).
#[verifier::external_body]
pub fn cache_get(c: &BlobCache, key: &String) -> (r: Option<Vec<u8>>)
    ensures
        match r {
            Some(v) => cache_contents(*c).contains_key(key@) && v@ == cache_contents(*c)[key@],
            None => true,
        },
{
    c.get(key)
}

/// Relies on moka's `sync::Cache::insert`: the value is stored under
/// the key, replacing any previous value.
#[verifier::external_body]
pub fn cache_insert(c: &mut BlobCache, key: String, value: Vec<u8>)
    ensures
        cache_contents(*final(c)) == cache_contents(*old(c)).insert(key@, value@),
{
    c.insert(key, value);
}

/// Relies on moka's `sync::Cache::invalidate`: discards any cached
/// value for the key.
#[verifier::external_body]
pub fn cache_invalidate(c: &mut BlobCache, key: &String)
    ensures
        cache_contents(*final(c)) == cache_contents(*old(c)).remove(key@),
{
    c.invalidate(key);
}

/// After `invalidate`, a lookup of the same key misses until something
/// is inserted again.
pub fn lookup_after_invalidate(cache: &mut BlobCache, key: &String) -> (r: Option<Vec<u8>>)
    ensures
        r is None,
        cache_contents(*final(cache)) == cache_contents(*old(cache)).remove(key@),
{
    cache_invalidate(cache, key);
    cache_get(cache, key)
}

/// A blob inserted for a session decodes back to the record whenever a
/// later lookup of the same key hits; a miss (eviction) is the only
/// other possibility.
pub fn insert_then_lookup_session(cache: &mut BlobCache, s: &AuthSession) -> (r: Option<
    AuthSession,
>)
    requires
        s.wf(),
    ensures
        r matches Some(got) ==> got == *s,
        cache_contents(*final(cache)) == cache_contents(*old(cache)).insert(
            spec_session_cache_key(s.id),
            spec_encode_session(*s),
        ),
{
    let key = session_cache_key(s.id);
    cache_insert(cache, key, encode_session_blob(s));
    let key_again = session_cache_key(s.id);
    match cache_get(cache, &key_again) {
        Some(blob) => {
            proof {
                crate::codec::lemma_session_codec_roundtrip(*s);
            }
            decode_session_blob(&blob)
        },
        None => None,
    }
}

/// A blob inserted for a user decodes back to an equal record whenever
/// a later lookup of the same key hits.
pub fn insert_then_lookup_user(cache: &mut BlobCache, u: &User) -> (r: Option<User>)
    ensures
        r matches Some(got) ==> got@ == u@,
        cache_contents(*final(cache)) == cache_contents(*old(cache)).insert(
            spec_user_cache_key(u.id),
            spec_encode_user(u@),
        ),
{
    let key = user_cache_key(u.id);
    let fresh = encode_user_blob(u);
    let n = fresh.len();
    proof {
        assert(fresh@.len() == n);
        crate::codec::lemma_user_codec_roundtrip(u@);
    }
    cache_insert(cache, key, fresh);
    let key_again = user_cache_key(u.id);
    match cache_get(cache, &key_again) {
        Some(blob) => decode_user_blob(&blob),
        None => None,
    }
}

/// The cache key of a user record.
pub open spec fn spec_user_cache_key(user_id: Id) -> Seq<char> {
    "user:"@ + user_id.spec_hyphenated()
}

/// The cache key of a session record.
pub open spec fn spec_session_cache_key(session_id: Id) -> Seq<char> {
    "session:"@ + session_id.spec_hyphenated()
}

/// Renders the cache key for a user.
pub fn user_cache_key(user_id: Id) -> (r: String)
    ensures
        r@ == spec_user_cache_key(user_id),
{
    let mut s = String::from_str("user:");
    let h = user_id.hyphenated();
    s.append(h.as_str());
    s
}

/// Renders the cache key for a session.
pub fn session_cache_key(session_id: Id) -> (r: String)
    ensures
        r@ == spec_session_cache_key(session_id),
{
    let mut s = String::from_str("session:");
    let h = session_id.hyphenated();
    s.append(h.as_str());
    s
}

/// The possible outcomes of a cache-aside session lookup: a decodable
/// cached blob answers as is; otherwise the durable store answers and a
/// fresh blob is cached; a bad or missing entry never surfaces as an
/// error.
pub open spec fn session_lookup_post(
    m0: Map<Seq<char>, Seq<u8>>,
    m1: Map<Seq<char>, Seq<u8>>,
    store: StoreModel,
    session_id: Id,
    r: Result<AuthSession, AuthSessionError>,
) -> bool {
    let k = spec_session_cache_key(session_id);
    ||| {
        &&& m0.contains_key(k)
        &&& spec_decode_session(m0[k]) matches Some(s) && r == Ok::<
            AuthSession,
            AuthSessionError,
        >(s)
        &&& m1 == m0
    }
    ||| {
        &&& store.has_session(session_id)
        &&& r == Ok::<AuthSession, AuthSessionError>(store.session(session_id))
        &&& m1 == m0.insert(k, spec_encode_session(store.session(session_id)))
    }
    ||| {
        &&& !store.has_session(session_id)
        &&& r == Err::<AuthSession, AuthSessionError>(AuthSessionError::NotFound)
        &&& (m1 == m0 || m1 == m0.remove(k))
    }
}

/// Cache-aside session lookup.
pub fn get_session_cached(store: &SessionStore, cache: &mut BlobCache, session_id: Id) -> (r:
    Result<AuthSession, AuthSessionError>)
    requires
        store@.wf(),
        store@.has_session(session_id) ==> store@.session(session_id).wf(),
    ensures
        session_lookup_post(
            cache_contents(*old(cache)),
            cache_contents(*final(cache)),
            store@,
            session_id,
            r,
        ),
{
    let ghost m0 = cache_contents(*cache);
    let key = session_cache_key(session_id);
    match cache_get(cache, &key) {
        Some(blob) => {
            match decode_session_blob(&blob) {
                Some(s) => {
                    return Ok(s);
                },
                None => {
                    cache_invalidate(cache, &key);
                },
            }
        },
        None => {},
    }
    match store.get(session_id) {
        Ok(s) => {
            cache_insert(cache, key, encode_session_blob(&s));
            proof {
                assert(cache_contents(*cache) =~= m0.insert(
                    spec_session_cache_key(session_id),
                    spec_encode_session(store@.session(session_id)),
                ));
            }
            Ok(s)
        },
        Err(e) => {
            Err(e)
        },
    }
}

/// The possible outcomes of a cache-aside user lookup; symmetric to
/// [`session_lookup_post`], stated over record values.
pub open spec fn user_lookup_post(
    m0: Map<Seq<char>, Seq<u8>>,
    m1: Map<Seq<char>, Seq<u8>>,
    dir: Seq<User>,
    user_id: Id,
    r: Result<User, IdentityError>,
) -> bool {
    let k = spec_user_cache_key(user_id);
    ||| {
        &&& m0.contains_key(k)
        &&& r matches Ok(u) && spec_decode_user(m0[k]) == Some(u@)
        &&& m1 == m0
    }
    ||| {
        &&& UserDirectory::seq_has_user(dir, user_id)
        &&& r matches Ok(u) && u@ == UserDirectory::seq_user(dir, user_id)@
        &&& m1 == m0.insert(k, spec_encode_user(UserDirectory::seq_user(dir, user_id)@))
    }
    ||| {
        &&& !UserDirectory::seq_has_user(dir, user_id)
        &&& r == Err::<User, IdentityError>(IdentityError::NotFound)
        &&& (m1 == m0 || m1 == m0.remove(k))
    }
}

/// Cache-aside user lookup.
pub fn get_user_cached(dir: &UserDirectory, cache: &mut BlobCache, user_id: Id) -> (r: Result<
    User,
    IdentityError,
>)
    requires
        dir@.wf(),
    ensures
        user_lookup_post(
            cache_contents(*old(cache)),
            cache_contents(*final(cache)),
            dir@.users,
            user_id,
            r,
        ),
{
    let ghost m0 = cache_contents(*cache);
    let key = user_cache_key(user_id);
    match cache_get(cache, &key) {
        Some(blob) => {
            match decode_user_blob(&blob) {
                Some(u) => {
                    return Ok(u);
                },
                None => {
                    cache_invalidate(cache, &key);
                },
            }
        },
        None => {},
    }
    match dir.fetch_user(user_id) {
        Ok(u) => {
            let blob = encode_user_blob(&u);
            cache_insert(cache, key, blob);
            proof {
                assert(cache_contents(*cache) =~= m0.insert(
                    spec_user_cache_key(user_id),
                    spec_encode_user(UserDirectory::seq_user(dir@.users, user_id)@),
                ));
            }
            Ok(u)
        },
        Err(e) => {
            Err(e)
        },
    }
}

/// Drops the cache entry of a user; to be called after any durable
/// mutation of the record.
pub fn invalidate_user_cache(cache: &mut BlobCache, user_id: Id)
    ensures
        cache_contents(*final(cache)) == cache_contents(*old(cache)).remove(
            spec_user_cache_key(user_id),
        ),
{
    let key = user_cache_key(user_id);
    cache_invalidate(cache, &key);
}

/// Drops the cache entry of a session; to be called after any durable
/// mutation of the record.
pub fn invalidate_session_cache(cache: &mut BlobCache, session_id: Id)
    ensures
        cache_contents(*final(cache)) == cache_contents(*old(cache)).remove(
            spec_session_cache_key(session_id),
        ),
{
    let key = session_cache_key(session_id);
    cache_invalidate(cache, &key);
}

/// The cache after dropping the session entries of the listed sessions.
pub open spec fn spec_strip_session_keys(m: Map<Seq<char>, Seq<u8>>, ids: Seq<Id>) -> Map<
    Seq<char>,
    Seq<u8>,
>
    decreases ids.len(),
{
    if ids.len() == 0 {
        m
    } else {
        spec_strip_session_keys(m, ids.drop_last()).remove(spec_session_cache_key(ids.last()))
    }
}

/// Drops the session cache entries of every listed session.
pub fn invalidate_user_sessions(cache: &mut BlobCache, session_ids: &Vec<Id>)
    ensures
        cache_contents(*final(cache)) == spec_strip_session_keys(
            cache_contents(*old(cache)),
            session_ids@,
        ),
{
    let ghost m0 = cache_contents(*cache);
    let n = session_ids.len();
    let mut i: usize = 0;
    while i < n
        invariant
            n == session_ids@.len(),
            i <= n,
            cache_contents(*cache) == spec_strip_session_keys(m0, session_ids@.take(i as int)),
        decreases n - i,
    {
        invalidate_session_cache(cache, session_ids[i]);
        i = i + 1;
        proof {
            assert(session_ids@.take(i as int).drop_last() =~= session_ids@.take(i as int - 1));
        }
    }
    proof {
        assert(session_ids@.take(n as int) =~= session_ids@);
    }
}

} // verus!
