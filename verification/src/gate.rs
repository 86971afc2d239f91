//! Per-request resolution of a bearer credential into a validated
//! request identity, with the auth-status and logout flows.
//!
//! Resolution collapses every internal failure into two caller-visible
//! outcomes: "unauthenticated", with no detail of why, and "server
//! error" for transient store faults.

use vstd::prelude::*;

use crate::cache::{
    cache_contents, get_session_cached, get_user_cached, invalidate_session_cache,
    session_lookup_post, spec_session_cache_key, user_lookup_post, BlobCache,
};
use crate::codec::lemma_decoded_session_wf;
use crate::directory::{
    clone_opt_string, opt_str_view, spec_accounts_for, str_le, DirectoryModel, UserDirectory,
};
use crate::ids::Id;
use crate::records::{
    AuthSession, AuthSessionError, AuthStatusData, IdentityError, OAuthProviderData, User,
    MAX_SESSION_INACTIVITY_SECS,
};
use crate::store::{SessionStore, StoreModel, StoreOp};
use crate::token::{spec_decode_token, AccessTokenClaims, TokenVerifier};

verus! {

/// The request-scoped identity attached after a successful resolution.
#[derive(Clone, Debug)]
pub struct RequestContext {
    pub user: User,
    pub session_id: Id,
    pub access_token_expires_at: i64,
}

/// The terminal states of one resolution pass.
#[derive(Debug)]
pub enum AuthOutcome {
    Accepted(RequestContext),
    Unauthorized,
    ServerError,
}

/// How a session-ledger failure is surfaced: an unknown session is
/// "unauthenticated", a store fault is a server error, anything else is
/// "unauthenticated" as well.
pub open spec fn spec_classify_session_error(e: AuthSessionError) -> AuthOutcome {
    match e {
        AuthSessionError::Database => AuthOutcome::ServerError,
        _ => AuthOutcome::Unauthorized,
    }
}

/// The collapse of a session-ledger failure to a caller-visible outcome.
pub fn classify_session_error(e: &AuthSessionError) -> (r: AuthOutcome)
    ensures
        r == spec_classify_session_error(*e),
{
    match e {
        AuthSessionError::Database => AuthOutcome::ServerError,
        _ => AuthOutcome::Unauthorized,
    }
}

/// How a user-directory failure is surfaced.
pub open spec fn spec_classify_identity_error(e: IdentityError) -> AuthOutcome {
    match e {
        IdentityError::NotFound => AuthOutcome::Unauthorized,
        IdentityError::Database => AuthOutcome::ServerError,
    }
}

/// The collapse of a user-directory failure to a caller-visible outcome.
pub fn classify_identity_error(e: &IdentityError) -> (r: AuthOutcome)
    ensures
        r == spec_classify_identity_error(*e),
{
    match e {
        IdentityError::NotFound => AuthOutcome::Unauthorized,
        IdentityError::Database => AuthOutcome::ServerError,
    }
}

/// The value of an optional borrowed bearer string.
pub open spec fn bearer_view(bearer: Option<&str>) -> Option<Seq<char>> {
    match bearer {
        Some(t) => Some(t@),
        None => None,
    }
}

/// What one resolution pass does, after the session lookup answered
/// `sres` and left the cache at `m_mid`.
pub open spec fn gate_after_session(
    claims: AccessTokenClaims,
    dir: DirectoryModel,
    now: i64,
    st0: StoreModel,
    st1: StoreModel,
    m_mid: Map<Seq<char>, Seq<u8>>,
    m1: Map<Seq<char>, Seq<u8>>,
    sres: Result<AuthSession, AuthSessionError>,
    r: AuthOutcome,
) -> bool {
    match sres {
        Err(e) => r == spec_classify_session_error(e) && st1 == st0 && m1 == m_mid,
        Ok(sess) => if sess.revoked_at is Some {
            r is Unauthorized && st1 == st0 && m1 == m_mid
        } else if sess.inactivity_expired(now) {
            &&& r is Unauthorized
            &&& st1 == st0.spec_revoke(sess.id, now)
            &&& m1 == m_mid.remove(spec_session_cache_key(sess.id))
        } else {
            exists|ures: Result<User, IdentityError>, m_after: Map<Seq<char>, Seq<u8>>|
                {
                    &&& #[trigger] user_lookup_post(m_mid, m_after, dir.users, claims.user_id, ures)
                    &&& match ures {
                        Err(e) => r == spec_classify_identity_error(e) && st1 == st0 && m1
                            == m_after,
                        Ok(u) => {
                            &&& r matches AuthOutcome::Accepted(ctx)
                            &&& ctx.user == u
                            &&& ctx.session_id == sess.id
                            &&& ctx.access_token_expires_at == claims.expires_at
                            &&& st1 == st0.spec_touch(sess.id, now)
                            &&& m1 == m_after
                        },
                    }
                }
        },
    }
}

/// What one resolution pass does: absent or undecodable credentials are
/// rejected untouched; then the session is looked up through the cache,
/// revocation and inactivity are checked, the user is resolved, the
/// identity is attached and the session touched.
pub open spec fn gate_post(
    key: u64,
    dir: DirectoryModel,
    bearer: Option<Seq<char>>,
    now: i64,
    st0: StoreModel,
    st1: StoreModel,
    m0: Map<Seq<char>, Seq<u8>>,
    m1: Map<Seq<char>, Seq<u8>>,
    r: AuthOutcome,
) -> bool {
    match bearer {
        None => r is Unauthorized && st1 == st0 && m1 == m0,
        Some(tok) => match spec_decode_token(key, tok, now) {
            Err(_) => r is Unauthorized && st1 == st0 && m1 == m0,
            Ok(claims) => exists|
                sres: Result<AuthSession, AuthSessionError>,
                m_mid: Map<Seq<char>, Seq<u8>>,
            |
                {
                    &&& #[trigger] session_lookup_post(m0, m_mid, st0, claims.session_id, sres)
                    &&& gate_after_session(claims, dir, now, st0, st1, m_mid, m1, sres, r)
                },
        },
    }
}

/// Resolves one inbound request: extracts the bearer credential,
/// validates it, checks the session's revocation and inactivity, loads
/// the user, attaches the identity and touches the session's liveness.
pub fn require_session(
    verifier: &TokenVerifier,
    store: &mut SessionStore,
    dir: &UserDirectory,
    cache: &mut BlobCache,
    bearer: Option<&str>,
    now: i64,
) -> (r: AuthOutcome)
    requires
        old(store)@.wf(),
        dir@.wf(),
        0 <= now,
    ensures
        gate_post(
            verifier.key,
            dir@,
            bearer_view(bearer),
            now,
            old(store)@,
            final(store)@,
            cache_contents(*old(cache)),
            cache_contents(*final(cache)),
            r,
        ),
        final(store)@.wf(),
{
    let ghost st0 = store@;
    let ghost m0 = cache_contents(*cache);
    let tok = match bearer {
        Some(t) => t,
        None => {
            return AuthOutcome::Unauthorized;
        },
    };
    let claims = match verifier.decode_access_token(tok, now) {
        Ok(c) => c,
        Err(_) => {
            return AuthOutcome::Unauthorized;
        },
    };
    let sres = get_session_cached(store, cache, claims.session_id);
    let ghost m_mid = cache_contents(*cache);
    proof {
        assert(session_lookup_post(m0, m_mid, st0, claims.session_id, sres));
    }
    let session = match sres {
        Ok(s) => s,
        Err(e) => {
            let out = classify_session_error(&e);
            proof {
                assert(gate_after_session(claims, dir@, now, st0, store@, m_mid, m_mid, sres, out));
            }
            return out;
        },
    };
    proof {
        lemma_decoded_session_wf(m0[spec_session_cache_key(claims.session_id)]);
        assert(session.wf());
    }
    if session.revoked_at.is_some() {
        proof {
            assert(gate_after_session(
                claims,
                dir@,
                now,
                st0,
                store@,
                m_mid,
                m_mid,
                sres,
                AuthOutcome::Unauthorized,
            ));
        }
        return AuthOutcome::Unauthorized;
    }
    if session.inactivity_duration(now) > MAX_SESSION_INACTIVITY_SECS {
        let _res = store.revoke(session.id, now);
        invalidate_session_cache(cache, session.id);
        proof {
            crate::store::lemma_wf_apply(st0, StoreOp::Revoke { session_id: session.id, now });
            assert(gate_after_session(
                claims,
                dir@,
                now,
                st0,
                store@,
                m_mid,
                cache_contents(*cache),
                sres,
                AuthOutcome::Unauthorized,
            ));
        }
        return AuthOutcome::Unauthorized;
    }
    let ures = get_user_cached(dir, cache, claims.user_id);
    let ghost m_after = cache_contents(*cache);
    proof {
        assert(user_lookup_post(m_mid, m_after, dir@.users, claims.user_id, ures));
    }
    let user = match ures {
        Ok(u) => u,
        Err(e) => {
            let out = classify_identity_error(&e);
            proof {
                assert(gate_after_session(claims, dir@, now, st0, store@, m_mid, m_after, sres, out));
            }
            return out;
        },
    };
    let ctx = RequestContext {
        user,
        session_id: session.id,
        access_token_expires_at: claims.expires_at,
    };
    let _tres = store.touch(session.id, now);
    let out = AuthOutcome::Accepted(ctx);
    proof {
        crate::store::lemma_wf_apply(st0, StoreOp::Touch { session_id: session.id, now });
        assert(gate_after_session(claims, dir@, now, st0, store@, m_mid, m_after, sres, out));
    }
    out
}

/// Once a session is revoked in the store, a pass that presents a
/// credential for it is rejected, however valid the credential - as
/// long as the cache holds nothing stale for that session (writers
/// invalidate on revocation).
pub proof fn lemma_revoked_session_rejected(
    key: u64,
    dir: DirectoryModel,
    tok: Seq<char>,
    now: i64,
    st0: StoreModel,
    st1: StoreModel,
    m0: Map<Seq<char>, Seq<u8>>,
    m1: Map<Seq<char>, Seq<u8>>,
    r: AuthOutcome,
    claims: AccessTokenClaims,
)
    requires
        st0.wf(),
        gate_post(key, dir, Some(tok), now, st0, st1, m0, m1, r),
        spec_decode_token(key, tok, now) == Ok::<AccessTokenClaims, crate::token::DecodeError>(
            claims,
        ),
        st0.has_session(claims.session_id),
        st0.session(claims.session_id).revoked_at is Some,
        m0.contains_key(spec_session_cache_key(claims.session_id))
            ==> crate::codec::spec_decode_session(m0[spec_session_cache_key(claims.session_id)])
            == Some(st0.session(claims.session_id)),
    ensures
        r is Unauthorized,
        st1 == st0,
{
    let k = spec_session_cache_key(claims.session_id);
    let (sres, m_mid): (Result<AuthSession, AuthSessionError>, Map<Seq<char>, Seq<u8>>) = choose|
        sres: Result<AuthSession, AuthSessionError>,
        m_mid: Map<Seq<char>, Seq<u8>>,
    |
        {
            &&& #[trigger] session_lookup_post(m0, m_mid, st0, claims.session_id, sres)
            &&& gate_after_session(claims, dir, now, st0, st1, m_mid, m1, sres, r)
        };
    if m0.contains_key(k) {
        if let Some(s) = crate::codec::spec_decode_session(m0[k]) {
            assert(s == st0.session(claims.session_id));
        }
    }
}

/// One linked provider account in a profile answer.
#[derive(Clone, Debug, PartialEq)]
pub struct ProviderProfile {
    pub provider: String,
    pub username: Option<String>,
    pub display_name: Option<String>,
    pub email: Option<String>,
    pub avatar_url: Option<String>,
}

impl View for ProviderProfile {
    type V = crate::directory::ProviderDataView;

    open spec fn view(&self) -> crate::directory::ProviderDataView {
        crate::directory::ProviderDataView {
            provider: self.provider@,
            username: opt_str_view(self.username),
            display_name: opt_str_view(self.display_name),
            email: opt_str_view(self.email),
            avatar_url: opt_str_view(self.avatar_url),
        }
    }
}

/// The profile part of an auth-status answer.
#[derive(Clone, Debug, PartialEq)]
pub struct ProfileResponse {
    pub user_id: Id,
    pub username: Option<String>,
    pub email: String,
    pub providers: Vec<ProviderProfile>,
}

/// The auth-status answer: whether the presented credential names a
/// live session, and the profile when it does.
#[derive(Clone, Debug, PartialEq)]
pub struct StatusResponse {
    pub logged_in: bool,
    pub profile: Option<ProfileResponse>,
}

/// Converts stored provider data into its profile form.
pub fn provider_data_to_profile(data: OAuthProviderData) -> (r: ProviderProfile)
    ensures
        r@ == data@,
{
    ProviderProfile {
        provider: data.provider,
        username: data.username,
        display_name: data.display_name,
        email: data.email,
        avatar_url: data.avatar_url,
    }
}

impl SessionStore {
    /// One combined read: the session, its user and the user's provider
    /// accounts ascending by provider name; `None` when the session or
    /// its user is missing.
    pub fn get_auth_status_data(&self, dir: &UserDirectory, session_id: Id) -> (r: Result<
        Option<AuthStatusData>,
        AuthSessionError,
    >)
        requires
            self@.wf(),
            dir@.wf(),
        ensures
            ({
                if !self@.has_session(session_id) {
                    r == Ok::<Option<AuthStatusData>, AuthSessionError>(None)
                } else {
                    let sess = self@.session(session_id);
                    if !UserDirectory::seq_has_user(dir@.users, sess.user_id) {
                        r == Ok::<Option<AuthStatusData>, AuthSessionError>(None)
                    } else {
                        let u = UserDirectory::seq_user(dir@.users, sess.user_id);
                        let flt = spec_accounts_for(dir@.accounts, sess.user_id);
                        &&& r matches Ok(Some(d))
                        &&& d.session_id == sess.id
                        &&& d.session_revoked_at == sess.revoked_at
                        &&& d.user_id == u.id
                        &&& d.email@ == u.email@
                        &&& opt_str_view(d.username) == opt_str_view(u.username)
                        &&& d.providers@.len() == flt.len()
                        &&& forall|i: int|
                            0 <= i < flt.len() ==> (#[trigger] d.providers@[i])@ == flt[i].data@
                        &&& forall|i: int, j: int|
                            0 <= i < j < d.providers@.len() ==> str_le(
                                (#[trigger] d.providers@[i])@.provider,
                                (#[trigger] d.providers@[j])@.provider,
                            )
                    }
                }
            }),
    {
        let sess = match self.get(session_id) {
            Ok(s) => s,
            Err(_) => {
                return Ok(None);
            },
        };
        let user = match dir.fetch_user(sess.user_id) {
            Ok(u) => u,
            Err(_) => {
                return Ok(None);
            },
        };
        let providers = dir.accounts_for_user(sess.user_id);
        Ok(
            Some(
                AuthStatusData {
                    session_id: sess.id,
                    session_revoked_at: sess.revoked_at,
                    user_id: user.id,
                    email: user.email,
                    username: user.username,
                    providers,
                },
            ),
        )
    }
}

/// Converts a list of stored provider data into profile form, keeping
/// order and values.
pub fn providers_to_profiles(v: Vec<OAuthProviderData>) -> (r: Vec<ProviderProfile>)
    ensures
        r@.len() == v@.len(),
        forall|k: int| 0 <= k < v@.len() ==> (#[trigger] r@[k])@ == v@[k]@,
{
    let mut providers: Vec<ProviderProfile> = Vec::new();
    let mut rest = v;
    let n = rest.len();
    let ghost pv = rest@;
    let mut i: usize = 0;
    while i < n
        invariant
            n == pv.len(),
            i <= n,
            rest@ == pv.skip(i as int),
            providers@.len() == i,
            forall|k: int| 0 <= k < i ==> (#[trigger] providers@[k])@ == pv[k]@,
        decreases n - i,
    {
        let d = rest.remove(0);
        proof {
            assert(d == pv[i as int]);
        }
        providers.push(provider_data_to_profile(d));
        i = i + 1;
        proof {
            assert(rest@ =~= pv.skip(i as int));
        }
    }
    providers
}

/// The profile of an authenticated request's user, with the linked
/// provider accounts ascending by provider name.
pub fn profile(dir: &UserDirectory, ctx: &RequestContext) -> (r: ProfileResponse)
    requires
        dir@.wf(),
    ensures
        r.user_id == ctx.user.id,
        opt_str_view(r.username) == opt_str_view(ctx.user.username),
        r.email@ == ctx.user.email@,
        ({
            let flt = spec_accounts_for(dir@.accounts, ctx.user.id);
            &&& r.providers@.len() == flt.len()
            &&& forall|i: int| 0 <= i < flt.len() ==> (#[trigger] r.providers@[i])@ == flt[i].data@
            &&& forall|i: int, j: int|
                0 <= i < j < r.providers@.len() ==> str_le(
                    (#[trigger] r.providers@[i])@.provider,
                    (#[trigger] r.providers@[j])@.provider,
                )
        }),
{
    let accounts = dir.accounts_for_user(ctx.user.id);
    let providers = providers_to_profiles(accounts);
    ProfileResponse {
        user_id: ctx.user.id,
        username: clone_opt_string(&ctx.user.username),
        email: ctx.user.email.clone(),
        providers,
    }
}

/// Whether an auth-status check reports a live login: the credential
/// decodes, its session and user exist, and the session is unrevoked.
pub open spec fn status_accepts(
    key: u64,
    st: StoreModel,
    dir: DirectoryModel,
    bearer: Option<Seq<char>>,
    now: i64,
) -> bool {
    match bearer {
        None => false,
        Some(tok) => match spec_decode_token(key, tok, now) {
            Err(_) => false,
            Ok(claims) => {
                &&& st.has_session(claims.session_id)
                &&& UserDirectory::seq_has_user(dir.users, st.session(claims.session_id).user_id)
                &&& st.session(claims.session_id).revoked_at is None
            },
        },
    }
}

/// The session the status check concerns; meaningful when the bearer
/// decodes.
pub open spec fn status_claims(key: u64, bearer: Option<Seq<char>>, now: i64) -> AccessTokenClaims {
    spec_decode_token(key, bearer.unwrap(), now).unwrap()
}

/// Answers whether the presented credential names a live session, with
/// the profile when it does; never demands authentication.  A live
/// answer touches the session's liveness.
pub fn auth_status(
    verifier: &TokenVerifier,
    store: &mut SessionStore,
    dir: &UserDirectory,
    bearer: Option<&str>,
    now: i64,
) -> (r: StatusResponse)
    requires
        old(store)@.wf(),
        dir@.wf(),
        0 <= now,
    ensures
        r.logged_in == status_accepts(verifier.key, old(store)@, dir@, bearer_view(bearer), now),
        !r.logged_in ==> final(store)@ == old(store)@ && r.profile is None,
        r.logged_in ==> ({
            let claims = status_claims(verifier.key, bearer_view(bearer), now);
            let sess = old(store)@.session(claims.session_id);
            let u = UserDirectory::seq_user(dir@.users, sess.user_id);
            let flt = spec_accounts_for(dir@.accounts, sess.user_id);
            &&& final(store)@ == old(store)@.spec_touch(claims.session_id, now)
            &&& r.profile matches Some(p)
            &&& p.user_id == u.id
            &&& p.email@ == u.email@
            &&& opt_str_view(p.username) == opt_str_view(u.username)
            &&& p.providers@.len() == flt.len()
            &&& forall|i: int| 0 <= i < flt.len() ==> (#[trigger] p.providers@[i])@ == flt[i].data@
            &&& forall|i: int, j: int|
                0 <= i < j < p.providers@.len() ==> str_le(
                    (#[trigger] p.providers@[i])@.provider,
                    (#[trigger] p.providers@[j])@.provider,
                )
        }),
        final(store)@.wf(),
{
    let logged_out = StatusResponse { logged_in: false, profile: None };
    let tok = match bearer {
        Some(t) => t,
        None => {
            return logged_out;
        },
    };
    let claims = match verifier.decode_access_token(tok, now) {
        Ok(c) => c,
        Err(_) => {
            return logged_out;
        },
    };
    let data = match self_status_data(store, dir, claims.session_id) {
        Some(d) => d,
        None => {
            return logged_out;
        },
    };
    if data.session_revoked_at.is_some() {
        return logged_out;
    }
    let _tres = store.touch(data.session_id, now);
    proof {
        crate::store::lemma_wf_apply(
            old(store)@,
            StoreOp::Touch { session_id: data.session_id, now },
        );
    }
    let providers = providers_to_profiles(data.providers);
    StatusResponse {
        logged_in: true,
        profile: Some(
            ProfileResponse {
                user_id: data.user_id,
                username: data.username,
                email: data.email,
                providers,
            },
        ),
    }
}

/// The combined status read, with the session identifier from the
/// claims.
fn self_status_data(store: &SessionStore, dir: &UserDirectory, session_id: Id) -> (r: Option<
    AuthStatusData,
>)
    requires
        store@.wf(),
        dir@.wf(),
    ensures
        ({
            if !store@.has_session(session_id) {
                r is None
            } else {
                let sess = store@.session(session_id);
                if !UserDirectory::seq_has_user(dir@.users, sess.user_id) {
                    r is None
                } else {
                    let u = UserDirectory::seq_user(dir@.users, sess.user_id);
                    let flt = spec_accounts_for(dir@.accounts, sess.user_id);
                    &&& r matches Some(d)
                    &&& d.session_id == sess.id
                    &&& d.session_revoked_at == sess.revoked_at
                    &&& d.user_id == u.id
                    &&& d.email@ == u.email@
                    &&& opt_str_view(d.username) == opt_str_view(u.username)
                    &&& d.providers@.len() == flt.len()
                    &&& forall|i: int|
                        0 <= i < flt.len() ==> (#[trigger] d.providers@[i])@ == flt[i].data@
                    &&& forall|i: int, j: int|
                        0 <= i < j < d.providers@.len() ==> str_le(
                            (#[trigger] d.providers@[i])@.provider,
                            (#[trigger] d.providers@[j])@.provider,
                        )
                }
            }
        }),
{
    match store.get_auth_status_data(dir, session_id) {
        Ok(d) => d,
        Err(_) => None,
    }
}

/// Revokes the session and drops its cache entry; revocation is
/// idempotent and an unknown session is no error.
pub fn logout(store: &mut SessionStore, cache: &mut BlobCache, session_id: Id, now: i64) -> (r:
    Result<(), AuthSessionError>)
    requires
        old(store)@.wf(),
        0 <= now,
    ensures
        final(store)@ == old(store)@.spec_revoke(session_id, now),
        final(store)@.wf(),
        cache_contents(*final(cache)) == cache_contents(*old(cache)).remove(
            spec_session_cache_key(session_id),
        ),
        r == Ok::<(), AuthSessionError>(()),
{
    let res = store.revoke(session_id, now);
    invalidate_session_cache(cache, session_id);
    proof {
        crate::store::lemma_wf_apply(old(store)@, StoreOp::Revoke { session_id, now });
    }
    res
}

} // verus!
