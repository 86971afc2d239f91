//! The session ledger: the durable set of session records and the
//! append-only refresh-credential revocation ledger, with the liveness
//! touch and the rotation protocol.
//!
//! Every operation is specified as a transformation of the ledger's
//! mathematical state, [`StoreModel`].  The concurrency story of the
//! subsystem rests on each operation being one atomic step at the store;
//! here each call is that step, so interleavings of calls are exactly the
//! sequences of [`StoreOp`] steps the laws below quantify over.

use vstd::prelude::*;

use crate::ids::Id;
use crate::records::{
    AuthSession, AuthSessionError, RevokeReason, RevokedRefreshRecord, TOUCH_COALESCE_SECS,
};

verus! {

/// The mathematical state of the ledger.
#[verifier::ext_equal]
pub struct StoreModel {
    pub sessions: Seq<AuthSession>,
    pub revoked: Seq<RevokedRefreshRecord>,
}

/// Whether a revocation ledger holds an entry for `t`.
pub open spec fn ledger_contains_seq(l: Seq<RevokedRefreshRecord>, t: Id) -> bool {
    exists|i: int| 0 <= i < l.len() && l[i].token_id == t
}

/// A session record after a liveness touch at `now`.
pub open spec fn spec_touched(s: AuthSession, now: i64) -> AuthSession {
    AuthSession { last_used_at: Some(now), ..s }
}

/// Whether a touch at `now` is due: never touched, or last touched more
/// than the coalescing window ago.
pub open spec fn touch_due(s: AuthSession, now: i64) -> bool {
    match s.last_used_at {
        None => true,
        Some(t) => t < now - TOUCH_COALESCE_SECS,
    }
}

/// A session record after the bulk revocation of `user_id` at `now`.
pub open spec fn mass_revoked(s: AuthSession, user_id: Id, now: i64) -> AuthSession {
    if s.user_id == user_id && s.revoked_at is None {
        AuthSession { revoked_at: Some(now), ..s }
    } else {
        s
    }
}

/// Whether the bulk revocation of `user_id` appends a ledger entry for
/// the refresh credential of `s`, given the ledger before the call.
pub open spec fn bulk_ledger_due(
    s: AuthSession,
    user_id: Id,
    led0: Seq<RevokedRefreshRecord>,
) -> bool {
    s.user_id == user_id && s.refresh_token_id is Some && !ledger_contains_seq(
        led0,
        s.refresh_token_id.unwrap(),
    )
}

/// The ledger entries appended by the bulk revocation of `user_id`, in
/// session order.
pub open spec fn spec_bulk_records(
    ss: Seq<AuthSession>,
    user_id: Id,
    led0: Seq<RevokedRefreshRecord>,
) -> Seq<RevokedRefreshRecord>
    decreases ss.len(),
{
    if ss.len() == 0 {
        Seq::empty()
    } else {
        spec_bulk_records(ss.drop_last(), user_id, led0) + if bulk_ledger_due(
            ss.last(),
            user_id,
            led0,
        ) {
            seq![
                RevokedRefreshRecord {
                    token_id: ss.last().refresh_token_id.unwrap(),
                    user_id,
                    reason: RevokeReason::ReuseOfRevokedToken,
                },
            ]
        } else {
            Seq::empty()
        }
    }
}

/// How many sessions the bulk revocation of `user_id` newly revokes.
pub open spec fn spec_mass_count(ss: Seq<AuthSession>, user_id: Id) -> int
    decreases ss.len(),
{
    if ss.len() == 0 {
        0
    } else {
        spec_mass_count(ss.drop_last(), user_id) + if ss.last().user_id == user_id
            && ss.last().revoked_at is None {
            1int
        } else {
            0int
        }
    }
}

impl StoreModel {
    pub open spec fn has_session(self, id: Id) -> bool {
        exists|i: int| 0 <= i < self.sessions.len() && self.sessions[i].id == id
    }

    pub open spec fn session_idx(self, id: Id) -> int {
        choose|i: int| 0 <= i < self.sessions.len() && self.sessions[i].id == id
    }

    /// The session with identifier `id`; meaningful under
    /// [`Self::has_session`] and well-formedness.
    pub open spec fn session(self, id: Id) -> AuthSession {
        self.sessions[self.session_idx(id)]
    }

    pub open spec fn ledger_contains(self, t: Id) -> bool {
        ledger_contains_seq(self.revoked, t)
    }

    /// Whether `t` is the current refresh credential of some session.
    pub open spec fn refresh_in_use(self, t: Id) -> bool {
        exists|i: int|
            0 <= i < self.sessions.len() && self.sessions[i].refresh_token_id == Some(t)
    }

    /// A refresh credential that can never rotate again: ledgered, and
    /// current on no session.
    pub open spec fn retired(self, t: Id) -> bool {
        self.ledger_contains(t) && !self.refresh_in_use(t)
    }

    /// Ledger well-formedness: session identifiers are unique, a refresh
    /// credential is current on at most one session, ledger entries are
    /// unique per credential, and every record is well-formed.
    pub open spec fn wf(self) -> bool {
        &&& forall|i: int, j: int|
            0 <= i < j < self.sessions.len() ==> (#[trigger] self.sessions[i]).id != (
            #[trigger] self.sessions[j]).id
        &&& forall|i: int, j: int|
            0 <= i < j < self.sessions.len() ==> !((#[trigger] self.sessions[i]).refresh_token_id
                is Some && self.sessions[i].refresh_token_id == (
            #[trigger] self.sessions[j]).refresh_token_id)
        &&& forall|i: int, j: int|
            0 <= i < j < self.revoked.len() ==> (#[trigger] self.revoked[i]).token_id != (
            #[trigger] self.revoked[j]).token_id
        &&& forall|i: int| 0 <= i < self.sessions.len() ==> (#[trigger] self.sessions[i]).wf()
    }

    /// State after `create`.
    pub open spec fn spec_create(
        self,
        id: Id,
        user_id: Id,
        refresh_token_id: Option<Id>,
        now: i64,
    ) -> (StoreModel, AuthSession) {
        let s = AuthSession {
            id,
            user_id,
            created_at: now,
            last_used_at: None,
            revoked_at: None,
            refresh_token_id,
            refresh_token_issued_at: None,
        };
        (StoreModel { sessions: self.sessions.push(s), revoked: self.revoked }, s)
    }

    /// State after `touch`: one conditional write, coalesced within the
    /// window.
    pub open spec fn spec_touch(self, session_id: Id, now: i64) -> StoreModel {
        if self.has_session(session_id) && touch_due(self.session(session_id), now) {
            StoreModel {
                sessions: self.sessions.update(
                    self.session_idx(session_id),
                    spec_touched(self.session(session_id), now),
                ),
                revoked: self.revoked,
            }
        } else {
            self
        }
    }

    /// Whether the rotation's conditional write matches: the session
    /// exists and its current refresh credential equals `old_token`.
    pub open spec fn rotate_matches(self, session_id: Id, old_token: Id) -> bool {
        self.has_session(session_id) && self.session(session_id).refresh_token_id == Some(
            old_token,
        )
    }

    /// State and result of `rotate_tokens`: the linearization point is
    /// the conditional write; on a match the old credential is ledgered
    /// idempotently, otherwise the state is unchanged and the attempt is
    /// reuse.
    pub open spec fn spec_rotate(self, session_id: Id, old_token: Id, new_token: Id, now: i64) -> (
        StoreModel,
        Result<(), AuthSessionError>,
    ) {
        if self.rotate_matches(session_id, old_token) {
            let s = self.session(session_id);
            let s2 = AuthSession {
                refresh_token_id: Some(new_token),
                refresh_token_issued_at: Some(now),
                ..s
            };
            let led = if ledger_contains_seq(self.revoked, old_token) {
                self.revoked
            } else {
                self.revoked.push(
                    RevokedRefreshRecord {
                        token_id: old_token,
                        user_id: s.user_id,
                        reason: RevokeReason::RotationSuperseded,
                    },
                )
            };
            (
                StoreModel {
                    sessions: self.sessions.update(self.session_idx(session_id), s2),
                    revoked: led,
                },
                Ok(()),
            )
        } else {
            (self, Err(AuthSessionError::TokenReuseDetected))
        }
    }

    /// State after `set_current_refresh_token`.
    pub open spec fn spec_set_refresh(self, session_id: Id, token: Id, now: i64) -> StoreModel {
        if self.has_session(session_id) {
            let s = self.session(session_id);
            StoreModel {
                sessions: self.sessions.update(
                    self.session_idx(session_id),
                    AuthSession {
                        refresh_token_id: Some(token),
                        refresh_token_issued_at: Some(now),
                        ..s
                    },
                ),
                revoked: self.revoked,
            }
        } else {
            self
        }
    }

    /// State after `revoke`: sets `revoked_at` only when unset;
    /// revocation is terminal and re-revoking is a no-op.
    pub open spec fn spec_revoke(self, session_id: Id, now: i64) -> StoreModel {
        if self.has_session(session_id) && self.session(session_id).revoked_at is None {
            let s = self.session(session_id);
            StoreModel {
                sessions: self.sessions.update(
                    self.session_idx(session_id),
                    AuthSession { revoked_at: Some(now), ..s },
                ),
                revoked: self.revoked,
            }
        } else {
            self
        }
    }

    /// State and count of `revoke_all_user_sessions`.
    pub open spec fn spec_revoke_all(self, user_id: Id, now: i64) -> (StoreModel, int) {
        (
            StoreModel {
                sessions: Seq::new(
                    self.sessions.len(),
                    |i: int| mass_revoked(self.sessions[i], user_id, now),
                ),
                revoked: self.revoked + spec_bulk_records(self.sessions, user_id, self.revoked),
            },
            spec_mass_count(self.sessions, user_id),
        )
    }
}

/// The durable session store and revocation ledger.
pub struct SessionStore {
    pub sessions: Vec<AuthSession>,
    pub revoked: Vec<RevokedRefreshRecord>,
}

impl View for SessionStore {
    type V = StoreModel;

    open spec fn view(&self) -> StoreModel {
        StoreModel { sessions: self.sessions@, revoked: self.revoked@ }
    }
}

/// Whether the ledger vector holds an entry for `t`.
fn ledger_has(l: &Vec<RevokedRefreshRecord>, t: Id) -> (r: bool)
    ensures
        r == ledger_contains_seq(l@, t),
{
    let n = l.len();
    let mut i: usize = 0;
    while i < n
        invariant
            n == l@.len(),
            i <= n,
            forall|k: int| 0 <= k < i ==> (#[trigger] l@[k]).token_id != t,
        decreases n - i,
    {
        if l[i].token_id == t {
            return true;
        }
        i = i + 1;
    }
    false
}

impl SessionStore {
    /// An empty store.
    pub fn new() -> (r: SessionStore)
        ensures
            r@.sessions == Seq::<AuthSession>::empty(),
            r@.revoked == Seq::<RevokedRefreshRecord>::empty(),
            r@.wf(),
    {
        SessionStore { sessions: Vec::new(), revoked: Vec::new() }
    }

    /// The index of the session with identifier `session_id`, if any.
    fn find_session(&self, session_id: Id) -> (r: Option<usize>)
        requires
            self@.wf(),
        ensures
            match r {
                Some(i) => {
                    &&& i < self@.sessions.len()
                    &&& self@.sessions[i as int].id == session_id
                    &&& self@.has_session(session_id)
                    &&& self@.session_idx(session_id) == i
                    &&& self@.session(session_id) == self@.sessions[i as int]
                },
                None => !self@.has_session(session_id),
            },
    {
        let n = self.sessions.len();
        let mut i: usize = 0;
        while i < n
            invariant
                self@.wf(),
                n == self@.sessions.len(),
                i <= n,
                forall|k: int| 0 <= k < i ==> (#[trigger] self@.sessions[k]).id != session_id,
            decreases n - i,
        {
            if self.sessions[i].id == session_id {
                proof {
                    assert(self@.has_session(session_id));
                    let j = self@.session_idx(session_id);
                    assert(0 <= j < self@.sessions.len() && self@.sessions[j].id == session_id);
                    if j != i {
                        assert(self@.sessions[j].id != self@.sessions[i as int].id);
                    }
                }
                return Some(i);
            }
            i = i + 1;
        }
        None
    }

    /// Point lookup; `NotFound` when no session has the identifier.
    pub fn get(&self, session_id: Id) -> (r: Result<AuthSession, AuthSessionError>)
        requires
            self@.wf(),
        ensures
            r == if self@.has_session(session_id) {
                Ok::<AuthSession, AuthSessionError>(self@.session(session_id))
            } else {
                Err::<AuthSession, AuthSessionError>(AuthSessionError::NotFound)
            },
    {
        match self.find_session(session_id) {
            Some(i) => Ok(self.sessions[i]),
            None => Err(AuthSessionError::NotFound),
        }
    }

    /// Inserts a new session row.
    pub fn create(
        &mut self,
        id: Id,
        user_id: Id,
        refresh_token_id: Option<Id>,
        now: i64,
    ) -> (r: Result<AuthSession, AuthSessionError>)
        requires
            old(self)@.wf(),
            0 <= now,
            !old(self)@.has_session(id),
            refresh_token_id matches Some(t) ==> !old(self)@.refresh_in_use(t) && !old(
                self,
            )@.ledger_contains(t),
        ensures
            final(self)@ == old(self)@.spec_create(id, user_id, refresh_token_id, now).0,
            r == Ok::<AuthSession, AuthSessionError>(
                old(self)@.spec_create(id, user_id, refresh_token_id, now).1,
            ),
    {
        let s = AuthSession {
            id,
            user_id,
            created_at: now,
            last_used_at: None,
            revoked_at: None,
            refresh_token_id,
            refresh_token_issued_at: None,
        };
        self.sessions.push(s);
        Ok(s)
    }

    /// Liveness touch: one conditional write, coalesced to at most one
    /// write per window.
    pub fn touch(&mut self, session_id: Id, now: i64) -> (r: Result<(), AuthSessionError>)
        requires
            old(self)@.wf(),
            0 <= now,
        ensures
            final(self)@ == old(self)@.spec_touch(session_id, now),
            r == Ok::<(), AuthSessionError>(()),
    {
        match self.find_session(session_id) {
            Some(i) => {
                let s = self.sessions[i];
                let due = match s.last_used_at {
                    None => true,
                    Some(t) => t < now - TOUCH_COALESCE_SECS,
                };
                if due {
                    self.sessions.set(i, AuthSession { last_used_at: Some(now), ..s });
                }
                proof {
                    assert(self@ =~= old(self)@.spec_touch(session_id, now));
                }
            },
            None => {},
        }
        Ok(())
    }

    /// The rotation protocol's linearization point: replaces the
    /// session's refresh credential only if it currently equals
    /// `old_token`, and ledgers the old credential; a non-matching
    /// attempt is reuse and changes nothing.
    pub fn rotate_tokens(
        &mut self,
        session_id: Id,
        old_token: Id,
        new_token: Id,
        now: i64,
    ) -> (r: Result<(), AuthSessionError>)
        requires
            old(self)@.wf(),
            0 <= now,
            !old(self)@.refresh_in_use(new_token),
            !old(self)@.ledger_contains(new_token),
        ensures
            final(self)@ == old(self)@.spec_rotate(session_id, old_token, new_token, now).0,
            r == old(self)@.spec_rotate(session_id, old_token, new_token, now).1,
    {
        match self.find_session(session_id) {
            Some(i) => {
                let s = self.sessions[i];
                let matches = match s.refresh_token_id {
                    Some(t) => t == old_token,
                    None => false,
                };
                if matches {
                    self.sessions.set(
                        i,
                        AuthSession {
                            refresh_token_id: Some(new_token),
                            refresh_token_issued_at: Some(now),
                            ..s
                        },
                    );
                    if !ledger_has(&self.revoked, old_token) {
                        self.revoked.push(
                            RevokedRefreshRecord {
                                token_id: old_token,
                                user_id: s.user_id,
                                reason: RevokeReason::RotationSuperseded,
                            },
                        );
                    }
                    proof {
                        assert(self@ =~= old(self)@.spec_rotate(
                            session_id,
                            old_token,
                            new_token,
                            now,
                        ).0);
                    }
                    Ok(())
                } else {
                    Err(AuthSessionError::TokenReuseDetected)
                }
            },
            None => Err(AuthSessionError::TokenReuseDetected),
        }
    }

    /// Unconditionally installs a refresh credential on the session.
    pub fn set_current_refresh_token(
        &mut self,
        session_id: Id,
        refresh_token_id: Id,
        now: i64,
    ) -> (r: Result<(), AuthSessionError>)
        requires
            old(self)@.wf(),
            0 <= now,
            !old(self)@.refresh_in_use(refresh_token_id),
            !old(self)@.ledger_contains(refresh_token_id),
        ensures
            final(self)@ == old(self)@.spec_set_refresh(session_id, refresh_token_id, now),
            r == Ok::<(), AuthSessionError>(()),
    {
        match self.find_session(session_id) {
            Some(i) => {
                let s = self.sessions[i];
                self.sessions.set(
                    i,
                    AuthSession {
                        refresh_token_id: Some(refresh_token_id),
                        refresh_token_issued_at: Some(now),
                        ..s
                    },
                );
                proof {
                    assert(self@ =~= old(self)@.spec_set_refresh(session_id, refresh_token_id, now));
                }
            },
            None => {},
        }
        Ok(())
    }

    /// Sets `revoked_at` if unset; idempotent.
    pub fn revoke(&mut self, session_id: Id, now: i64) -> (r: Result<(), AuthSessionError>)
        requires
            old(self)@.wf(),
            0 <= now,
        ensures
            final(self)@ == old(self)@.spec_revoke(session_id, now),
            r == Ok::<(), AuthSessionError>(()),
    {
        match self.find_session(session_id) {
            Some(i) => {
                let s = self.sessions[i];
                if s.revoked_at.is_none() {
                    self.sessions.set(i, AuthSession { revoked_at: Some(now), ..s });
                }
                proof {
                    assert(self@ =~= old(self)@.spec_revoke(session_id, now));
                }
            },
            None => {},
        }
        Ok(())
    }

    /// Whether a refresh credential is current on some session; lets a
    /// caller establish the freshness a mint must have.
    pub fn refresh_token_in_use(&self, token_id: Id) -> (r: bool)
        ensures
            r == self@.refresh_in_use(token_id),
    {
        let n = self.sessions.len();
        let mut i: usize = 0;
        while i < n
            invariant
                n == self@.sessions.len(),
                i <= n,
                forall|k: int|
                    0 <= k < i ==> (#[trigger] self@.sessions[k]).refresh_token_id != Some(
                        token_id,
                    ),
            decreases n - i,
        {
            let hit = match self.sessions[i].refresh_token_id {
                Some(t) => t == token_id,
                None => false,
            };
            if hit {
                return true;
            }
            i = i + 1;
        }
        false
    }

    /// Ledger membership check for a refresh credential.
    pub fn is_refresh_token_revoked(&self, token_id: Id) -> (r: Result<bool, AuthSessionError>)
        ensures
            r == Ok::<bool, AuthSessionError>(self@.ledger_contains(token_id)),
    {
        Ok(ledger_has(&self.revoked, token_id))
    }

    /// In one step, ledgers every current refresh credential owned by the
    /// user and revokes every unrevoked session of the user; returns how
    /// many sessions were newly revoked.
    pub fn revoke_all_user_sessions(&mut self, user_id: Id, now: i64) -> (r: Result<
        i64,
        AuthSessionError,
    >)
        requires
            old(self)@.wf(),
            0 <= now,
            old(self)@.sessions.len() < 0x8000000000000000,
        ensures
            final(self)@ == old(self)@.spec_revoke_all(user_id, now).0,
            r == Ok::<i64, AuthSessionError>(old(self)@.spec_revoke_all(user_id, now).1 as i64),
    {
        let ghost m0 = self@;
        let n = self.sessions.len();
        let mut count: i64 = 0;
        let mut i: usize = 0;
        while i < n
            invariant
                m0.wf(),
                0 <= now,
                n == m0.sessions.len(),
                n < 0x8000000000000000,
                i <= n,
                self.sessions@.len() == n,
                forall|k: int|
                    0 <= k < i ==> self.sessions@[k] == mass_revoked(m0.sessions[k], user_id, now),
                forall|k: int| i <= k < n ==> self.sessions@[k] == m0.sessions[k],
                self.revoked@ == m0.revoked + spec_bulk_records(
                    m0.sessions.take(i as int),
                    user_id,
                    m0.revoked,
                ),
                count == spec_mass_count(m0.sessions.take(i as int), user_id),
                0 <= count <= i,
            decreases n - i,
        {
            let ghost prefix = m0.sessions.take(i as int);
            let s = self.sessions[i];
            if s.user_id == user_id {
                match s.refresh_token_id {
                    Some(t) => {
                        proof {
                            lemma_bulk_records_props(prefix, user_id, m0.revoked);
                            lemma_ledger_contains_concat(
                                m0.revoked,
                                spec_bulk_records(prefix, user_id, m0.revoked),
                                t,
                            );
                            if ledger_contains_seq(
                                spec_bulk_records(prefix, user_id, m0.revoked),
                                t,
                            ) {
                                let p = choose|p: int|
                                    0 <= p < spec_bulk_records(prefix, user_id, m0.revoked).len()
                                        && spec_bulk_records(prefix, user_id, m0.revoked)[p].token_id
                                        == t;
                                let k = choose|k: int|
                                    0 <= k < prefix.len() && prefix[k].refresh_token_id == Some(t)
                                        && bulk_ledger_due(prefix[k], user_id, m0.revoked);
                                assert(m0.sessions[k].refresh_token_id == Some(t));
                                assert(m0.sessions[i as int].refresh_token_id == Some(t));
                                assert(false);
                            }
                        }
                        if !ledger_has(&self.revoked, t) {
                            self.revoked.push(
                                RevokedRefreshRecord {
                                    token_id: t,
                                    user_id,
                                    reason: RevokeReason::ReuseOfRevokedToken,
                                },
                            );
                        }
                    },
                    None => {},
                }
                if s.revoked_at.is_none() {
                    self.sessions.set(i, AuthSession { revoked_at: Some(now), ..s });
                    count = count + 1;
                }
            }
            i = i + 1;
            proof {
                let taken = m0.sessions.take(i as int);
                assert(taken.drop_last() =~= prefix);
                assert(taken.last() == m0.sessions[i as int - 1]);
                assert(self.revoked@ =~= m0.revoked + spec_bulk_records(
                    taken,
                    user_id,
                    m0.revoked,
                ));
            }
        }
        proof {
            assert(m0.sessions.take(n as int) =~= m0.sessions);
            assert(self@.sessions =~= m0.spec_revoke_all(user_id, now).0.sessions);
            assert(self@ =~= m0.spec_revoke_all(user_id, now).0);
        }
        Ok(count)
    }
}

/// Membership in a concatenation of ledgers is membership in either.
pub proof fn lemma_ledger_contains_concat(
    a: Seq<RevokedRefreshRecord>,
    b: Seq<RevokedRefreshRecord>,
    t: Id,
)
    ensures
        ledger_contains_seq(a + b, t) == (ledger_contains_seq(a, t) || ledger_contains_seq(b, t)),
{
    if ledger_contains_seq(a, t) {
        let i = choose|i: int| 0 <= i < a.len() && a[i].token_id == t;
        assert((a + b)[i].token_id == t);
    }
    if ledger_contains_seq(b, t) {
        let i = choose|i: int| 0 <= i < b.len() && b[i].token_id == t;
        assert((a + b)[a.len() + i].token_id == t);
    }
    if ledger_contains_seq(a + b, t) {
        let i = choose|i: int| 0 <= i < (a + b).len() && (a + b)[i].token_id == t;
        if i < a.len() {
            assert(a[i].token_id == t);
        } else {
            assert(b[i - a.len()].token_id == t);
        }
    }
}

/// The records appended by a bulk revocation: each originates from a
/// session of the user whose credential was not yet ledgered, no two
/// carry the same credential, and none was already ledgered.
pub proof fn lemma_bulk_records_props(
    ss: Seq<AuthSession>,
    user_id: Id,
    led0: Seq<RevokedRefreshRecord>,
)
    requires
        forall|i: int, j: int|
            0 <= i < j < ss.len() ==> !((#[trigger] ss[i]).refresh_token_id is Some
                && ss[i].refresh_token_id == (#[trigger] ss[j]).refresh_token_id),
    ensures
        ({
            let bulk = spec_bulk_records(ss, user_id, led0);
            &&& forall|p: int|
                0 <= p < bulk.len() ==> exists|k: int|
                    0 <= k < ss.len() && (#[trigger] ss[k]).refresh_token_id == Some(
                        (#[trigger] bulk[p]).token_id,
                    ) && bulk_ledger_due(ss[k], user_id, led0)
            &&& forall|p: int|
                0 <= p < bulk.len() ==> !ledger_contains_seq(led0, (#[trigger] bulk[p]).token_id)
            &&& forall|p: int, q: int|
                0 <= p < q < bulk.len() ==> (#[trigger] bulk[p]).token_id != (
                #[trigger] bulk[q]).token_id
        }),
    decreases ss.len(),
{
    if ss.len() > 0 {
        let head = ss.drop_last();
        lemma_bulk_records_props(head, user_id, led0);
        let bulk0 = spec_bulk_records(head, user_id, led0);
        let bulk = spec_bulk_records(ss, user_id, led0);
        assert(forall|k: int| 0 <= k < head.len() ==> head[k] == ss[k]);
        if bulk_ledger_due(ss.last(), user_id, led0) {
            let t = ss.last().refresh_token_id.unwrap();
            assert(bulk.len() == bulk0.len() + 1);
            assert(bulk[bulk0.len() as int].token_id == t);
            assert(ss[ss.len() - 1].refresh_token_id == Some(t));
            assert forall|p: int, q: int| 0 <= p < q < bulk.len() implies (
            #[trigger] bulk[p]).token_id != (#[trigger] bulk[q]).token_id by {
                if q < bulk0.len() {
                    assert(bulk[p] == bulk0[p] && bulk[q] == bulk0[q]);
                } else {
                    assert(bulk[p] == bulk0[p]);
                    let k = choose|k: int|
                        0 <= k < head.len() && (#[trigger] head[k]).refresh_token_id == Some(
                            bulk0[p].token_id,
                        ) && bulk_ledger_due(head[k], user_id, led0);
                    assert(ss[k].refresh_token_id == Some(bulk0[p].token_id));
                    assert(ss[k].refresh_token_id != ss[ss.len() - 1].refresh_token_id);
                }
            }
            assert forall|p: int| 0 <= p < bulk.len() implies exists|k: int|
                0 <= k < ss.len() && (#[trigger] ss[k]).refresh_token_id == Some(
                    (#[trigger] bulk[p]).token_id,
                ) && bulk_ledger_due(ss[k], user_id, led0) by {
                if p < bulk0.len() {
                    let k = choose|k: int|
                        0 <= k < head.len() && (#[trigger] head[k]).refresh_token_id == Some(
                            bulk0[p].token_id,
                        ) && bulk_ledger_due(head[k], user_id, led0);
                    assert(0 <= k < ss.len() && ss[k].refresh_token_id == Some(bulk[p].token_id)
                        && bulk_ledger_due(ss[k], user_id, led0));
                } else {
                    assert(0 <= ss.len() - 1 < ss.len() && ss[ss.len() - 1].refresh_token_id
                        == Some(bulk[p].token_id) && bulk_ledger_due(
                        ss[ss.len() - 1],
                        user_id,
                        led0,
                    ));
                }
            }
        } else {
            assert(bulk =~= bulk0);
            assert forall|p: int| 0 <= p < bulk.len() implies exists|k: int|
                0 <= k < ss.len() && (#[trigger] ss[k]).refresh_token_id == Some(
                    (#[trigger] bulk[p]).token_id,
                ) && bulk_ledger_due(ss[k], user_id, led0) by {
                let k = choose|k: int|
                    0 <= k < head.len() && (#[trigger] head[k]).refresh_token_id == Some(
                        bulk0[p].token_id,
                    ) && bulk_ledger_due(head[k], user_id, led0);
                assert(0 <= k < ss.len() && ss[k].refresh_token_id == Some(bulk[p].token_id)
                    && bulk_ledger_due(ss[k], user_id, led0));
            }
        }
    }
}


/// One atomic step of the ledger, as seen by the laws below.  Interleaved
/// callers of the store execute some sequence of these steps.
pub enum StoreOp {
    Create { id: Id, user_id: Id, refresh_token_id: Option<Id>, now: i64 },
    Touch { session_id: Id, now: i64 },
    Rotate { session_id: Id, old_token: Id, new_token: Id, now: i64 },
    SetRefresh { session_id: Id, refresh_token_id: Id, now: i64 },
    Revoke { session_id: Id, now: i64 },
    RevokeAll { user_id: Id, now: i64 },
}

/// The precondition of each step: instants are non-negative, and newly
/// minted identifiers are fresh - a new refresh credential is current on
/// no session and was never ledgered.
pub open spec fn op_permitted(m: StoreModel, op: StoreOp) -> bool {
    match op {
        StoreOp::Create { id, refresh_token_id, now, .. } => {
            &&& 0 <= now
            &&& !m.has_session(id)
            &&& (refresh_token_id matches Some(t) ==> !m.refresh_in_use(t) && !m.ledger_contains(
                t,
            ))
        },
        StoreOp::Touch { now, .. } => 0 <= now,
        StoreOp::Rotate { new_token, now, .. } => {
            &&& 0 <= now
            &&& !m.refresh_in_use(new_token)
            &&& !m.ledger_contains(new_token)
        },
        StoreOp::SetRefresh { refresh_token_id, now, .. } => {
            &&& 0 <= now
            &&& !m.refresh_in_use(refresh_token_id)
            &&& !m.ledger_contains(refresh_token_id)
        },
        StoreOp::Revoke { now, .. } => 0 <= now,
        StoreOp::RevokeAll { now, .. } => 0 <= now,
    }
}

/// The state after one step.
pub open spec fn apply_op(m: StoreModel, op: StoreOp) -> StoreModel {
    match op {
        StoreOp::Create { id, user_id, refresh_token_id, now } => m.spec_create(
            id,
            user_id,
            refresh_token_id,
            now,
        ).0,
        StoreOp::Touch { session_id, now } => m.spec_touch(session_id, now),
        StoreOp::Rotate { session_id, old_token, new_token, now } => m.spec_rotate(
            session_id,
            old_token,
            new_token,
            now,
        ).0,
        StoreOp::SetRefresh { session_id, refresh_token_id, now } => m.spec_set_refresh(
            session_id,
            refresh_token_id,
            now,
        ),
        StoreOp::Revoke { session_id, now } => m.spec_revoke(session_id, now),
        StoreOp::RevokeAll { user_id, now } => m.spec_revoke_all(user_id, now).0,
    }
}

/// In a well-formed ledger a session index is determined by its
/// identifier.
pub proof fn lemma_unique_idx(m: StoreModel, i: int, id: Id)
    requires
        forall|p: int, q: int|
            0 <= p < q < m.sessions.len() ==> (#[trigger] m.sessions[p]).id != (
            #[trigger] m.sessions[q]).id,
        0 <= i < m.sessions.len(),
        m.sessions[i].id == id,
    ensures
        m.has_session(id),
        m.session_idx(id) == i,
        m.session(id) == m.sessions[i],
{
    assert(m.has_session(id));
    let j = m.session_idx(id);
    assert(0 <= j < m.sessions.len() && m.sessions[j].id == id);
    if i != j {
        assert(m.sessions[i].id != m.sessions[j].id);
    }
}

/// Every permitted step preserves well-formedness.
pub proof fn lemma_wf_apply(m: StoreModel, op: StoreOp)
    requires
        m.wf(),
        op_permitted(m, op),
    ensures
        apply_op(m, op).wf(),
{
    let m2 = apply_op(m, op);
    match op {
        StoreOp::Create { .. } => {
        },
        StoreOp::Touch { .. } => {
        },
        StoreOp::Rotate { session_id, old_token, new_token, now } => {
            if m.rotate_matches(session_id, old_token) {
                let i = m.session_idx(session_id);
                assert(0 <= i < m.sessions.len() && m.sessions[i].id == session_id);
                assert(forall|k: int|
                    0 <= k < m2.sessions.len() && k != i ==> m2.sessions[k] == m.sessions[k]);
                if !ledger_contains_seq(m.revoked, old_token) {
                    assert(forall|k: int|
                        0 <= k < m.revoked.len() ==> (#[trigger] m2.revoked[k]) == m.revoked[k]);
                    assert(forall|k: int|
                        0 <= k < m.revoked.len() ==> (#[trigger] m.revoked[k]).token_id
                            != old_token);
                }
            }
        },
        StoreOp::SetRefresh { session_id, refresh_token_id, now } => {
            if m.has_session(session_id) {
                let i = m.session_idx(session_id);
                assert(0 <= i < m.sessions.len() && m.sessions[i].id == session_id);
                assert(forall|k: int|
                    0 <= k < m2.sessions.len() && k != i ==> m2.sessions[k] == m.sessions[k]);
            }
        },
        StoreOp::Revoke { session_id, now } => {
            if m.has_session(session_id) && m.session(session_id).revoked_at is None {
                let i = m.session_idx(session_id);
                assert(forall|k: int|
                    0 <= k < m2.sessions.len() && k != i ==> m2.sessions[k] == m.sessions[k]);
            }
        },
        StoreOp::RevokeAll { user_id, now } => {
            lemma_bulk_records_props(m.sessions, user_id, m.revoked);
            let bulk = spec_bulk_records(m.sessions, user_id, m.revoked);
            assert(forall|k: int|
                0 <= k < m.sessions.len() ==> (#[trigger] m2.sessions[k]) == mass_revoked(
                    m.sessions[k],
                    user_id,
                    now,
                ));
            assert forall|p: int, q: int| 0 <= p < q < m2.revoked.len() implies (
            #[trigger] m2.revoked[p]).token_id != (#[trigger] m2.revoked[q]).token_id by {
                lemma_ledger_contains_concat(m.revoked, bulk, m2.revoked[q].token_id);
                if p < m.revoked.len() {
                    assert(m2.revoked[p] == m.revoked[p]);
                    if q < m.revoked.len() {
                        assert(m2.revoked[q] == m.revoked[q]);
                    } else {
                        assert(m2.revoked[q] == bulk[q - m.revoked.len()]);
                        assert(!ledger_contains_seq(m.revoked, bulk[q - m.revoked.len()].token_id));
                        if m2.revoked[p].token_id == m2.revoked[q].token_id {
                            assert(ledger_contains_seq(m.revoked, m.revoked[p].token_id));
                        }
                    }
                } else {
                    assert(m2.revoked[p] == bulk[p - m.revoked.len()]);
                    assert(m2.revoked[q] == bulk[q - m.revoked.len()]);
                }
            }
        },
    }
}

/// Ledger entries are never removed by any step.
pub proof fn lemma_ledger_monotone(m: StoreModel, op: StoreOp, t: Id)
    requires
        m.ledger_contains(t),
    ensures
        apply_op(m, op).ledger_contains(t),
{
    let m2 = apply_op(m, op);
    let i = choose|i: int| 0 <= i < m.revoked.len() && m.revoked[i].token_id == t;
    assert(m2.revoked[i].token_id == t);
}

/// A retired refresh credential stays retired under every permitted
/// step: it remains ledgered and never again becomes current.
pub proof fn lemma_retired_stable(m: StoreModel, op: StoreOp, t: Id)
    requires
        m.wf(),
        op_permitted(m, op),
        m.retired(t),
    ensures
        apply_op(m, op).retired(t),
{
    let m2 = apply_op(m, op);
    lemma_ledger_monotone(m, op, t);
    assert forall|k: int| 0 <= k < m2.sessions.len() implies (
    #[trigger] m2.sessions[k]).refresh_token_id != Some(t) by {
        match op {
            StoreOp::Create { refresh_token_id, .. } => {
                if k < m.sessions.len() {
                    assert(m2.sessions[k] == m.sessions[k]);
                }
            },
            StoreOp::Touch { session_id, now } => {
                assert(m2.sessions[k].refresh_token_id == m.sessions[k].refresh_token_id);
            },
            StoreOp::Rotate { session_id, old_token, new_token, now } => {
                if m.rotate_matches(session_id, old_token) {
                    let i = m.session_idx(session_id);
                    if k != i {
                        assert(m2.sessions[k] == m.sessions[k]);
                    }
                } else {
                    assert(m2.sessions[k] == m.sessions[k]);
                }
            },
            StoreOp::SetRefresh { session_id, refresh_token_id, now } => {
                if m.has_session(session_id) {
                    let i = m.session_idx(session_id);
                    if k != i {
                        assert(m2.sessions[k] == m.sessions[k]);
                    }
                } else {
                    assert(m2.sessions[k] == m.sessions[k]);
                }
            },
            StoreOp::Revoke { session_id, now } => {
                assert(m2.sessions[k].refresh_token_id == m.sessions[k].refresh_token_id);
            },
            StoreOp::RevokeAll { user_id, now } => {
                assert(m2.sessions[k].refresh_token_id == m.sessions[k].refresh_token_id);
            },
        }
    }
}

/// Revocation is terminal: once a session's `revoked_at` is set, no
/// permitted step clears or changes it.
pub proof fn lemma_revocation_monotone(m: StoreModel, op: StoreOp, sid: Id)
    requires
        m.wf(),
        op_permitted(m, op),
        m.has_session(sid),
        m.session(sid).revoked_at is Some,
    ensures
        apply_op(m, op).has_session(sid),
        apply_op(m, op).session(sid).revoked_at == m.session(sid).revoked_at,
{
    let m2 = apply_op(m, op);
    let i = m.session_idx(sid);
    assert(0 <= i < m.sessions.len() && m.sessions[i].id == sid);
    lemma_wf_apply(m, op);
    match op {
        StoreOp::Create { .. } => {
            assert(m2.sessions[i] == m.sessions[i]);
            lemma_unique_idx(m2, i, sid);
        },
        StoreOp::Touch { session_id, now } => {
            assert(m2.sessions[i].id == sid && m2.sessions[i].revoked_at
                == m.sessions[i].revoked_at);
            lemma_unique_idx(m2, i, sid);
        },
        StoreOp::Rotate { session_id, old_token, new_token, now } => {
            assert(m2.sessions[i].id == sid && m2.sessions[i].revoked_at
                == m.sessions[i].revoked_at);
            lemma_unique_idx(m2, i, sid);
        },
        StoreOp::SetRefresh { session_id, refresh_token_id, now } => {
            assert(m2.sessions[i].id == sid && m2.sessions[i].revoked_at
                == m.sessions[i].revoked_at);
            lemma_unique_idx(m2, i, sid);
        },
        StoreOp::Revoke { session_id, now } => {
            assert(m2.sessions[i].id == sid && m2.sessions[i].revoked_at
                == m.sessions[i].revoked_at);
            lemma_unique_idx(m2, i, sid);
        },
        StoreOp::RevokeAll { user_id, now } => {
            assert(m2.sessions[i] == mass_revoked(m.sessions[i], user_id, now));
            assert(m2.sessions[i].id == sid && m2.sessions[i].revoked_at
                == m.sessions[i].revoked_at);
            lemma_unique_idx(m2, i, sid);
        },
    }
}

/// A successful rotation retires the old credential.
pub proof fn lemma_rotate_retires(
    m: StoreModel,
    session_id: Id,
    old_token: Id,
    new_token: Id,
    now: i64,
)
    requires
        m.wf(),
        !m.refresh_in_use(new_token),
        m.spec_rotate(session_id, old_token, new_token, now).1 is Ok,
    ensures
        m.spec_rotate(session_id, old_token, new_token, now).0.retired(old_token),
{
    let m2 = m.spec_rotate(session_id, old_token, new_token, now).0;
    let i = m.session_idx(session_id);
    assert(0 <= i < m.sessions.len() && m.sessions[i].id == session_id);
    assert(m.sessions[i].refresh_token_id == Some(old_token));
    assert(new_token != old_token);
    if !ledger_contains_seq(m.revoked, old_token) {
        assert(m2.revoked[m.revoked.len() as int].token_id == old_token);
    }
    assert(m2.ledger_contains(old_token));
    assert forall|k: int| 0 <= k < m2.sessions.len() implies (
    #[trigger] m2.sessions[k]).refresh_token_id != Some(old_token) by {
        if k != i {
            assert(m2.sessions[k] == m.sessions[k]);
            if m.sessions[k].refresh_token_id == Some(old_token) {
                if k < i {
                    assert(!(m.sessions[k].refresh_token_id is Some
                        && m.sessions[k].refresh_token_id == m.sessions[i].refresh_token_id));
                } else {
                    assert(!(m.sessions[i].refresh_token_id is Some
                        && m.sessions[i].refresh_token_id == m.sessions[k].refresh_token_id));
                }
            }
        }
    }
}

/// A rotation from a retired credential always fails with reuse detected
/// and changes nothing.
pub proof fn lemma_rotate_reuse_rejected(
    m: StoreModel,
    session_id: Id,
    old_token: Id,
    new_token: Id,
    now: i64,
)
    requires
        m.retired(old_token),
    ensures
        m.spec_rotate(session_id, old_token, new_token, now).1 == Err::<(), AuthSessionError>(
            AuthSessionError::TokenReuseDetected,
        ),
        m.spec_rotate(session_id, old_token, new_token, now).0 == m,
{
    if m.rotate_matches(session_id, old_token) {
        let i = m.session_idx(session_id);
        assert(0 <= i < m.sessions.len() && m.sessions[i].refresh_token_id == Some(old_token));
        assert(m.refresh_in_use(old_token));
    }
}

/// For any two rotation attempts from the same old credential, at most
/// the first succeeds; the second fails with reuse detected whatever
/// session it names, and leaves the state unchanged.
pub proof fn lemma_rotate_at_most_once(
    m: StoreModel,
    sid1: Id,
    old_token: Id,
    new1: Id,
    now1: i64,
    sid2: Id,
    new2: Id,
    now2: i64,
)
    requires
        m.wf(),
        !m.refresh_in_use(new1),
        m.spec_rotate(sid1, old_token, new1, now1).1 is Ok,
    ensures
        ({
            let m1 = m.spec_rotate(sid1, old_token, new1, now1).0;
            &&& m1.spec_rotate(sid2, old_token, new2, now2).1 == Err::<(), AuthSessionError>(
                AuthSessionError::TokenReuseDetected,
            )
            &&& m1.spec_rotate(sid2, old_token, new2, now2).0 == m1
        }),
{
    lemma_rotate_retires(m, sid1, old_token, new1, now1);
    let m1 = m.spec_rotate(sid1, old_token, new1, now1).0;
    lemma_rotate_reuse_rejected(m1, sid2, old_token, new2, now2);
}

/// Revoking is idempotent: a second revocation of the same session is
/// a no-op and keeps the first instant.
pub proof fn lemma_revoke_idempotent(m: StoreModel, session_id: Id, now1: i64, now2: i64)
    requires
        m.wf(),
        0 <= now1,
    ensures
        ({
            let m1 = m.spec_revoke(session_id, now1);
            m1.spec_revoke(session_id, now2) == m1
        }),
{
    let m1 = m.spec_revoke(session_id, now1);
    lemma_wf_apply(m, StoreOp::Revoke { session_id, now: now1 });
    if m.has_session(session_id) && m.session(session_id).revoked_at is None {
        let i = m.session_idx(session_id);
        assert(m1.sessions[i].id == session_id);
        lemma_unique_idx(m1, i, session_id);
        assert(m1.session(session_id).revoked_at is Some);
    }
}

/// The state after a sequence of steps, first step first.
pub open spec fn apply_ops(m: StoreModel, ops: Seq<StoreOp>) -> StoreModel
    decreases ops.len(),
{
    if ops.len() == 0 {
        m
    } else {
        apply_ops(apply_op(m, ops[0]), ops.drop_first())
    }
}

/// Whether each step of the sequence is permitted in the state it runs
/// in.
pub open spec fn ops_permitted(m: StoreModel, ops: Seq<StoreOp>) -> bool
    decreases ops.len(),
{
    if ops.len() == 0 {
        true
    } else {
        op_permitted(m, ops[0]) && ops_permitted(apply_op(m, ops[0]), ops.drop_first())
    }
}

/// A retired credential stays retired across any sequence of permitted
/// steps, and well-formedness is kept.
pub proof fn lemma_retired_stable_ops(m: StoreModel, ops: Seq<StoreOp>, t: Id)
    requires
        m.wf(),
        ops_permitted(m, ops),
        m.retired(t),
    ensures
        apply_ops(m, ops).retired(t),
        apply_ops(m, ops).wf(),
    decreases ops.len(),
{
    if ops.len() > 0 {
        lemma_wf_apply(m, ops[0]);
        lemma_retired_stable(m, ops[0], t);
        lemma_retired_stable_ops(apply_op(m, ops[0]), ops.drop_first(), t);
    }
}

/// The at-most-once law in full: once a rotation from `old_token`
/// succeeded, no later rotation attempt from the same `old_token`
/// succeeds, whatever permitted steps interleave and whatever session
/// the attempt names.
pub proof fn lemma_rotate_never_again(
    m: StoreModel,
    sid1: Id,
    old_token: Id,
    new1: Id,
    now1: i64,
    ops: Seq<StoreOp>,
    sid2: Id,
    new2: Id,
    now2: i64,
)
    requires
        m.wf(),
        !m.refresh_in_use(new1),
        !m.ledger_contains(new1),
        0 <= now1,
        m.spec_rotate(sid1, old_token, new1, now1).1 is Ok,
        ops_permitted(m.spec_rotate(sid1, old_token, new1, now1).0, ops),
    ensures
        ({
            let later = apply_ops(m.spec_rotate(sid1, old_token, new1, now1).0, ops);
            &&& later.spec_rotate(sid2, old_token, new2, now2).1 == Err::<(), AuthSessionError>(
                AuthSessionError::TokenReuseDetected,
            )
            &&& later.spec_rotate(sid2, old_token, new2, now2).0 == later
        }),
{
    let m1 = m.spec_rotate(sid1, old_token, new1, now1).0;
    lemma_rotate_retires(m, sid1, old_token, new1, now1);
    lemma_wf_apply(
        m,
        StoreOp::Rotate { session_id: sid1, old_token, new_token: new1, now: now1 },
    );
    lemma_retired_stable_ops(m1, ops, old_token);
    lemma_rotate_reuse_rejected(apply_ops(m1, ops), sid2, old_token, new2, now2);
}

/// A touch that wrote coalesces: a second touch within the window is no
/// write at all.
pub proof fn lemma_touch_coalesced(m: StoreModel, session_id: Id, now1: i64, now2: i64)
    requires
        m.wf(),
        0 <= now1,
        m.has_session(session_id),
        touch_due(m.session(session_id), now1),
        now1 <= now2 <= now1 + TOUCH_COALESCE_SECS,
    ensures
        ({
            let m1 = m.spec_touch(session_id, now1);
            m1.spec_touch(session_id, now2) == m1
        }),
{
    let m1 = m.spec_touch(session_id, now1);
    let i = m.session_idx(session_id);
    lemma_wf_apply(m, StoreOp::Touch { session_id, now: now1 });
    assert(m1.sessions[i].id == session_id);
    lemma_unique_idx(m1, i, session_id);
    assert(m1.session(session_id).last_used_at == Some(now1));
    assert(!touch_due(m1.session(session_id), now2));
}

/// A touch after the window moves `last_used_at` strictly forward.
pub proof fn lemma_touch_after_window(m: StoreModel, session_id: Id, now1: i64, now2: i64)
    requires
        m.wf(),
        0 <= now1,
        m.has_session(session_id),
        touch_due(m.session(session_id), now1),
        now1 + TOUCH_COALESCE_SECS < now2,
    ensures
        ({
            let m1 = m.spec_touch(session_id, now1);
            let m2 = m1.spec_touch(session_id, now2);
            &&& m1.session(session_id).last_used_at == Some(now1)
            &&& m2.session(session_id).last_used_at == Some(now2)
            &&& now1 < now2
        }),
{
    let m1 = m.spec_touch(session_id, now1);
    let i = m.session_idx(session_id);
    lemma_wf_apply(m, StoreOp::Touch { session_id, now: now1 });
    assert(m1.sessions[i].id == session_id);
    lemma_unique_idx(m1, i, session_id);
    assert(m1.session(session_id).last_used_at == Some(now1));
    assert(touch_due(m1.session(session_id), now2));
    let m2 = m1.spec_touch(session_id, now2);
    lemma_wf_apply(m1, StoreOp::Touch { session_id, now: now2 });
    assert(m2.sessions[i].id == session_id);
    lemma_unique_idx(m2, i, session_id);
}

} // verus!
