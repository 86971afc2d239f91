//! The data model: sessions, the revoked-refresh-credential ledger, user
//! records, and the error taxonomy.
//!
//! All instants are seconds since the Unix epoch, held as non-negative
//! `i64` values.

use vstd::prelude::*;

use crate::ids::Id;

verus! {

/// Longest allowed inactivity of a session, in seconds (365 days).
pub const MAX_SESSION_INACTIVITY_SECS: i64 = 365 * 24 * 60 * 60;

/// Coalescing window of the liveness touch, in seconds (1 hour).
pub const TOUCH_COALESCE_SECS: i64 = 60 * 60;

/// One authenticated login lineage.
///
/// `last_used_at` is `None` until the first liveness touch; `revoked_at`
/// is `None` while the session is active, and once set is never cleared.
#[derive(Clone, Copy, Debug, PartialEq)]
pub struct AuthSession {
    pub id: Id,
    pub user_id: Id,
    pub created_at: i64,
    pub last_used_at: Option<i64>,
    pub revoked_at: Option<i64>,
    pub refresh_token_id: Option<Id>,
    pub refresh_token_issued_at: Option<i64>,
}

impl AuthSession {
    /// All instants of the record are non-negative epoch seconds.
    pub open spec fn wf(self) -> bool {
        &&& 0 <= self.created_at
        &&& (self.last_used_at matches Some(t) ==> 0 <= t)
        &&& (self.revoked_at matches Some(t) ==> 0 <= t)
        &&& (self.refresh_token_issued_at matches Some(t) ==> 0 <= t)
    }

    /// The last liveness instant: `last_used_at` when present, else the
    /// creation instant.
    pub open spec fn spec_last_activity_at(self) -> i64 {
        match self.last_used_at {
            Some(t) => t,
            None => self.created_at,
        }
    }

    pub fn last_activity_at(&self) -> (r: i64)
        ensures
            r == self.spec_last_activity_at(),
    {
        match self.last_used_at {
            Some(t) => t,
            None => self.created_at,
        }
    }

    /// Seconds since the last liveness instant, seen from `now`.
    pub open spec fn spec_inactivity_duration(self, now: i64) -> int {
        now - self.spec_last_activity_at()
    }

    pub fn inactivity_duration(&self, now: i64) -> (r: i64)
        requires
            self.wf(),
            0 <= now,
        ensures
            r == self.spec_inactivity_duration(now),
    {
        now - self.last_activity_at()
    }

    /// Whether the session has outlived the inactivity policy at `now`.
    pub open spec fn inactivity_expired(self, now: i64) -> bool {
        self.spec_inactivity_duration(now) > MAX_SESSION_INACTIVITY_SECS
    }
}

/// Why a refresh credential entered the revocation ledger.
#[derive(Clone, Copy, Debug, PartialEq, Eq, Structural)]
pub enum RevokeReason {
    /// A rotation replaced the credential with its successor.
    RotationSuperseded,
    /// The credential was retired in bulk when its owner's sessions were
    /// revoked together.
    ReuseOfRevokedToken,
}

/// Append-only ledger entry: a refresh credential that is no longer
/// acceptable for rotation.
#[derive(Clone, Copy, Debug, PartialEq)]
pub struct RevokedRefreshRecord {
    pub token_id: Id,
    pub user_id: Id,
    pub reason: RevokeReason,
}

/// An identity record, read (never written) by this subsystem.
#[derive(Clone, Debug, PartialEq)]
pub struct User {
    pub id: Id,
    pub username: Option<String>,
    pub email: String,
}

/// The mathematical value of a [`User`] record.
pub struct UserView {
    pub id: Id,
    pub username: Option<Seq<char>>,
    pub email: Seq<char>,
}

impl View for User {
    type V = UserView;

    open spec fn view(&self) -> UserView {
        UserView {
            id: self.id,
            username: match self.username {
                Some(ref s) => Some(s@),
                None => None,
            },
            email: self.email@,
        }
    }
}

/// OAuth provider data embedded in an auth-status answer.
#[derive(Clone, Debug, PartialEq)]
pub struct OAuthProviderData {
    pub provider: String,
    pub username: Option<String>,
    pub display_name: Option<String>,
    pub email: Option<String>,
    pub avatar_url: Option<String>,
}

/// Combined auth-status data: session, user and provider accounts.
#[derive(Clone, Debug, PartialEq)]
pub struct AuthStatusData {
    pub session_id: Id,
    pub session_revoked_at: Option<i64>,
    pub user_id: Id,
    pub email: String,
    pub username: Option<String>,
    pub providers: Vec<OAuthProviderData>,
}

/// Failures of session-ledger operations.
///
/// `Database` stands for a transient durable-store fault; it is carried in
/// the taxonomy so that callers collapse it to a server error, never to an
/// authentication failure.
#[derive(Clone, Copy, Debug, PartialEq, Eq, Structural)]
pub enum AuthSessionError {
    NotFound,
    TokenReuseDetected,
    TokenRevoked,
    TokenExpired,
    InvalidToken,
    Database,
}

/// Failures of user-directory lookups.
#[derive(Clone, Copy, Debug, PartialEq, Eq, Structural)]
pub enum IdentityError {
    NotFound,
    Database,
}

} // verus!
