//! The user directory: identity records and linked OAuth provider
//! accounts, read during request resolution and by the auth-status
//! answer.  Accounts are kept ascending by provider name, the order in
//! which answers list them.

use vstd::prelude::*;

use crate::ids::Id;
use crate::records::{IdentityError, OAuthProviderData, User};

verus! {

/// One provider account linked to a user.
#[derive(Clone, Debug, PartialEq)]
pub struct OAuthAccount {
    pub user_id: Id,
    pub data: OAuthProviderData,
}

/// The mathematical value of an [`OAuthProviderData`] record.
pub struct ProviderDataView {
    pub provider: Seq<char>,
    pub username: Option<Seq<char>>,
    pub display_name: Option<Seq<char>>,
    pub email: Option<Seq<char>>,
    pub avatar_url: Option<Seq<char>>,
}

/// The value of an optional string.
pub open spec fn opt_str_view(o: Option<String>) -> Option<Seq<char>> {
    match o {
        Some(s) => Some(s@),
        None => None,
    }
}

impl View for OAuthProviderData {
    type V = ProviderDataView;

    open spec fn view(&self) -> ProviderDataView {
        ProviderDataView {
            provider: self.provider@,
            username: opt_str_view(self.username),
            display_name: opt_str_view(self.display_name),
            email: opt_str_view(self.email),
            avatar_url: opt_str_view(self.avatar_url),
        }
    }
}

/// The mathematical state of the directory.
pub struct DirectoryModel {
    pub users: Seq<User>,
    pub accounts: Seq<OAuthAccount>,
}

/// The durable store of user records and provider accounts.  This
/// subsystem only reads it.
pub struct UserDirectory {
    pub users: Vec<User>,
    pub accounts: Vec<OAuthAccount>,
}

impl View for UserDirectory {
    type V = DirectoryModel;

    open spec fn view(&self) -> DirectoryModel {
        DirectoryModel { users: self.users@, accounts: self.accounts@ }
    }
}

/// Lexicographic order on strings, by character code.
pub open spec fn str_le(a: Seq<char>, b: Seq<char>) -> bool
    decreases a.len(),
{
    if a.len() == 0 {
        true
    } else if b.len() == 0 {
        false
    } else if a[0] != b[0] {
        a[0] < b[0]
    } else {
        str_le(a.drop_first(), b.drop_first())
    }
}

/// Whether the accounts stand in ascending provider-name order.
pub open spec fn accounts_sorted(accs: Seq<OAuthAccount>) -> bool {
    forall|i: int, j: int|
        0 <= i < j < accs.len() ==> str_le(
            (#[trigger] accs[i]).data.provider@,
            (#[trigger] accs[j]).data.provider@,
        )
}

impl DirectoryModel {
    /// Directory well-formedness: user identifiers are unique, and the
    /// accounts are kept ascending by provider name.
    pub open spec fn wf(self) -> bool {
        &&& forall|i: int, j: int|
            0 <= i < j < self.users.len() ==> (#[trigger] self.users[i]).id != (
            #[trigger] self.users[j]).id
        &&& accounts_sorted(self.accounts)
    }
}

/// The provider accounts of a user, keeping the directory's order.
pub open spec fn spec_accounts_for(accs: Seq<OAuthAccount>, user_id: Id) -> Seq<OAuthAccount>
    decreases accs.len(),
{
    if accs.len() == 0 {
        Seq::empty()
    } else {
        spec_accounts_for(accs.drop_last(), user_id) + if accs.last().user_id == user_id {
            seq![accs.last()]
        } else {
            Seq::empty()
        }
    }
}

/// Selecting a user's accounts keeps the ascending provider order, and
/// each selected account stands somewhere in the directory.
pub proof fn lemma_accounts_for_sorted(accs: Seq<OAuthAccount>, user_id: Id)
    requires
        accounts_sorted(accs),
    ensures
        ({
            let flt = spec_accounts_for(accs, user_id);
            &&& forall|p: int|
                0 <= p < flt.len() ==> exists|k: int|
                    0 <= k < accs.len() && accs[k] == (#[trigger] flt[p])
            &&& accounts_sorted(flt)
        }),
    decreases accs.len(),
{
    if accs.len() > 0 {
        let head = accs.drop_last();
        assert(forall|k: int| 0 <= k < head.len() ==> head[k] == accs[k]);
        assert(accounts_sorted(head));
        lemma_accounts_for_sorted(head, user_id);
        let flt0 = spec_accounts_for(head, user_id);
        let flt = spec_accounts_for(accs, user_id);
        if accs.last().user_id == user_id {
            assert(flt.len() == flt0.len() + 1);
            assert(flt[flt0.len() as int] == accs[accs.len() - 1]);
            assert forall|p: int| 0 <= p < flt.len() implies exists|k: int|
                0 <= k < accs.len() && accs[k] == (#[trigger] flt[p]) by {
                if p < flt0.len() {
                    let k = choose|k: int| 0 <= k < head.len() && head[k] == flt0[p];
                    assert(accs[k] == flt[p]);
                } else {
                    assert(accs[accs.len() - 1] == flt[p]);
                }
            }
            assert forall|p: int, q: int| 0 <= p < q < flt.len() implies str_le(
                (#[trigger] flt[p]).data.provider@,
                (#[trigger] flt[q]).data.provider@,
            ) by {
                if q < flt0.len() {
                    assert(flt[p] == flt0[p] && flt[q] == flt0[q]);
                } else {
                    assert(flt[p] == flt0[p]);
                    let k = choose|k: int| 0 <= k < head.len() && head[k] == flt0[p];
                    assert(str_le(accs[k].data.provider@, accs[accs.len() - 1].data.provider@));
                }
            }
        } else {
            assert(flt =~= flt0);
            assert forall|p: int| 0 <= p < flt.len() implies exists|k: int|
                0 <= k < accs.len() && accs[k] == (#[trigger] flt[p]) by {
                let k = choose|k: int| 0 <= k < head.len() && head[k] == flt0[p];
                assert(accs[k] == flt[p]);
            }
        }
    }
}

/// Copies a string option, preserving its value.
pub fn clone_opt_string(o: &Option<String>) -> (r: Option<String>)
    ensures
        opt_str_view(r) == opt_str_view(*o),
{
    match o {
        Some(s) => Some(s.clone()),
        None => None,
    }
}

/// Copies a user record, preserving its value.
pub fn clone_user(u: &User) -> (r: User)
    ensures
        r@ == u@,
{
    User { id: u.id, username: clone_opt_string(&u.username), email: u.email.clone() }
}

/// Copies a provider-account record, preserving its value.
pub fn clone_provider_data(d: &OAuthProviderData) -> (r: OAuthProviderData)
    ensures
        r@ == d@,
{
    OAuthProviderData {
        provider: d.provider.clone(),
        username: clone_opt_string(&d.username),
        display_name: clone_opt_string(&d.display_name),
        email: clone_opt_string(&d.email),
        avatar_url: clone_opt_string(&d.avatar_url),
    }
}

impl UserDirectory {
    /// An empty directory.
    pub fn new() -> (r: UserDirectory)
        ensures
            r@.users == Seq::<User>::empty(),
            r@.accounts == Seq::<OAuthAccount>::empty(),
            r@.wf(),
    {
        UserDirectory { users: Vec::new(), accounts: Vec::new() }
    }

    /// Whether some user in the sequence has the identifier.
    pub open spec fn seq_has_user(users: Seq<User>, user_id: Id) -> bool {
        exists|i: int| 0 <= i < users.len() && users[i].id == user_id
    }

    /// The user with the identifier; meaningful under
    /// [`Self::seq_has_user`] and directory well-formedness.
    pub open spec fn seq_user(users: Seq<User>, user_id: Id) -> User {
        users[choose|i: int| 0 <= i < users.len() && users[i].id == user_id]
    }

    /// Point lookup of a user record by id.
    pub fn fetch_user(&self, user_id: Id) -> (r: Result<User, IdentityError>)
        requires
            self@.wf(),
        ensures
            match r {
                Ok(u) => Self::seq_has_user(self@.users, user_id) && u@ == Self::seq_user(
                    self@.users,
                    user_id,
                )@,
                Err(e) => !Self::seq_has_user(self@.users, user_id) && e
                    == IdentityError::NotFound,
            },
    {
        let n = self.users.len();
        let mut i: usize = 0;
        while i < n
            invariant
                self@.wf(),
                n == self@.users.len(),
                i <= n,
                forall|k: int| 0 <= k < i ==> (#[trigger] self@.users[k]).id != user_id,
            decreases n - i,
        {
            if self.users[i].id == user_id {
                proof {
                    let j = choose|j: int|
                        0 <= j < self@.users.len() && self@.users[j].id == user_id;
                    if j != i {
                        assert(self@.users[j].id != self@.users[i as int].id);
                    }
                }
                return Ok(clone_user(&self.users[i]));
            }
            i = i + 1;
        }
        Err(IdentityError::NotFound)
    }

    /// The provider data of every account of the user, ascending by
    /// provider name.
    pub fn accounts_for_user(&self, user_id: Id) -> (r: Vec<OAuthProviderData>)
        requires
            self@.wf(),
        ensures
            ({
                let flt = spec_accounts_for(self@.accounts, user_id);
                &&& r@.len() == flt.len()
                &&& forall|i: int| 0 <= i < flt.len() ==> (#[trigger] r@[i])@ == flt[i].data@
                &&& forall|i: int, j: int|
                    0 <= i < j < r@.len() ==> str_le(
                        (#[trigger] r@[i])@.provider,
                        (#[trigger] r@[j])@.provider,
                    )
            }),
    {
        let ghost accs = self@.accounts;
        let mut out: Vec<OAuthProviderData> = Vec::new();
        let n = self.accounts.len();
        let mut i: usize = 0;
        while i < n
            invariant
                n == self@.accounts.len(),
                accs == self@.accounts,
                i <= n,
                out@.len() == spec_accounts_for(accs.take(i as int), user_id).len(),
                forall|k: int|
                    0 <= k < out@.len() ==> (#[trigger] out@[k])@ == spec_accounts_for(
                        accs.take(i as int),
                        user_id,
                    )[k].data@,
            decreases n - i,
        {
            if self.accounts[i].user_id == user_id {
                out.push(clone_provider_data(&self.accounts[i].data));
            }
            i = i + 1;
            proof {
                assert(accs.take(i as int).drop_last() =~= accs.take(i as int - 1));
                assert(accs.take(i as int).last() == accs[i as int - 1]);
            }
        }
        proof {
            assert(accs.take(n as int) =~= accs);
            lemma_accounts_for_sorted(accs, user_id);
        }
        out
    }
}

} // verus!
