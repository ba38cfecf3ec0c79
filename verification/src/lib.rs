//! A credential-and-session engine: users with salted password hashes,
//! collision-checked session tokens with a fixed seven-day expiry, and flat
//! (site, permission) grants, all held in one in-memory store whose
//! consistency invariants are machine-checked.
use vstd::prelude::*;

pub mod error;
pub mod password;
pub mod session;
pub mod user;

pub use error::Error;
pub use session::VerifySession;

verus! {

/// Milliseconds in the fixed session lifetime of seven days.
pub const SESSION_LIFETIME_MILLIS: i64 = 7 * 24 * 60 * 60 * 1000;

/// Client metadata captured once when a session is created and never updated.
#[derive(Debug, Clone, Default, PartialEq, Eq)]
pub struct TrackInformation {
    pub device: Option<String>,
    pub user_agent: Option<String>,
    pub ip_address: Option<String>,
    pub location: Option<String>,
    pub os: Option<String>,
    pub browser: Option<String>,
    pub screen_resolution: Option<String>,
    pub timezone: Option<String>,
}

/// A grant entry as surfaced to callers: the user is implied by context.
#[derive(Debug, Clone, PartialEq, Eq)]
pub struct Permission {
    pub site: String,
    pub permission: String,
}

/// A user as surfaced to callers, always with its full set of grants.
#[derive(Debug, Clone, PartialEq, Eq)]
pub struct User {
    pub id: i64,
    pub username: String,
    pub permissions: Vec<Permission>,
}

/// An authenticated session as surfaced to callers. Timestamps are
/// milliseconds since the Unix epoch.
#[derive(Debug, Clone, PartialEq, Eq)]
pub struct Session {
    pub user: User,
    pub session_token: String,
    pub expiry_date: i64,
    pub created_at: i64,
    pub track: TrackInformation,
}

/// A login request: credentials plus the client metadata to snapshot.
#[derive(Debug)]
pub struct SessionCreate {
    pub username: String,
    pub password: String,
    pub device: Option<String>,
    pub user_agent: Option<String>,
    pub ip_address: Option<String>,
    pub location: Option<String>,
    pub os: Option<String>,
    pub browser: Option<String>,
    pub screen_resolution: Option<String>,
    pub timezone: Option<String>,
}

/// A verification request: just the token.
#[derive(Debug)]
pub struct SessionVerify {
    pub session_token: String,
}

/// The outcome shape handed to transport layers; login failures are
/// collapsed into one undifferentiated variant so that usernames cannot be
/// enumerated.
#[derive(Debug, Clone, PartialEq, Eq)]
pub enum Response {
    UserOrPasswordIncorrect,
    SessionCreated(Session),
    SessionVerified(Session),
    SessionNotFound,
    SessionExpired,
    Error(String),
}

/// A stored user row: the credential record.
#[derive(Debug, Clone)]
pub struct UserRow {
    pub id: i64,
    pub username: String,
    pub password_hash: String,
    pub password_salt: String,
    pub password_method: String,
    pub email: Option<String>,
}

/// A stored grant row; at most one row per (user, site, permission) triple.
#[derive(Debug, Clone)]
pub struct PermissionRow {
    pub user_id: i64,
    pub site: String,
    pub permission: String,
}

/// A stored session row. `last_used_at` is touched on each successful
/// verification; the other fields are fixed at creation.
#[derive(Debug, Clone)]
pub struct SessionRow {
    pub user_id: i64,
    pub session_token: String,
    pub expiry_date: i64,
    pub created_at: i64,
    pub last_used_at: i64,
    pub track: TrackInformation,
}

/// The store: three row sets and the id counter, with uniqueness and
/// referential-integrity invariants (`wf`) that every operation preserves.
pub struct Database {
    pub next_user_id: i64,
    pub users: Vec<UserRow>,
    pub permissions: Vec<PermissionRow>,
    pub sessions: Vec<SessionRow>,
}

/// Whether two grant rows carry the same (user, site, permission) triple.
pub open spec fn same_grant(a: PermissionRow, b: PermissionRow) -> bool {
    a.user_id == b.user_id && a.site@ == b.site@ && a.permission@ == b.permission@
}

/// Whether a grant row carries exactly the given triple.
pub open spec fn grant_is(p: PermissionRow, user_id: i64, site: Seq<char>, permission: Seq<char>) -> bool {
    p.user_id == user_id && p.site@ == site && p.permission@ == permission
}

impl Database {
    /// Some user row carries this id.
    pub open spec fn has_user_id(self, id: i64) -> bool {
        exists|i: int| 0 <= i < self.users@.len() && (#[trigger] self.users@[i]).id == id
    }

    /// Some user row carries this username.
    pub open spec fn has_username(self, name: Seq<char>) -> bool {
        exists|i: int| 0 <= i < self.users@.len() && (#[trigger] self.users@[i]).username@ == name
    }

    /// The index of the user row with this id (unique under `wf`).
    pub open spec fn user_idx_by_id(self, id: i64) -> int {
        choose|i: int| 0 <= i < self.users@.len() && (#[trigger] self.users@[i]).id == id
    }

    /// The index of the user row with this username (unique under `wf`).
    pub open spec fn user_idx_by_name(self, name: Seq<char>) -> int {
        choose|i: int| 0 <= i < self.users@.len() && (#[trigger] self.users@[i]).username@ == name
    }

    /// Some session row carries this token.
    pub open spec fn has_token(self, token: Seq<char>) -> bool {
        exists|i: int| 0 <= i < self.sessions@.len() && (#[trigger] self.sessions@[i]).session_token@ == token
    }

    /// The index of the session row with this token (unique under `wf`).
    pub open spec fn session_idx(self, token: Seq<char>) -> int {
        choose|i: int| 0 <= i < self.sessions@.len() && (#[trigger] self.sessions@[i]).session_token@ == token
    }

    /// Some grant row carries exactly this triple.
    pub open spec fn spec_has_grant(self, user_id: i64, site: Seq<char>, permission: Seq<char>) -> bool {
        exists|i: int| 0 <= i < self.permissions@.len() && grant_is(#[trigger] self.permissions@[i], user_id, site, permission)
    }

    /// The grant rows of one user, in insertion order.
    pub open spec fn grants_of(self, user_id: i64) -> Seq<PermissionRow> {
        self.permissions@.filter(|p: PermissionRow| p.user_id == user_id)
    }

    /// The `Permission` values that accessors surface for one user.
    pub open spec fn spec_user_perms(self, user_id: i64) -> Seq<Permission> {
        self.grants_of(user_id).map_values(|p: PermissionRow| Permission { site: p.site, permission: p.permission })
    }

    /// `u` is the fully hydrated view of the user row at `idx`.
    pub open spec fn is_user_view(self, idx: int, u: User) -> bool {
        &&& u.id == self.users@[idx].id
        &&& u.username == self.users@[idx].username
        &&& u.permissions@ == self.spec_user_perms(self.users@[idx].id)
    }

    /// `s` is the fully hydrated view of the session row at `idx`: the row's
    /// own fields plus the composed owning user.
    pub open spec fn is_session_view(self, idx: int, s: Session) -> bool {
        &&& s.session_token == self.sessions@[idx].session_token
        &&& s.expiry_date == self.sessions@[idx].expiry_date
        &&& s.created_at == self.sessions@[idx].created_at
        &&& s.track == self.sessions@[idx].track
        &&& s.user.id == self.sessions@[idx].user_id
        &&& exists|k: int| 0 <= k < self.users@.len()
            && (#[trigger] self.users@[k]).id == self.sessions@[idx].user_id
            && self.is_user_view(k, s.user)
    }

    /// The store's invariants: ids and usernames unique, ids below the
    /// counter, tokens unique, grant triples unique, and no session or grant
    /// row referencing a missing user.
    pub open spec fn wf(self) -> bool {
        &&& 1 <= self.next_user_id
        &&& forall|i: int, j: int| 0 <= i < j < self.users@.len()
            ==> (#[trigger] self.users@[i]).id != (#[trigger] self.users@[j]).id
        &&& forall|i: int, j: int| 0 <= i < j < self.users@.len()
            ==> (#[trigger] self.users@[i]).username@ != (#[trigger] self.users@[j]).username@
        &&& forall|i: int| 0 <= i < self.users@.len()
            ==> 1 <= (#[trigger] self.users@[i]).id < self.next_user_id
        &&& forall|i: int, j: int| 0 <= i < j < self.sessions@.len()
            ==> (#[trigger] self.sessions@[i]).session_token@ != (#[trigger] self.sessions@[j]).session_token@
        &&& forall|i: int| 0 <= i < self.sessions@.len()
            ==> self.has_user_id((#[trigger] self.sessions@[i]).user_id)
        &&& forall|i: int| 0 <= i < self.permissions@.len()
            ==> self.has_user_id((#[trigger] self.permissions@[i]).user_id)
        &&& forall|i: int, j: int| 0 <= i < j < self.permissions@.len()
            ==> !same_grant(#[trigger] self.permissions@[i], #[trigger] self.permissions@[j])
    }

    /// Open an empty store.
    pub fn new() -> (db: Database)
        ensures
            db.wf(),
            db.users@.len() == 0,
            db.permissions@.len() == 0,
            db.sessions@.len() == 0,
            db.next_user_id == 1,
    {
        Database {
            next_user_id: 1,
            users: Vec::new(),
            permissions: Vec::new(),
            sessions: Vec::new(),
        }
    }
}

impl User {
    /// The user holds a grant for exactly this (site, permission) pair.
    pub open spec fn spec_has_permission(self, site: Seq<char>, permission: Seq<char>) -> bool {
        exists|i: int| 0 <= i < self.permissions@.len()
            && (#[trigger] self.permissions@[i]).site@ == site
            && self.permissions@[i].permission@ == permission
    }

    /// Whether this user holds the given grant; the point-read predicate that
    /// callers use to gate access.
    pub fn has_permission(&self, site: &str, permission: &str) -> (r: bool)
        ensures
            r == self.spec_has_permission(site@, permission@),
    {
        let mut i: usize = 0;
        while i < self.permissions.len()
            invariant
                i <= self.permissions@.len(),
                forall|k: int| 0 <= k < i ==> !((#[trigger] self.permissions@[k]).site@ == site@
                    && self.permissions@[k].permission@ == permission@),
            decreases self.permissions@.len() - i,
        {
            let p = &self.permissions[i];
            if str_eq(p.site.as_str(), site) && str_eq(p.permission.as_str(), permission) {
                return true;
            }
            i = i + 1;
        }
        false
    }
}

impl Database {
    /// Under `wf`, looking a row's own username up yields that row's index.
    pub proof fn lemma_user_idx_by_name(self, i: int)
        requires
            self.wf(),
            0 <= i < self.users@.len(),
        ensures
            self.has_username(self.users@[i].username@),
            self.user_idx_by_name(self.users@[i].username@) == i,
    {
        let name = self.users@[i].username@;
        assert(self.has_username(name));
        let j = self.user_idx_by_name(name);
        assert(0 <= j < self.users@.len() && self.users@[j].username@ == name);
        if i < j {
            assert(self.users@[i].username@ != self.users@[j].username@);
        } else if j < i {
            assert(self.users@[j].username@ != self.users@[i].username@);
        }
    }

    /// Under `wf`, looking a row's own id up yields that row's index.
    pub proof fn lemma_user_idx_by_id(self, i: int)
        requires
            self.wf(),
            0 <= i < self.users@.len(),
        ensures
            self.has_user_id(self.users@[i].id),
            self.user_idx_by_id(self.users@[i].id) == i,
    {
        let id = self.users@[i].id;
        assert(self.has_user_id(id));
        let j = self.user_idx_by_id(id);
        assert(0 <= j < self.users@.len() && self.users@[j].id == id);
        if i < j {
            assert(self.users@[i].id != self.users@[j].id);
        } else if j < i {
            assert(self.users@[j].id != self.users@[i].id);
        }
    }

    /// Under `wf`, looking a session row's own token up yields that row's
    /// index.
    pub proof fn lemma_session_idx(self, i: int)
        requires
            self.wf(),
            0 <= i < self.sessions@.len(),
        ensures
            self.has_token(self.sessions@[i].session_token@),
            self.session_idx(self.sessions@[i].session_token@) == i,
    {
        let token = self.sessions@[i].session_token@;
        assert(self.has_token(token));
        let j = self.session_idx(token);
        assert(0 <= j < self.sessions@.len() && self.sessions@[j].session_token@ == token);
        if i < j {
            assert(self.sessions@[i].session_token@ != self.sessions@[j].session_token@);
        } else if j < i {
            assert(self.sessions@[j].session_token@ != self.sessions@[i].session_token@);
        }
    }
}

/// One step of filtering a prefix: taking one more element either appends it
/// to the filtered prefix or leaves the filtered prefix as it was.
pub proof fn lemma_filter_take_step<A>(s: Seq<A>, pred: spec_fn(A) -> bool, i: int)
    requires
        0 <= i < s.len(),
    ensures
        pred(s[i]) ==> s.take(i + 1).filter(pred) == s.take(i).filter(pred).push(s[i]),
        !pred(s[i]) ==> s.take(i + 1).filter(pred) == s.take(i).filter(pred),
{
    reveal(Seq::filter);
    assert(s.take(i + 1).drop_last() =~= s.take(i));
    assert(s.take(i + 1).last() == s[i]);
    assert(s.take(i + 1).len() == i + 1);
}

/// Filtering the whole sequence is filtering the prefix of its full length.
pub proof fn lemma_filter_take_all<A>(s: Seq<A>, pred: spec_fn(A) -> bool)
    ensures
        s.take(s.len() as int).filter(pred) == s.filter(pred),
{
    assert(s.take(s.len() as int) =~= s);
}

/// Filtering keeps any pairwise-distinctness property: if no two elements of
/// `s` (in order) are related by `r`, no two elements of the filtered
/// sequence are either.
pub proof fn lemma_filter_preserves_pairwise<A>(s: Seq<A>, pred: spec_fn(A) -> bool, r: spec_fn(A, A) -> bool)
    requires
        forall|i: int, j: int| 0 <= i < j < s.len() ==> !r(#[trigger] s[i], #[trigger] s[j]),
    ensures
        forall|i: int, j: int| 0 <= i < j < s.filter(pred).len()
            ==> !r(#[trigger] s.filter(pred)[i], #[trigger] s.filter(pred)[j]),
    decreases s.len(),
{
    reveal(Seq::filter);
    if s.len() > 0 {
        let rest = s.drop_last();
        let f = s.filter(pred);
        let fr = rest.filter(pred);
        lemma_filter_preserves_pairwise(rest, pred, r);
        if pred(s.last()) {
            assert(f == fr.push(s.last()));
            assert forall|i: int, j: int| 0 <= i < j < f.len() implies !r(#[trigger] f[i], #[trigger] f[j]) by {
                if j < f.len() - 1 {
                    assert(f[i] == fr[i] && f[j] == fr[j]);
                } else {
                    assert(f[j] == s.last());
                    assert(fr.contains(fr[i]));
                    rest.lemma_filter_contains_rev(pred, fr[i]);
                    let k = choose|k: int| 0 <= k < rest.len() && rest[k] == fr[i];
                    assert(s[k] == fr[i] && s[s.len() - 1] == s.last());
                    assert(!r(s[k], s[s.len() - 1]));
                }
            }
        } else {
            assert(f == fr);
        }
    }
}

/// Relies on str's `PartialEq`: two string slices compare equal exactly when
/// their character sequences are equal.
#[verifier::external_body]
pub(crate) fn str_eq(a: &str, b: &str) -> (r: bool)
    ensures
        r == (a@ == b@),
{
    a == b
}

/// Copy an optional string; `String::clone` keeps the value.
pub(crate) fn clone_opt_string(o: &Option<String>) -> (r: Option<String>)
    ensures
        r == *o,
{
    match o {
        Some(s) => Some(s.clone()),
        None => None,
    }
}

/// Copy a metadata snapshot field by field, keeping the value.
pub(crate) fn clone_track(t: &TrackInformation) -> (r: TrackInformation)
    ensures
        r == *t,
{
    TrackInformation {
        device: clone_opt_string(&t.device),
        user_agent: clone_opt_string(&t.user_agent),
        ip_address: clone_opt_string(&t.ip_address),
        location: clone_opt_string(&t.location),
        os: clone_opt_string(&t.os),
        browser: clone_opt_string(&t.browser),
        screen_resolution: clone_opt_string(&t.screen_resolution),
        timezone: clone_opt_string(&t.timezone),
    }
}

} // verus!
