//! Session issuance, verification, deletion and the expiry sweep, plus the
//! facade that transport layers call.
//!
//! Timestamps are injected: every operation that consults the clock exists
//! in a `.._at` form taking the current time in milliseconds, and the plain
//! form reads the wall clock and delegates to it.
use vstd::prelude::*;

use crate::error::Error;
use crate::user::clone_session_row;
use crate::{
    clone_track, lemma_filter_preserves_pairwise, lemma_filter_take_all, lemma_filter_take_step,
    str_eq, Database, Response, Session, SessionCreate, SessionRow, SessionVerify,
    TrackInformation, User, SESSION_LIFETIME_MILLIS,
};

verus! {

/// The outcome of looking a token up: the hydrated session, or why none was
/// returned.
#[derive(Debug, Clone, PartialEq, Eq)]
pub enum VerifySession {
    Session(Session),
    SessionNotFound,
    SessionExpired,
}

impl VerifySession {
    /// The session inside a `Session` outcome; callers must have checked
    /// the variant.
    pub fn unwrap_session(self) -> (r: Session)
        requires
            self is Session,
        ensures
            r == self->Session_0,
    {
        match self {
            VerifySession::Session(session) => session,
            _ => vstd::pervasive::unreached(),
        }
    }
}

/// Relies on uuid's `Uuid::new_v4` and its hyphenated `Display` form: a
/// fresh random token, 36 characters whatever was drawn. Nothing else is
/// assumed of the value; in particular, not that it is new.
#[verifier::external_body]
fn generate_token() -> (r: String)
    ensures
        r@.len() == 36,
{
    uuid::Uuid::new_v4().to_string()
}

/// Relies on chrono's `Utc::now`: the wall-clock time, as milliseconds
/// since the Unix epoch. `Utc::now` aborts on a pre-epoch system clock, so
/// the reading is never negative; nothing else is assumed of the value.
#[verifier::external_body]
fn now_millis() -> (r: i64)
    ensures
        r >= 0,
{
    chrono::Utc::now().timestamp_millis()
}

impl Database {
    /// The index of the first session row carrying this token, if any.
    fn find_session_index(&self, session_token: &str) -> (r: Option<usize>)
        ensures
            r matches Some(i) ==> i < self.sessions@.len()
                && self.sessions@[i as int].session_token@ == session_token@,
            r is None ==> !self.has_token(session_token@),
    {
        let mut i: usize = 0;
        while i < self.sessions.len()
            invariant
                i <= self.sessions@.len(),
                forall|k: int| 0 <= k < i
                    ==> (#[trigger] self.sessions@[k]).session_token@ != session_token@,
            decreases self.sessions@.len() - i,
        {
            if str_eq(self.sessions[i].session_token.as_str(), session_token) {
                return Some(i);
            }
            i = i + 1;
        }
        None
    }

    /// Whether some session row carries this token.
    fn token_exists(&self, session_token: &str) -> (r: bool)
        ensures
            r == self.has_token(session_token@),
    {
        self.find_session_index(session_token).is_some()
    }

    /// Mint a token nobody holds and insert the session row: generate a
    /// random candidate, re-generate while it collides with an existing row
    /// — giving up after the bounded retry count — then insert with expiry
    /// the fixed lifetime past `now_ms`.
    fn create_session_token(
        &mut self,
        user_id: i64,
        track: TrackInformation,
        now_ms: i64,
    ) -> (r: Result<String, Error>)
        requires
            old(self).wf(),
            old(self).has_user_id(user_id),
        ensures
            final(self).wf(),
            r matches Err(e) ==> e == Error::SessionCreationFailed && *final(self) == *old(self),
            r matches Ok(token) ==> {
                &&& !old(self).has_token(token@)
                &&& final(self).sessions@.len() == old(self).sessions@.len() + 1
                &&& forall|k: int| 0 <= k < old(self).sessions@.len()
                    ==> final(self).sessions@[k] == old(self).sessions@[k]
                &&& {
                    let row = final(self).sessions@.last();
                    &&& row.user_id == user_id
                    &&& row.session_token@ == token@
                    &&& row.expiry_date == now_ms + SESSION_LIFETIME_MILLIS
                    &&& row.created_at == now_ms
                    &&& row.last_used_at == now_ms
                    &&& row.track == track
                }
                &&& final(self).users == old(self).users
                &&& final(self).permissions == old(self).permissions
                &&& final(self).next_user_id == old(self).next_user_id
            },
    {
        let mut token = generate_token();
        let mut retries: u32 = 0;
        while self.token_exists(token.as_str())
            invariant
                *self == *old(self),
                self.wf(),
                retries <= 11,
            decreases 12 - retries,
        {
            if retries > 10 {
                return Err(Error::SessionCreationFailed);
            }
            token = generate_token();
            retries = retries + 1;
        }
        if now_ms > i64::MAX - SESSION_LIFETIME_MILLIS {
            return Err(Error::SessionCreationFailed);
        }
        let expiry_date = now_ms + SESSION_LIFETIME_MILLIS;
        let row = SessionRow {
            user_id,
            session_token: token.clone(),
            expiry_date,
            created_at: now_ms,
            last_used_at: now_ms,
            track,
        };
        self.sessions.push(row);
        proof {
            let ghost last = self.sessions@.len() - 1;
            assert forall|i: int, j: int| 0 <= i < j < self.sessions@.len()
                implies (#[trigger] self.sessions@[i]).session_token@
                    != (#[trigger] self.sessions@[j]).session_token@ by {
                if j == last {
                    assert(!old(self).has_token(token@));
                }
            }
            assert forall|i: int| 0 <= i < self.sessions@.len()
                implies self.has_user_id((#[trigger] self.sessions@[i]).user_id) by {
                if i < last {
                    assert(old(self).has_user_id(old(self).sessions@[i].user_id));
                    let w = choose|w: int| 0 <= w < old(self).users@.len()
                        && (#[trigger] old(self).users@[w]).id == old(self).sessions@[i].user_id;
                    assert(self.users@[w].id == self.sessions@[i].user_id);
                } else {
                    let w = choose|w: int| 0 <= w < old(self).users@.len()
                        && (#[trigger] old(self).users@[w]).id == user_id;
                    assert(self.users@[w].id == user_id);
                }
            }
        }
        Ok(token)
    }

    /// The hydrated session carrying this token: the row's fields joined
    /// with its fully composed owning user.
    pub(crate) fn get_session(&self, session_token: &str) -> (r: Result<Session, Error>)
        requires
            self.wf(),
        ensures
            !self.has_token(session_token@)
                ==> r == Err::<Session, Error>(Error::SessionNotFound),
            self.has_token(session_token@)
                ==> (r matches Ok(s) && self.is_session_view(self.session_idx(session_token@), s)),
    {
        let i = match self.find_session_index(session_token) {
            Some(i) => i,
            None => {
                return Err(Error::SessionNotFound);
            },
        };
        proof {
            self.lemma_session_idx(i as int);
        }
        let user_id = self.sessions[i].user_id;
        let k = match self.find_user_index_by_id(user_id) {
            Some(k) => k,
            None => {
                // Unreachable while `wf` holds: a session row always
                // resolves to its user. Fail closed as not-found regardless.
                return Err(Error::SessionNotFound);
            },
        };
        let urow = &self.users[k];
        let user = User {
            id: urow.id,
            username: urow.username.clone(),
            permissions: self.get_user_permissions(urow.id),
        };
        let srow = &self.sessions[i];
        Ok(Session {
            user,
            session_token: srow.session_token.clone(),
            expiry_date: srow.expiry_date,
            created_at: srow.created_at,
            track: clone_track(&srow.track),
        })
    }

    /// Touch the `last_used_at` column of the session carrying this token;
    /// a missing token changes nothing.
    fn update_last_used(&mut self, session_token: &str, now_ms: i64)
        requires
            old(self).wf(),
        ensures
            final(self).wf(),
            !old(self).has_token(session_token@) ==> *final(self) == *old(self),
            old(self).has_token(session_token@) ==> {
                let i = old(self).session_idx(session_token@);
                &&& final(self).sessions@ == old(self).sessions@.update(
                    i,
                    SessionRow { last_used_at: now_ms, ..old(self).sessions@[i] },
                )
                &&& final(self).users == old(self).users
                &&& final(self).permissions == old(self).permissions
                &&& final(self).next_user_id == old(self).next_user_id
            },
    {
        let i = match self.find_session_index(session_token) {
            Some(i) => i,
            None => {
                return;
            },
        };
        proof {
            self.lemma_session_idx(i as int);
        }
        let touched = SessionRow {
            user_id: self.sessions[i].user_id,
            session_token: self.sessions[i].session_token.clone(),
            expiry_date: self.sessions[i].expiry_date,
            created_at: self.sessions[i].created_at,
            last_used_at: now_ms,
            track: clone_track(&self.sessions[i].track),
        };
        self.sessions.set(i, touched);
        proof {
            assert forall|a: int, b: int| 0 <= a < b < self.sessions@.len()
                implies (#[trigger] self.sessions@[a]).session_token@
                    != (#[trigger] self.sessions@[b]).session_token@ by {
                assert(old(self).sessions@[a].session_token@
                    != old(self).sessions@[b].session_token@);
            }
            assert forall|a: int| 0 <= a < self.sessions@.len()
                implies self.has_user_id((#[trigger] self.sessions@[a]).user_id) by {
                assert(old(self).has_user_id(old(self).sessions@[a].user_id));
                let w = choose|w: int| 0 <= w < old(self).users@.len()
                    && (#[trigger] old(self).users@[w]).id == old(self).sessions@[a].user_id;
                assert(self.users@[w].id == self.sessions@[a].user_id);
            }
        }
    }
}

/// The full issuance relation: what a login leaves in the store and hands
/// back, for the given clock reading. Failed credentials surface as one
/// undifferentiated `PasswordIncorrect`; a fresh row appears only on
/// success, carrying a token no prior row held.
pub open spec fn create_session_post(
    pre: Database,
    post: Database,
    username: Seq<char>,
    password: Seq<char>,
    track: TrackInformation,
    now_ms: i64,
    r: Result<Session, Error>,
) -> bool {
    match pre.spec_verify_credentials(username, password) {
        Err(e) => r == Err::<Session, Error>(e) && post == pre,
        Ok(None) => r == Err::<Session, Error>(Error::PasswordIncorrect) && post == pre,
        Ok(Some(uid)) => match r {
            Err(e) => e == Error::SessionCreationFailed && post == pre,
            Ok(s) => {
                &&& post.users == pre.users
                &&& post.permissions == pre.permissions
                &&& post.next_user_id == pre.next_user_id
                &&& post.sessions@.len() == pre.sessions@.len() + 1
                &&& forall|k: int| 0 <= k < pre.sessions@.len()
                    ==> post.sessions@[k] == pre.sessions@[k]
                &&& !pre.has_token(s.session_token@)
                &&& post.is_session_view(post.sessions@.len() - 1, s)
                &&& {
                    let row = post.sessions@.last();
                    &&& row.user_id == uid
                    &&& row.expiry_date == now_ms + SESSION_LIFETIME_MILLIS
                    &&& row.created_at == now_ms
                    &&& row.last_used_at == now_ms
                    &&& row.track == track
                }
            },
        },
    }
}

/// The full verification relation: what looking a token up at the given
/// clock reading returns and changes. Only a valid session mutates the
/// store, and only its `last_used_at` column.
pub open spec fn verify_session_post(
    pre: Database,
    post: Database,
    token: Seq<char>,
    now_ms: i64,
    r: Result<VerifySession, Error>,
) -> bool {
    if !pre.has_token(token) {
        r == Ok::<VerifySession, Error>(VerifySession::SessionNotFound) && post == pre
    } else {
        let i = pre.session_idx(token);
        let row = pre.sessions@[i];
        if row.expiry_date < now_ms {
            r == Ok::<VerifySession, Error>(VerifySession::SessionExpired) && post == pre
        } else {
            &&& post.sessions@ == pre.sessions@.update(
                i,
                SessionRow { last_used_at: now_ms, ..row },
            )
            &&& post.users == pre.users
            &&& post.permissions == pre.permissions
            &&& post.next_user_id == pre.next_user_id
            &&& (r matches Ok(v) && (v matches VerifySession::Session(s)
                && pre.is_session_view(i, s)))
        }
    }
}

/// The sweep relation: exactly the rows whose expiry lies strictly before
/// the given clock reading are gone.
pub open spec fn sweep_post(pre: Database, post: Database, now_ms: i64) -> bool {
    &&& post.sessions@ == pre.sessions@.filter(|s: SessionRow| s.expiry_date >= now_ms)
    &&& post.users == pre.users
    &&& post.permissions == pre.permissions
    &&& post.next_user_id == pre.next_user_id
}

impl Database {
    /// Log in at an explicit clock reading: verify the credentials, mint a
    /// collision-free token, insert the session row, and hand back the
    /// hydrated session re-read from the store.
    pub fn create_session_at(
        &mut self,
        username: &str,
        password: &str,
        track: TrackInformation,
        now_ms: i64,
    ) -> (r: Result<Session, Error>)
        requires
            old(self).wf(),
        ensures
            final(self).wf(),
            create_session_post(*old(self), *final(self), username@, password@, track, now_ms, r),
    {
        let user_id = match self.verify_credentials(username, password) {
            Ok(Some(user_id)) => user_id,
            Ok(None) => {
                return Err(Error::PasswordIncorrect);
            },
            Err(e) => {
                return Err(e);
            },
        };
        proof {
            let idx = self.user_idx_by_name(username@);
            assert(self.users@[idx].id == user_id);
            assert(self.has_user_id(user_id));
        }
        let token = match self.create_session_token(user_id, track, now_ms) {
            Ok(token) => token,
            Err(e) => {
                return Err(e);
            },
        };
        let session = match self.get_session(token.as_str()) {
            Ok(session) => session,
            Err(e) => {
                return Err(e);
            },
        };
        proof {
            self.lemma_session_idx(self.sessions@.len() - 1);
        }
        Ok(session)
    }

    /// Log in at the wall clock's current reading.
    pub fn create_session(
        &mut self,
        username: &str,
        password: &str,
        track: TrackInformation,
    ) -> (r: Result<Session, Error>)
        requires
            old(self).wf(),
        ensures
            final(self).wf(),
            exists|now_ms: i64| create_session_post(
                *old(self), *final(self), username@, password@, track, now_ms, r,
            ),
    {
        let now_ms = now_millis();
        let r = self.create_session_at(username, password, track, now_ms);
        proof {
            assert(create_session_post(
                *old(self), *self, username@, password@, track, now_ms, r,
            ));
        }
        r
    }

    /// Look a token up at an explicit clock reading: absent tokens are
    /// `SessionNotFound`; a present row past its expiry is `SessionExpired`
    /// and left untouched for the sweep; a valid row has its
    /// `last_used_at` column touched — the fixed expiry never moves — and
    /// comes back hydrated.
    pub fn verify_session_at(&mut self, session_token: &str, now_ms: i64) -> (r: Result<VerifySession, Error>)
        requires
            old(self).wf(),
        ensures
            final(self).wf(),
            verify_session_post(*old(self), *final(self), session_token@, now_ms, r),
    {
        let i = match self.find_session_index(session_token) {
            Some(i) => i,
            None => {
                return Ok(VerifySession::SessionNotFound);
            },
        };
        proof {
            self.lemma_session_idx(i as int);
        }
        if self.sessions[i].expiry_date < now_ms {
            return Ok(VerifySession::SessionExpired);
        }
        let session = match self.get_session(session_token) {
            Ok(session) => session,
            Err(e) => {
                return Err(e);
            },
        };
        self.update_last_used(session_token, now_ms);
        Ok(VerifySession::Session(session))
    }

    /// Look a token up at the wall clock's current reading.
    pub fn verify_session(&mut self, session_token: &str) -> (r: Result<VerifySession, Error>)
        requires
            old(self).wf(),
        ensures
            final(self).wf(),
            exists|now_ms: i64| verify_session_post(
                *old(self), *final(self), session_token@, now_ms, r,
            ),
    {
        let now_ms = now_millis();
        let r = self.verify_session_at(session_token, now_ms);
        proof {
            assert(verify_session_post(*old(self), *self, session_token@, now_ms, r));
        }
        r
    }

    /// Drop the session carrying this token; an absent token is a silent
    /// no-op.
    pub fn delete_session(&mut self, session_token: &str) -> (r: Result<(), Error>)
        requires
            old(self).wf(),
        ensures
            final(self).wf(),
            r == Ok::<(), Error>(()),
            final(self).sessions@ == old(self).sessions@.filter(
                |s: SessionRow| s.session_token@ != session_token@,
            ),
            !final(self).has_token(session_token@),
            final(self).users == old(self).users,
            final(self).permissions == old(self).permissions,
            final(self).next_user_id == old(self).next_user_id,
    {
        let ghost pred = |s: SessionRow| s.session_token@ != session_token@;
        let mut kept: Vec<SessionRow> = Vec::new();
        let mut i: usize = 0;
        while i < self.sessions.len()
            invariant
                *self == *old(self),
                i <= self.sessions@.len(),
                kept@ == self.sessions@.take(i as int).filter(pred),
                pred == (|s: SessionRow| s.session_token@ != session_token@),
            decreases self.sessions@.len() - i,
        {
            let s = &self.sessions[i];
            proof {
                lemma_filter_take_step(self.sessions@, pred, i as int);
            }
            if !str_eq(s.session_token.as_str(), session_token) {
                let copy = clone_session_row(s);
                assert(copy == self.sessions@[i as int]);
                kept.push(copy);
            }
            i = i + 1;
        }
        proof {
            lemma_filter_take_all(self.sessions@, pred);
        }
        self.sessions = kept;
        proof {
            self.lemma_session_filter_wf(*old(self), pred);
            assert forall|k: int| 0 <= k < self.sessions@.len()
                implies (#[trigger] self.sessions@[k]).session_token@ != session_token@ by {
                old(self).sessions@.lemma_filter_pred(pred, k);
            }
        }
        Ok(())
    }

    /// Sweep at an explicit clock reading: drop every session row whose
    /// expiry lies strictly in the past.
    pub fn delete_expired_sessions_at(&mut self, now_ms: i64) -> (r: Result<(), Error>)
        requires
            old(self).wf(),
        ensures
            final(self).wf(),
            r == Ok::<(), Error>(()),
            sweep_post(*old(self), *final(self), now_ms),
    {
        let ghost pred = |s: SessionRow| s.expiry_date >= now_ms;
        let mut kept: Vec<SessionRow> = Vec::new();
        let mut i: usize = 0;
        while i < self.sessions.len()
            invariant
                *self == *old(self),
                i <= self.sessions@.len(),
                kept@ == self.sessions@.take(i as int).filter(pred),
                pred == (|s: SessionRow| s.expiry_date >= now_ms),
            decreases self.sessions@.len() - i,
        {
            let s = &self.sessions[i];
            proof {
                lemma_filter_take_step(self.sessions@, pred, i as int);
            }
            if s.expiry_date >= now_ms {
                let copy = clone_session_row(s);
                assert(copy == self.sessions@[i as int]);
                kept.push(copy);
            }
            i = i + 1;
        }
        proof {
            lemma_filter_take_all(self.sessions@, pred);
        }
        self.sessions = kept;
        proof {
            self.lemma_session_filter_wf(*old(self), pred);
        }
        Ok(())
    }

    /// Sweep at the wall clock's current reading.
    pub fn delete_expired_sessions(&mut self) -> (r: Result<(), Error>)
        requires
            old(self).wf(),
        ensures
            final(self).wf(),
            r == Ok::<(), Error>(()),
            exists|now_ms: i64| sweep_post(*old(self), *final(self), now_ms),
    {
        let now_ms = now_millis();
        let r = self.delete_expired_sessions_at(now_ms);
        proof {
            assert(sweep_post(*old(self), *self, now_ms));
        }
        r
    }

    /// After keeping an arbitrary subset of session rows, the store
    /// invariants hold again.
    proof fn lemma_session_filter_wf(self, pre: Database, pred: spec_fn(SessionRow) -> bool)
        requires
            pre.wf(),
            self.sessions@ == pre.sessions@.filter(pred),
            self.users == pre.users,
            self.permissions == pre.permissions,
            self.next_user_id == pre.next_user_id,
        ensures
            self.wf(),
    {
        lemma_filter_preserves_pairwise(
            pre.sessions@,
            pred,
            |a: SessionRow, b: SessionRow| a.session_token@ == b.session_token@,
        );
        assert forall|k: int| 0 <= k < self.sessions@.len()
            implies self.has_user_id((#[trigger] self.sessions@[k]).user_id) by {
            pre.sessions@.lemma_filter_contains_rev(pred, self.sessions@[k]);
            let w = choose|w: int| 0 <= w < pre.sessions@.len()
                && pre.sessions@[w] == self.sessions@[k];
            assert(pre.has_user_id(pre.sessions@[w].user_id));
        }
        assert forall|k: int| 0 <= k < self.permissions@.len()
            implies self.has_user_id((#[trigger] self.permissions@[k]).user_id) by {
            assert(pre.has_user_id(pre.permissions@[k].user_id));
        }
    }
}

/// The track snapshot a login request carries.
pub open spec fn spec_track_of(input: SessionCreate) -> TrackInformation {
    TrackInformation {
        device: input.device,
        user_agent: input.user_agent,
        ip_address: input.ip_address,
        location: input.location,
        os: input.os,
        browser: input.browser,
        screen_resolution: input.screen_resolution,
        timezone: input.timezone,
    }
}

/// How a login outcome is shaped for the transport: both `UserNotFound`
/// and `PasswordIncorrect` collapse into one undifferentiated variant, so
/// that responses cannot be used to enumerate usernames; any other error
/// surfaces as its message text.
pub open spec fn is_login_response(r: Result<Session, Error>, resp: Response) -> bool {
    match r {
        Ok(s) => resp == Response::SessionCreated(s),
        Err(e) => {
            if e == Error::UserNotFound || e == Error::PasswordIncorrect {
                resp == Response::UserOrPasswordIncorrect
            } else {
                resp matches Response::Error(m) && m@ == e.spec_message()
            }
        },
    }
}

/// How a verification outcome is shaped for the transport.
pub open spec fn is_verify_response(r: Result<VerifySession, Error>, resp: Response) -> bool {
    match r {
        Ok(VerifySession::Session(s)) => resp == Response::SessionVerified(s),
        Ok(VerifySession::SessionNotFound) => resp == Response::SessionNotFound,
        Ok(VerifySession::SessionExpired) => resp == Response::SessionExpired,
        Err(e) => resp matches Response::Error(m) && m@ == e.spec_message(),
    }
}

/// The login endpoint's whole behaviour: run issuance on the request's
/// credentials and track snapshot, then shape the outcome for the
/// transport, collapsing the two login-failure causes into one variant.
pub fn session_create(db: &mut Database, input: SessionCreate, now_ms: i64) -> (r: Response)
    requires
        old(db).wf(),
    ensures
        final(db).wf(),
        exists|r0: Result<Session, Error>|
            #[trigger] create_session_post(
                *old(db), *final(db), input.username@, input.password@,
                spec_track_of(input), now_ms, r0,
            ) && is_login_response(r0, r),
{
    let SessionCreate {
        username,
        password,
        device,
        user_agent,
        ip_address,
        location,
        os,
        browser,
        screen_resolution,
        timezone,
    } = input;
    let track = TrackInformation {
        device,
        user_agent,
        ip_address,
        location,
        os,
        browser,
        screen_resolution,
        timezone,
    };
    let r0 = db.create_session_at(username.as_str(), password.as_str(), track, now_ms);
    match r0 {
        Ok(session) => Response::SessionCreated(session),
        Err(Error::UserNotFound) => Response::UserOrPasswordIncorrect,
        Err(Error::PasswordIncorrect) => Response::UserOrPasswordIncorrect,
        Err(e) => Response::Error(e.message()),
    }
}

/// The verification endpoint's whole behaviour: look the request's token
/// up and shape the outcome for the transport.
pub fn session_verify(db: &mut Database, input: SessionVerify, now_ms: i64) -> (r: Response)
    requires
        old(db).wf(),
    ensures
        final(db).wf(),
        exists|r0: Result<VerifySession, Error>|
            #[trigger] verify_session_post(
                *old(db), *final(db), input.session_token@, now_ms, r0,
            ) && is_verify_response(r0, r),
{
    let r0 = db.verify_session_at(input.session_token.as_str(), now_ms);
    match r0 {
        Ok(VerifySession::Session(session)) => Response::SessionVerified(session),
        Ok(VerifySession::SessionNotFound) => Response::SessionNotFound,
        Ok(VerifySession::SessionExpired) => Response::SessionExpired,
        Err(e) => Response::Error(e.message()),
    }
}

/// Issued tokens never repeat: a session returned by one successful login
/// carries a token held in the store, and the next successful login's
/// token is fresh with respect to that store, so the two differ. Together
/// with the store invariant that session rows hold pairwise-distinct
/// tokens — preserved by every operation — no two issued sessions share a
/// token across any number of calls.
pub proof fn lemma_issued_tokens_distinct(
    db0: Database,
    db1: Database,
    db2: Database,
    username1: Seq<char>,
    password1: Seq<char>,
    track1: TrackInformation,
    now1: i64,
    s1: Session,
    username2: Seq<char>,
    password2: Seq<char>,
    track2: TrackInformation,
    now2: i64,
    s2: Session,
)
    requires
        create_session_post(db0, db1, username1, password1, track1, now1, Ok(s1)),
        create_session_post(db1, db2, username2, password2, track2, now2, Ok(s2)),
    ensures
        s1.session_token@ != s2.session_token@,
{
    let last = db1.sessions@.len() - 1;
    assert(s1.session_token@ == db1.sessions@[last].session_token@);
    assert(db1.has_token(s1.session_token@));
    assert(!db1.has_token(s2.session_token@));
}

/// A session older than the fixed lifetime is reported expired, never
/// valid, and the store is left untouched: its expiry is its creation time
/// plus the lifetime, which lies strictly before the clock reading.
pub proof fn lemma_stale_session_expires(
    pre: Database,
    post: Database,
    token: Seq<char>,
    now_ms: i64,
    r: Result<VerifySession, Error>,
)
    requires
        pre.has_token(token),
        ({
            let row = pre.sessions@[pre.session_idx(token)];
            &&& row.expiry_date == row.created_at + SESSION_LIFETIME_MILLIS
            &&& now_ms - row.created_at > SESSION_LIFETIME_MILLIS
        }),
        verify_session_post(pre, post, token, now_ms, r),
    ensures
        r == Ok::<VerifySession, Error>(VerifySession::SessionExpired),
        post == pre,
{
}

/// A login with credentials that do not verify — unknown username or wrong
/// password alike — leaves the store unchanged, and the transport sees only
/// the one undifferentiated failure variant.
pub proof fn lemma_failed_login_is_generic(
    pre: Database,
    post: Database,
    username: Seq<char>,
    password: Seq<char>,
    track: TrackInformation,
    now_ms: i64,
    r0: Result<Session, Error>,
    resp: Response,
)
    requires
        pre.spec_verify_credentials(username, password) == Ok::<Option<i64>, Error>(None),
        create_session_post(pre, post, username, password, track, now_ms, r0),
        is_login_response(r0, resp),
    ensures
        post == pre,
        resp == Response::UserOrPasswordIncorrect,
{
}

} // verus!
