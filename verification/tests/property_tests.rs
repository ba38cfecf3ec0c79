use enigma::session::{session_create, session_verify};
use enigma::user::CreateUser;
use enigma::{
    Database, Error, Response, SessionCreate, SessionVerify, TrackInformation, VerifySession,
    SESSION_LIFETIME_MILLIS,
};

const SALT: &str = "vkzROAFwR3Zgx+KZU7Ecxw";
// PBKDF2-SHA256 over "password123" with the salt above and ten rounds; the
// low round count keeps the checks in these tests fast.
const PASSWORD123_HASH: &str =
    "$pbkdf2-sha256$i=10,l=32$vkzROAFwR3Zgx+KZU7Ecxw$xCckf4fhRaCAGWJok6rtTGIorINbkNR9DB9fNCc6wZU";
// PBKDF2-SHA256 over "secret1" with the same salt and rounds.
const SECRET1_HASH: &str =
    "$pbkdf2-sha256$i=10,l=32$vkzROAFwR3Zgx+KZU7Ecxw$RyhZEU09aUMmpszjWuVsw/6ibPq5VnvS1Wj+wiCnMWk";

fn db_with_user(username: &str, hash: &str) -> (Database, i64) {
    let mut db = Database::new();
    let id = db
        .create_user_with_hash_password(username, &None, hash, SALT, "pbkdf2-sha256")
        .expect("failed to create user");
    (db, id)
}

fn some_track() -> TrackInformation {
    TrackInformation {
        device: Some("Android".into()),
        user_agent: Some("Safari".into()),
        ip_address: Some("192.168.1.1".into()),
        location: Some("USA".into()),
        os: Some("iOS".into()),
        browser: Some("Safari".into()),
        screen_resolution: Some("1125x2436".into()),
        timezone: Some("UTC-5".into()),
    }
}

#[test]
fn test_verify_credentials_roundtrip() {
    let (db, id) = db_with_user("alice", SECRET1_HASH);
    assert_eq!(db.verify_credentials("alice", "secret1"), Ok(Some(id)));
    assert_eq!(db.verify_credentials("alice", "nope"), Ok(None));
    assert_eq!(db.verify_credentials("bob", "secret1"), Ok(None));
}

#[test]
fn test_created_user_verifies() {
    let mut db = Database::new();
    let id = db
        .create_user(CreateUser {
            username: "carol".into(),
            password: "mypassword".into(),
            email: None,
        })
        .expect("failed to create user");
    assert_eq!(db.verify_credentials("carol", "mypassword"), Ok(Some(id)));
}

#[test]
fn test_session_tokens_unique() {
    let (mut db, _) = db_with_user("alice", PASSWORD123_HASH);
    let s1 = db
        .create_session("alice", "password123", TrackInformation::default())
        .expect("failed to create first session");
    let s2 = db
        .create_session("alice", "password123", TrackInformation::default())
        .expect("failed to create second session");
    assert_ne!(s1.session_token, s2.session_token);
    assert_eq!(s1.session_token.len(), 36);
    assert_eq!(s2.session_token.len(), 36);
}

#[test]
fn test_session_expiry() {
    let (mut db, _) = db_with_user("alice", PASSWORD123_HASH);
    let session = db
        .create_session_at("alice", "password123", TrackInformation::default(), 1_000)
        .expect("failed to create session");
    assert_eq!(session.created_at, 1_000);
    assert_eq!(session.expiry_date, 1_000 + 604_800_000);

    // On the boundary the session is still valid; strictly past it, expired.
    let at_boundary = db
        .verify_session_at(&session.session_token, 1_000 + SESSION_LIFETIME_MILLIS)
        .unwrap();
    assert!(matches!(at_boundary, VerifySession::Session(_)));
    let past_boundary = db
        .verify_session_at(&session.session_token, 1_000 + SESSION_LIFETIME_MILLIS + 1)
        .unwrap();
    assert_eq!(past_boundary, VerifySession::SessionExpired);

    // The expired row is left in place for the sweep.
    assert_eq!(db.sessions.len(), 1);
}

#[test]
fn test_add_permission_idempotent() {
    let (mut db, id) = db_with_user("alice", "hashed_password");
    db.add_permission(id, "example.com", "read").unwrap();
    db.add_permission(id, "example.com", "read").unwrap();
    assert_eq!(db.permissions.len(), 1);
    let user = db.get_user_by_username("alice").unwrap();
    assert_eq!(user.permissions.len(), 1);

    // Removing an absent grant succeeds and changes nothing.
    db.remove_permission(id, "example.com", "write").unwrap();
    assert_eq!(db.permissions.len(), 1);
    db.remove_permission(id, "example.com", "read").unwrap();
    assert_eq!(db.permissions.len(), 0);
}

#[test]
fn test_add_permission_unknown_user() {
    let mut db = Database::new();
    assert_eq!(db.add_permission(7, "example.com", "read"), Err(Error::UserNotFound));
}

#[test]
fn test_has_permission() {
    let (mut db, id) = db_with_user("alice", "hashed_password");
    db.add_permission(id, "example.com", "read").unwrap();
    let user = db.get_user_by_username("alice").unwrap();
    assert!(user.has_permission("example.com", "read"));
    assert!(!user.has_permission("example.com", "write"));
    assert!(!user.has_permission("other.org", "read"));
}

#[test]
fn test_delete_user_cascades() {
    let (mut db, id) = db_with_user("alice", PASSWORD123_HASH);
    db.add_permission(id, "example.com", "read").unwrap();
    let session = db
        .create_session("alice", "password123", some_track())
        .expect("failed to create session");

    db.delete_user_by_username("alice").unwrap();

    assert!(db.list_users().unwrap().is_empty());
    assert_eq!(db.get_user_by_username("alice"), Err(Error::UserNotFound));
    assert_eq!(db.get_user_by_id(id), Err(Error::UserNotFound));
    assert_eq!(
        db.verify_session(&session.session_token).unwrap(),
        VerifySession::SessionNotFound
    );
    assert_eq!(db.sessions.len(), 0);
    assert_eq!(db.permissions.len(), 0);
}

#[test]
fn test_session_scenario() {
    let mut db = Database::new();
    db.create_user(CreateUser {
        username: "alice".into(),
        password: "secret1".into(),
        email: None,
    })
    .expect("failed to create user");

    let track = some_track();
    let session = db
        .create_session("alice", "secret1", track.clone())
        .expect("failed to create session");
    assert_eq!(session.user.username, "alice");
    assert_eq!(session.track.device, track.device);
    assert_eq!(session.track, track);

    let verified = db.verify_session(&session.session_token).unwrap();
    assert!(matches!(verified, VerifySession::Session(_)));
    let verified_session = verified.unwrap_session();
    assert_eq!(verified_session.user, session.user);
    assert_eq!(verified_session.track, session.track);

    db.delete_session(&session.session_token).unwrap();
    assert_eq!(
        db.verify_session(&session.session_token).unwrap(),
        VerifySession::SessionNotFound
    );
}

#[test]
fn test_wrong_password_no_session() {
    let (mut db, _) = db_with_user("alice", PASSWORD123_HASH);
    assert_eq!(
        db.create_session("alice", "wrong", TrackInformation::default()),
        Err(Error::PasswordIncorrect)
    );
    assert_eq!(db.sessions.len(), 0);

    // Unknown users fail the same way, so nothing can be learned from the
    // outcome.
    assert_eq!(
        db.create_session("nobody", "wrong", TrackInformation::default()),
        Err(Error::PasswordIncorrect)
    );
    assert_eq!(db.sessions.len(), 0);
}

fn login_request(username: &str, password: &str) -> SessionCreate {
    SessionCreate {
        username: username.into(),
        password: password.into(),
        device: Some("Android".into()),
        user_agent: None,
        ip_address: None,
        location: None,
        os: None,
        browser: None,
        screen_resolution: None,
        timezone: None,
    }
}

#[test]
fn test_facade_login_collapses_failures() {
    let (mut db, _) = db_with_user("alice", PASSWORD123_HASH);
    let bad_password = session_create(&mut db, login_request("alice", "wrong"), 1_000);
    assert_eq!(bad_password, Response::UserOrPasswordIncorrect);
    let bad_user = session_create(&mut db, login_request("nobody", "password123"), 1_000);
    assert_eq!(bad_user, Response::UserOrPasswordIncorrect);
    assert_eq!(db.sessions.len(), 0);
}

#[test]
fn test_facade_session_lifecycle() {
    let (mut db, _) = db_with_user("alice", PASSWORD123_HASH);
    let created = session_create(&mut db, login_request("alice", "password123"), 1_000);
    let session = match created {
        Response::SessionCreated(s) => s,
        other => panic!("expected SessionCreated, got {:?}", other),
    };
    assert_eq!(session.user.username, "alice");
    assert_eq!(session.track.device, Some("Android".to_string()));

    let verify = |db: &mut Database, token: &str, now: i64| {
        session_verify(db, SessionVerify { session_token: token.into() }, now)
    };
    let verified = verify(&mut db, &session.session_token, 2_000);
    assert_eq!(verified, Response::SessionVerified(session.clone()));
    let expired = verify(&mut db, &session.session_token, 1_000 + SESSION_LIFETIME_MILLIS + 1);
    assert_eq!(expired, Response::SessionExpired);
    let missing = verify(&mut db, "no-such-token", 2_000);
    assert_eq!(missing, Response::SessionNotFound);
}

#[test]
fn test_sweep_deletes_only_expired() {
    let (mut db, _) = db_with_user("alice", PASSWORD123_HASH);
    let s1 = db
        .create_session_at("alice", "password123", TrackInformation::default(), 0)
        .unwrap();
    let s2 = db
        .create_session_at("alice", "password123", TrackInformation::default(), 1_000)
        .unwrap();

    db.delete_expired_sessions_at(SESSION_LIFETIME_MILLIS + 500).unwrap();

    assert_eq!(db.sessions.len(), 1);
    assert_eq!(
        db.verify_session_at(&s1.session_token, SESSION_LIFETIME_MILLIS + 500).unwrap(),
        VerifySession::SessionNotFound
    );
    assert!(matches!(
        db.verify_session_at(&s2.session_token, SESSION_LIFETIME_MILLIS + 500).unwrap(),
        VerifySession::Session(_)
    ));
}

#[test]
fn test_delete_session_idempotent() {
    let mut db = Database::new();
    db.delete_session("no-such-token").unwrap();
    assert_eq!(db.sessions.len(), 0);
}

#[test]
fn test_invalid_salt_error() {
    let mut db = Database::new();
    // "x" is shorter than the minimum B64 salt length, so the stored salt
    // no longer parses and verification reports it.
    db.create_user_with_hash_password("u", &None, "h", "x", "m").unwrap();
    assert_eq!(db.verify_credentials("u", "pw"), Err(Error::InvalidPasswordSalt));
}

#[test]
fn test_invalid_hash_error() {
    let (db, _) = db_with_user("u", "hashed_password");
    assert_eq!(db.verify_credentials("u", "pw"), Err(Error::InvalidPasswordHash));
}

#[test]
fn test_duplicate_username() {
    let (mut db, _) = db_with_user("alice", "h1");
    assert_eq!(
        db.create_user_with_hash_password("alice", &None, "h2", SALT, "m"),
        Err(Error::DuplicateUsername)
    );
    assert_eq!(db.users.len(), 1);
}

#[test]
fn test_list_users_hydrated() {
    let (mut db, id_a) = db_with_user("alice", "h1");
    let id_b = db
        .create_user_with_hash_password("bob", &None, "h2", SALT, "m")
        .unwrap();
    db.add_permission(id_a, "example.com", "read").unwrap();
    db.add_permission(id_b, "example.com", "write").unwrap();
    db.add_permission(id_b, "other.org", "read").unwrap();

    let users = db.list_users().unwrap();
    assert_eq!(users.len(), 2);
    assert_eq!(users[0].username, "alice");
    assert_eq!(users[0].id, id_a);
    assert_eq!(users[0].permissions.len(), 1);
    assert_eq!(users[1].username, "bob");
    assert_eq!(users[1].permissions.len(), 2);
    assert_eq!(users[1].permissions[0].site, "example.com");
    assert_eq!(users[1].permissions[0].permission, "write");
}

#[test]
fn test_error_messages() {
    assert_eq!(Error::UserNotFound.message(), "user not found");
    assert_eq!(Error::PasswordIncorrect.message(), "password incorrect");
    assert_eq!(Error::DuplicateUsername.message(), "duplicate username");
    assert_eq!(Error::SessionCreationFailed.message(), "session creation failed");
}
