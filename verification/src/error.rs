//! The engine's error taxonomy. Failures of the storage and crypto
//! collaborators surface as dedicated variants; nothing is wrapped.
use vstd::prelude::*;

verus! {

/// Everything a store operation can fail with.
#[derive(Debug, Clone, Copy, PartialEq, Eq)]
pub enum Error {
    /// A user with the requested username already exists.
    DuplicateUsername,
    /// No user with the requested username or id exists.
    UserNotFound,
    /// The supplied password does not verify against the stored hash.
    PasswordIncorrect,
    /// A stored password salt is not a well-formed B64 salt string.
    InvalidPasswordSalt,
    /// A stored password hash is not a well-formed PHC hash string.
    InvalidPasswordHash,
    /// Token issuance gave up after the bounded number of collision retries,
    /// or the expiry timestamp could not be computed.
    SessionCreationFailed,
    /// No session with the requested token exists.
    SessionNotFound,
    /// The store cannot take further rows (the id space is exhausted).
    StorageFailure,
}

impl Error {
    /// The fixed message text of each variant.
    pub open spec fn spec_message(self) -> Seq<char> {
        match self {
            Error::DuplicateUsername => "duplicate username"@,
            Error::UserNotFound => "user not found"@,
            Error::PasswordIncorrect => "password incorrect"@,
            Error::InvalidPasswordSalt => "invalid password salt"@,
            Error::InvalidPasswordHash => "invalid password hash"@,
            Error::SessionCreationFailed => "session creation failed"@,
            Error::SessionNotFound => "session not found"@,
            Error::StorageFailure => "storage failure"@,
        }
    }

    /// A human-readable message for logs and transport bodies.
    pub fn message(&self) -> (r: String)
        ensures
            r@ == self.spec_message(),
    {
        match self {
            Error::DuplicateUsername => "duplicate username".to_owned(),
            Error::UserNotFound => "user not found".to_owned(),
            Error::PasswordIncorrect => "password incorrect".to_owned(),
            Error::InvalidPasswordSalt => "invalid password salt".to_owned(),
            Error::InvalidPasswordHash => "invalid password hash".to_owned(),
            Error::SessionCreationFailed => "session creation failed".to_owned(),
            Error::SessionNotFound => "session not found".to_owned(),
            Error::StorageFailure => "storage failure".to_owned(),
        }
    }
}

} // verus!
