//! Password hashing and verification, built on the pbkdf2 crate's
//! `PasswordHasher` / `PasswordVerifier` implementation. The outside calls
//! stand behind trusted wrappers; what they compute is named, not restated.
use vstd::prelude::*;

use crate::error::Error;
use crate::Database;
use pbkdf2::password_hash::{PasswordHash, PasswordHasher, PasswordVerifier, SaltString};
use pbkdf2::Pbkdf2;

verus! {

/// The PHC hash string that `Pbkdf2.hash_password` derives from a password
/// and a salt: a function of those two strings alone.
pub uninterp spec fn pbkdf2_hash(password: Seq<char>, salt: Seq<char>) -> Seq<char>;

/// Whether `Pbkdf2.verify_password` accepts a password against a stored PHC
/// hash string: a function of the two strings alone.
pub uninterp spec fn pbkdf2_check(password: Seq<char>, hash: Seq<char>) -> bool;

/// Whether `PasswordHash::new` parses a stored string as a PHC hash: a
/// function of the string alone.
pub uninterp spec fn phc_parses(hash: Seq<char>) -> bool;

/// Whether `SaltString::from_b64` accepts a stored string as a B64 salt: a
/// function of the string alone.
pub uninterp spec fn salt_parses(salt: Seq<char>) -> bool;

/// Whether `Pbkdf2.hash_password` succeeds on this salt: acceptance by
/// `SaltString::from_b64` plus an actual B64 decode of the salt characters
/// (the from_b64 charset is wider than B64, so this is strictly stronger
/// than `salt_parses`). A function of the salt string alone: the password
/// never makes hashing fail, and the default parameters always encode.
pub uninterp spec fn salt_hashable(salt: Seq<char>) -> bool;

impl Database {
    /// Derive the PHC hash string for a password over the given salt.
    ///
    /// Relies on pbkdf2's `Pbkdf2.hash_password` (via `SaltString::from_b64`):
    /// the call succeeds exactly when the salt both parses and B64-decodes —
    /// the password and the fixed default parameters cause no failure — and
    /// the hash is a function of password and salt alone; the PHC string it
    /// returns parses back via `PasswordHash::new` and, per the
    /// `PasswordVerifier` implementation, which recomputes the hash with the
    /// salt and parameters carried in that string, verifies against the same
    /// password.
    #[verifier::external_body]
    pub fn hash_password(&self, password_salt: &str, password: &str) -> (r: Result<String, Error>)
        ensures
            r is Ok <==> salt_hashable(password_salt@),
            r matches Ok(h) ==> h@ == pbkdf2_hash(password@, password_salt@),
            r is Ok ==> phc_parses(pbkdf2_hash(password@, password_salt@)),
            r is Ok ==> pbkdf2_check(password@, pbkdf2_hash(password@, password_salt@)),
            r matches Err(e) ==> e == Error::InvalidPasswordSalt,
    {
        let salt = SaltString::from_b64(password_salt).map_err(|_| Error::InvalidPasswordSalt)?;
        let hash = Pbkdf2
            .hash_password(password.as_bytes(), &salt)
            .map_err(|_| Error::InvalidPasswordSalt)?;
        Ok(hash.to_string())
    }

    /// Check a password against a stored PHC hash string. The salt and
    /// method columns travel along unused, as the hash string is
    /// self-describing.
    ///
    /// Relies on pbkdf2's `Pbkdf2.verify_password` (via `PasswordHash::new`):
    /// whether the parse and the check succeed are functions of the two
    /// strings alone.
    #[verifier::external_body]
    pub fn verify_password(
        password: &str,
        password_hash: &str,
        password_salt: &str,
        password_method: &str,
    ) -> (r: Result<bool, Error>)
        ensures
            r is Ok <==> phc_parses(password_hash@),
            r matches Ok(b) ==> b == pbkdf2_check(password@, password_hash@),
            r matches Err(e) ==> e == Error::InvalidPasswordHash,
    {
        let _ = (password_salt, password_method);
        let parsed = PasswordHash::new(password_hash).map_err(|_| Error::InvalidPasswordHash)?;
        Ok(Pbkdf2.verify_password(password.as_bytes(), &parsed).is_ok())
    }
}

/// Make a fresh random salt.
///
/// Relies on `SaltString::generate` with `rand_core::OsRng`: every salt it
/// returns is the B64 encoding of sixteen random bytes — 22 characters of
/// the B64 alphabet — so whatever was drawn, the string parses back via
/// `SaltString::from_b64` and decodes again when hashing.
#[verifier::external_body]
pub(crate) fn generate_salt() -> (r: String)
    ensures
        salt_parses(r@),
        salt_hashable(r@),
{
    SaltString::generate(&mut rand_core::OsRng).as_str().to_owned()
}

/// Whether a stored salt column still parses as a B64 salt.
///
/// Relies on `SaltString::from_b64`: acceptance is a function of the string
/// alone.
#[verifier::external_body]
pub(crate) fn salt_is_valid(salt: &str) -> (r: bool)
    ensures
        r == salt_parses(salt@),
{
    SaltString::from_b64(salt).is_ok()
}

} // verus!
