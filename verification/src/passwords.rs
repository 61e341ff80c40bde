//! Passwords: checking one against its stored argon2 hash, and hashing one
//! under a salt. Drawing a random salt is the caller's.
use vstd::prelude::*;
use argon2::password_hash::{PasswordHash, PasswordHasher, PasswordVerifier, SaltString};
use crate::text::{chars_of, string_of};

verus! {

/// Whether a password checks out against a stored hash: the hash parses as a
/// PHC string and argon2 verifies the password under the parameters and salt
/// it names; a function of the two texts alone.
pub uninterp spec fn password_matches(password: Seq<char>, hash: Seq<char>) -> bool;

/// `PasswordHash::new` on the stored hash, then `Argon2::default().verify_password`;
/// a hash that does not parse matches nothing.
#[verifier::external_body]
pub fn verify_password(password: &str, hash: &str) -> (r: bool)
    ensures
        r == password_matches(password@, hash@),
{
    PasswordHash::new(hash)
        .map(|parsed| argon2::Argon2::default().verify_password(password.as_bytes(), &parsed).is_ok())
        .unwrap_or(false)
}

/// The PHC string `Argon2::default()` makes of a password under a B64 salt:
/// `None` when the salt is not a valid B64 salt (4 to 64 characters of
/// `[a-zA-Z0-9/+.-]`) or hashing fails; a function of the two texts alone.
pub uninterp spec fn argon2_phc(password: Seq<char>, salt: Seq<char>) -> Option<Seq<char>>;

/// `SaltString::from_b64`, then `Argon2::default().hash_password`, written out
/// with `to_string`. The hash it writes verifies the same password
/// (`PasswordHash::verify_password` reads the algorithm, parameters and salt
/// back out of the string). The wording of the error is not stated.
#[verifier::external_body]
fn argon2_hash(password: &str, salt: &str) -> (r: Result<String, String>)
    ensures
        match r {
            Ok(h) => argon2_phc(password@, salt@) == Some(h@) && password_matches(password@, h@),
            Err(_) => argon2_phc(password@, salt@) is None,
        },
{
    let salt = SaltString::from_b64(salt).map_err(|e| e.to_string())?;
    argon2::Argon2::default()
        .hash_password(password.as_bytes(), &salt)
        .map(|h| h.to_string())
        .map_err(|e| e.to_string())
}

/// A password hashed under a given salt; the error reads `Password hashing
/// failed: ...`. What it writes is checked by `verify_password` against the
/// same password.
pub fn hash_with_salt(password: &str, salt: &str) -> (r: Result<String, String>)
    ensures
        r is Ok <==> argon2_phc(password@, salt@) is Some,
        r matches Ok(h) ==> argon2_phc(password@, salt@) == Some(h@) && password_matches(
            password@,
            h@,
        ),
{
    match argon2_hash(password, salt) {
        Ok(h) => Ok(h),
        Err(e) => {
            let mut m = chars_of("Password hashing failed: ");
            let mut rest = chars_of(e.as_str());
            m.append(&mut rest);
            Err(string_of(&m))
        },
    }
}

} // verus!
