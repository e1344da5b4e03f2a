//! Password hashing and verification.

use argon2::password_hash::rand_core::OsRng;
use argon2::password_hash::SaltString;
use argon2::{Argon2, PasswordHash, PasswordHasher, PasswordVerifier};
use vstd::prelude::*;

verus! {

/// What password verification returns: deterministic in the password and
/// the hash string, since the hash string carries the algorithm, the
/// parameters and the salt that verification recomputes with.
pub uninterp spec fn verify_of(password: Seq<char>, hash: Seq<char>) -> bool;

/// The longest password, in characters, that hashing accepts. The hash
/// function takes byte strings of at most `u32::MAX` bytes and refuses
/// longer ones, and a character encodes to at most four bytes, so this many
/// characters always stay within what it accepts.
pub const MAX_PASSWORD_LEN: usize = 1073741823;

/// Relies on argon2's `PasswordHasher::hash_password` with a fresh random
/// salt: the returned hash string verifies against the hashed password,
/// because verification recomputes the hash from the salt and parameters
/// carried in the string. Passwords longer than `u32::MAX` bytes are
/// refused with an error — the precondition keeps the input under that
/// bound (at most four bytes per character) — and with a generated salt and
/// the default parameters no other failure remains, so the unwrap cannot
/// panic.
#[verifier::external_body]
pub fn hash_password(password: &str) -> (r: String)
    requires
        password@.len() <= MAX_PASSWORD_LEN,
    ensures
        verify_of(password@, r@),
{
    let salt = SaltString::generate(&mut OsRng);
    let res = Argon2::default().hash_password(password.as_bytes(), &salt).unwrap();
    res.to_string()
}

/// Relies on argon2's `PasswordVerifier::verify_password`: deterministic in
/// the password and the hash string, named `verify_of`. A hash string that
/// does not parse verifies nothing.
#[verifier::external_body]
pub fn verify_password(password: &str, hash: &str) -> (r: bool)
    ensures
        r == verify_of(password@, hash@),
{
    match PasswordHash::new(hash) {
        Ok(parsed) => Argon2::default().verify_password(password.as_bytes(), &parsed).is_ok(),
        Err(_) => false,
    }
}

} // verus!
