//! Credential hashing and one-time codes.
//!
//! Password hashing is an opaque, salted one-way function: two hashes of
//! the same plaintext differ, so nothing useful can be said about the
//! digest itself. What the rest of the library relies on is the
//! verification relation [`digest_matches`], which is a pure function of
//! the digest and the plaintext.

use vstd::prelude::*;

use crate::config::MIN_TOTP_SECRET_LEN;

verus! {

/// Whether a stored digest verifies against a plaintext: the (pure)
/// outcome of bcrypt verification, with malformed digests reported as a
/// mismatch. Hashing the same plaintext twice yields different digests,
/// but each of them satisfies this relation with that plaintext.
pub uninterp spec fn digest_matches(digest: Seq<char>, plaintext: Seq<char>) -> bool;

/// Hash a password with a fresh random salt at the default cost.
///
/// Relies on `bcrypt::hash`: the digest is a 60-character hash string
/// embedding the salt and cost, and `bcrypt::verify` of the hashed
/// plaintext against it recomputes the same digest, so the pair always
/// verifies. Fails only if the operating system's randomness for the
/// salt is unavailable.
#[verifier::external_body]
pub fn hash_password(password: &str) -> (r: Option<String>)
    ensures
        r matches Some(digest) ==> digest_matches(digest@, password@) && digest@.len() == 60,
{
    bcrypt::hash(password, bcrypt::DEFAULT_COST).ok()
}

/// Verify a plaintext against a stored digest; malformed digests never
/// verify.
///
/// Relies on `bcrypt::verify`: it re-derives the digest from the
/// plaintext and the salt and cost embedded in the stored digest, a
/// computation determined by its two arguments alone; errors on
/// malformed digests are reported as a mismatch, and a digest that is
/// not exactly 60 characters is rejected before anything else.
#[verifier::external_body]
pub fn verify_password(password: &str, digest: &str) -> (r: bool)
    ensures
        r == digest_matches(digest@, password@),
        digest@.len() != 60 ==> !r,
{
    bcrypt::verify(password, digest).unwrap_or(false)
}

/// Hashing a password and verifying the same plaintext against the
/// resulting digest always succeeds; if the salt randomness was
/// unavailable, no digest is produced at all.
pub fn hashed_password_verifies(password: &str) -> (ok: Option<bool>)
    ensures
        ok matches Some(b) ==> b,
{
    match hash_password(password) {
        Some(digest) => Some(verify_password(password, digest.as_str())),
        None => None,
    }
}

/// A decimal digit character.
pub open spec fn is_decimal_digit(c: char) -> bool {
    48 <= c as u32 <= 57
}

/// Generate the current one-time code: six decimal digits derived from
/// the secret and the current 30-second time step. Two calls within one
/// step return the same code, so callers store the generated code and
/// compare against the stored copy.
///
/// Relies on `totp_rs`: with six digits configured, the token value is
/// reduced modulo ten to the sixth and formatted zero-padded to width
/// six, so the code is exactly six decimal digits. Fails only if the
/// system clock reads before the Unix epoch.
#[verifier::external_body]
pub fn gen_totp(secret: &[u8]) -> (r: Option<String>)
    requires
        MIN_TOTP_SECRET_LEN <= secret@.len(),
    ensures
        r matches Some(code) ==> code@.len() == 6 && (forall|i: int|
            0 <= i < code@.len() ==> is_decimal_digit(#[trigger] code@[i])),
{
    let totp = totp_rs::Builder::new()
        .with_algorithm(totp_rs::Algorithm::SHA512)
        .with_digits(6)
        .with_skew(1)
        .with_step_duration(30)
        .with_secret(secret.to_vec())
        .build()
        .ok()?;
    let secs = std::time::SystemTime::now().duration_since(std::time::UNIX_EPOCH).ok()?.as_secs();
    Some(totp.generate(secs).to_string())
}

} // verus!
