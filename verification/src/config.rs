//! Process-wide configuration: signing secrets, token lifetimes, the
//! registration window and the confirmation attempt budget.
//!
//! All of it is supplied by the caller at startup; nothing in the logic
//! reads the environment.

use vstd::prelude::*;

verus! {

/// Default lifetime of an auth-class token, in seconds (ten minutes).
pub const AUTH_TOKEN_LIFETIME: i64 = 600;

/// Default lifetime of a refresh-class token, in seconds (28 days).
pub const REFRESH_TOKEN_LIFETIME: i64 = 28 * 24 * 60 * 60;

/// Default validity window of a pending registration, in seconds
/// (fifteen minutes).
pub const REGISTRATION_WINDOW: i64 = 15 * 60;

/// Default number of confirmation attempts a pending registration allows.
pub const MAX_TRIALS: u32 = 3;

/// Smallest secret, in bytes, the one-time code generator accepts.
pub const MIN_TOTP_SECRET_LEN: usize = 16;

/// Configuration injected into the token codec, the one-time code
/// generator and the flows built on them.
#[derive(Debug, Clone)]
pub struct AuthConfig {
    /// Signing secret of the auth domain.
    pub auth_secret: Vec<u8>,
    /// Signing secret of the refresh domain; independent of the auth one.
    pub refresh_secret: Vec<u8>,
    /// Seed of the one-time code generator.
    pub totp_secret: Vec<u8>,
    /// Lifetime of an auth-class token, in seconds.
    pub auth_token_lifetime: i64,
    /// Lifetime of a refresh-class token, in seconds.
    pub refresh_token_lifetime: i64,
    /// Seconds a pending registration stays confirmable.
    pub registration_window: i64,
    /// Confirmation attempts a pending registration allows.
    pub max_trials: u32,
}

impl AuthConfig {
    /// A usable configuration: positive lifetimes and windows, at least
    /// one allowed attempt, a code seed long enough for the generator,
    /// and independent signing secrets for the two domains — with equal
    /// secrets the domain separation would be void.
    pub open spec fn wf(&self) -> bool {
        &&& 0 < self.auth_token_lifetime
        &&& 0 < self.refresh_token_lifetime
        &&& 0 < self.registration_window
        &&& 0 < self.max_trials
        &&& MIN_TOTP_SECRET_LEN <= self.totp_secret@.len()
        &&& self.auth_secret@ != self.refresh_secret@
    }

    /// Build a configuration with the default lifetimes and budgets.
    pub fn with_defaults(auth_secret: Vec<u8>, refresh_secret: Vec<u8>, totp_secret: Vec<u8>) -> (r: AuthConfig)
        requires
            MIN_TOTP_SECRET_LEN <= totp_secret@.len(),
            auth_secret@ != refresh_secret@,
        ensures
            r.wf(),
            r.auth_secret@ == auth_secret@,
            r.refresh_secret@ == refresh_secret@,
            r.totp_secret@ == totp_secret@,
            r.auth_token_lifetime == AUTH_TOKEN_LIFETIME,
            r.refresh_token_lifetime == REFRESH_TOKEN_LIFETIME,
            r.registration_window == REGISTRATION_WINDOW,
            r.max_trials == MAX_TRIALS,
    {
        AuthConfig {
            auth_secret,
            refresh_secret,
            totp_secret,
            auth_token_lifetime: AUTH_TOKEN_LIFETIME,
            refresh_token_lifetime: REFRESH_TOKEN_LIFETIME,
            registration_window: REGISTRATION_WINDOW,
            max_trials: MAX_TRIALS,
        }
    }
}

} // verus!
