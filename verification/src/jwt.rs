//! Signed, expiring bearer tokens with two independent signing domains.
//!
//! A token carries a subject identifier, an issue time and an expiry.
//! The auth and refresh domains use independent secrets and lifetimes,
//! so a decode call scoped to one domain accepts a token only if the
//! token's signature verifies under that domain's own key. Decoding
//! fails closed: a signature mismatch, a malformed token or a passed
//! expiry all yield no identity.

use vstd::prelude::*;

use crate::config::AuthConfig;

verus! {

/// The two signing domains.
#[derive(Debug, Clone, Copy, PartialEq, Eq)]
pub enum TokenType {
    Auth,
    Refresh,
}

/// Claims carried by a token: subject identifier, issued-at and expiry
/// (both seconds since the Unix epoch).
#[derive(Debug, Clone, Copy, PartialEq, Eq, Structural)]
pub struct Claims {
    pub sub: i64,
    pub iat: i64,
    pub exp: i64,
}

/// An auth-class token together with the refresh-class token issued in
/// the same operation.
#[derive(Debug, Clone)]
pub struct TokenPair {
    pub auth_token: String,
    pub refresh_token: String,
}

/// The token string that signing the claims `(sub, iat, exp)` under a
/// key produces: a pure function of the claims and the key.
pub uninterp spec fn jwt_token_of(sub: i64, iat: i64, exp: i64, key: Seq<u8>) -> Seq<char>;

/// The claims that signature verification under a key extracts from a
/// token string, or nothing if the signature or shape is invalid: a pure
/// function of the token and the key. Expiry plays no part here.
pub uninterp spec fn jwt_claims_of(token: Seq<char>, key: Seq<u8>) -> Option<(i64, i64, i64)>;

/// Sign the claims under the key.
///
/// Relies on `jsonwebtoken::encode` with the default HMAC-SHA256 header:
/// the payload is a deterministic serialization of the three claims and
/// the signature is a pure function of payload and key, and
/// `jsonwebtoken::decode` under the same key recovers exactly these
/// claims. For an HMAC secret the call cannot fail: the key family
/// always matches the header's, and the HMAC signer accepts keys of any
/// length and always produces a tag.
#[verifier::external_body]
fn jwt_encode(sub: i64, iat: i64, exp: i64, key: &[u8]) -> (t: String)
    ensures
        t@ == jwt_token_of(sub, iat, exp, key@),
        jwt_claims_of(t@, key@) == Some((sub, iat, exp)),
{
    let mut claims = std::collections::BTreeMap::new();
    claims.insert("sub", sub);
    claims.insert("iat", iat);
    claims.insert("exp", exp);
    jsonwebtoken::encode(
        &jsonwebtoken::Header::default(),
        &claims,
        &jsonwebtoken::EncodingKey::from_secret(key),
    )
    .expect("signing with an HMAC secret cannot fail")
}

/// Check the token's signature under the key and extract its claims.
///
/// Relies on `jsonwebtoken::decode` restricted to HMAC-SHA256, with
/// clock-based checks disabled so that the outcome depends on the token
/// and the key alone; any signature mismatch, malformed part or missing
/// claim yields nothing.
#[verifier::external_body]
fn jwt_decode(token: &str, key: &[u8]) -> (r: Option<Claims>)
    ensures
        match r {
            Some(c) => jwt_claims_of(token@, key@) == Some((c.sub, c.iat, c.exp)),
            None => jwt_claims_of(token@, key@) is None,
        },
{
    let mut validation = jsonwebtoken::Validation::new(jsonwebtoken::Algorithm::HS256);
    validation.validate_exp = false;
    validation.required_spec_claims = std::collections::HashSet::new();
    let data = jsonwebtoken::decode::<std::collections::BTreeMap<String, i64>>(
        token,
        &jsonwebtoken::DecodingKey::from_secret(key),
        &validation,
    )
    .ok()?;
    Some(Claims {
        sub: *data.claims.get("sub")?,
        iat: *data.claims.get("iat")?,
        exp: *data.claims.get("exp")?,
    })
}

/// The signing key a domain uses.
pub open spec fn spec_domain_key(cfg: AuthConfig, token_type: TokenType) -> Seq<u8> {
    match token_type {
        TokenType::Auth => cfg.auth_secret@,
        TokenType::Refresh => cfg.refresh_secret@,
    }
}

/// The lifetime, in seconds, of tokens of a domain.
pub open spec fn spec_lifetime(cfg: AuthConfig, token_type: TokenType) -> i64 {
    match token_type {
        TokenType::Auth => cfg.auth_token_lifetime,
        TokenType::Refresh => cfg.refresh_token_lifetime,
    }
}

/// The signing secret configured for a domain.
fn secret_key<'a>(cfg: &'a AuthConfig, token_type: &TokenType) -> (key: &'a Vec<u8>)
    ensures
        key@ == spec_domain_key(*cfg, *token_type),
{
    match token_type {
        TokenType::Auth => &cfg.auth_secret,
        TokenType::Refresh => &cfg.refresh_secret,
    }
}

/// What decoding a token under a domain at a given time yields: the
/// claims extracted under that domain's own key, and only while the
/// expiry has not passed.
pub open spec fn spec_decode_token(cfg: AuthConfig, token: Seq<char>, token_type: TokenType, now: i64) -> Option<Claims> {
    match jwt_claims_of(token, spec_domain_key(cfg, token_type)) {
        Some(c) => if now <= c.2 {
            Some(Claims { sub: c.0, iat: c.1, exp: c.2 })
        } else {
            None
        },
        None => None,
    }
}

/// Issue a token of the given domain for a subject: issued now, expiring
/// after the domain's configured lifetime.
pub fn encode_token(cfg: &AuthConfig, user_id: i64, token_type: &TokenType, now: i64) -> (t: String)
    requires
        cfg.wf(),
        0 <= now,
        now + spec_lifetime(*cfg, *token_type) <= i64::MAX,
    ensures
        ({
            let key = spec_domain_key(*cfg, *token_type);
            let exp = now + spec_lifetime(*cfg, *token_type);
            &&& t@ == jwt_token_of(user_id, now, exp as i64, key)
            &&& jwt_claims_of(t@, key) == Some((user_id, now, exp as i64))
            &&& spec_decode_token(*cfg, t@, *token_type, now) == Some(Claims { sub: user_id, iat: now, exp: exp as i64 })
        }),
{
    let lifetime = match token_type {
        TokenType::Auth => cfg.auth_token_lifetime,
        TokenType::Refresh => cfg.refresh_token_lifetime,
    };
    let exp = now + lifetime;
    jwt_encode(user_id, now, exp, secret_key(cfg, token_type).as_slice())
}

/// Decode a token under a domain, yielding its claims only if the
/// signature verifies under that domain's key and the expiry has not
/// passed. Any failure yields no identity.
pub fn decode_token(cfg: &AuthConfig, token: &str, token_type: &TokenType, now: i64) -> (r: Option<Claims>)
    ensures
        r == spec_decode_token(*cfg, token@, *token_type, now),
{
    match jwt_decode(token, secret_key(cfg, token_type).as_slice()) {
        Some(c) => {
            if now <= c.exp {
                Some(c)
            } else {
                None
            }
        },
        None => None,
    }
}

/// Issue an {auth, refresh} pair for a subject at the given time.
pub fn generate_token_pair(cfg: &AuthConfig, user_id: i64, now: i64) -> (pair: TokenPair)
    requires
        cfg.wf(),
        0 <= now,
        now + cfg.auth_token_lifetime <= i64::MAX,
        now + cfg.refresh_token_lifetime <= i64::MAX,
    ensures
        ({
            let auth_exp = (now + cfg.auth_token_lifetime) as i64;
            let refresh_exp = (now + cfg.refresh_token_lifetime) as i64;
            &&& pair.auth_token@ == jwt_token_of(user_id, now, auth_exp, cfg.auth_secret@)
            &&& pair.refresh_token@ == jwt_token_of(user_id, now, refresh_exp, cfg.refresh_secret@)
            &&& jwt_claims_of(pair.auth_token@, cfg.auth_secret@) == Some((user_id, now, auth_exp))
            &&& jwt_claims_of(pair.refresh_token@, cfg.refresh_secret@) == Some((user_id, now, refresh_exp))
        }),
{
    let auth_token = encode_token(cfg, user_id, &TokenType::Auth, now);
    let refresh_token = encode_token(cfg, user_id, &TokenType::Refresh, now);
    TokenPair { auth_token, refresh_token }
}

/// A token is never accepted once its lifetime has elapsed: whatever
/// claims a token carries under a domain's key, decoding it at any time
/// past the expiry yields no identity; a token carrying no valid claims
/// yields none at any time.
pub proof fn lemma_expired_token_yields_no_identity(cfg: AuthConfig, token: Seq<char>, token_type: TokenType, now: i64)
    requires
        match jwt_claims_of(token, spec_domain_key(cfg, token_type)) {
            Some(c) => now > c.2,
            None => true,
        },
    ensures
        spec_decode_token(cfg, token, token_type, now) is None,
{
}

/// A decode call scoped to one domain accepts a token only on that
/// domain's own authority: acceptance means the token's claims verify
/// under the scoped domain's key and the expiry has not passed. In
/// particular, a token whose signature does not verify under that key
/// — which is how signature verification reports one signed under an
/// independent key — is never accepted, however well-formed it is.
pub proof fn lemma_domain_scoped_acceptance(cfg: AuthConfig, token: Seq<char>, token_type: TokenType, now: i64)
    ensures
        match spec_decode_token(cfg, token, token_type, now) {
            Some(c) => jwt_claims_of(token, spec_domain_key(cfg, token_type)) == Some(
                (c.sub, c.iat, c.exp),
            ) && now <= c.exp,
            None => true,
        },
        jwt_claims_of(token, spec_domain_key(cfg, token_type)) is None ==> spec_decode_token(
            cfg,
            token,
            token_type,
            now,
        ) is None,
{
}

} // verus!
