use oclus_server::config::{AuthConfig, AUTH_TOKEN_LIFETIME};
use oclus_server::crypto::{gen_totp, hash_password, hashed_password_verifies, verify_password};
use oclus_server::error::{ErrorDto, ServiceError};
use oclus_server::jwt::{decode_token, encode_token, generate_token_pair, TokenType};

fn fixture_config() -> AuthConfig {
    AuthConfig::with_defaults(
        b"auth-domain-signing-secret".to_vec(),
        b"refresh-domain-signing-secret".to_vec(),
        b"one-time-code-seed-0123456789".to_vec(),
    )
}

#[test]
fn test_hash_then_verify_same_plaintext() {
    let digest = hash_password("P@ssword1234").expect("hashing should succeed");
    assert_ne!(digest, "P@ssword1234");
    assert!(verify_password("P@ssword1234", &digest));
    assert_eq!(hashed_password_verifies("P@ssword1234"), Some(true));
}

#[test]
fn test_verify_other_plaintext_fails() {
    let digest = hash_password("P@ssword1234").expect("hashing should succeed");
    assert!(!verify_password("P@ssword1235", &digest));
    assert!(!verify_password("", &digest));
}

#[test]
fn test_verify_malformed_digest_is_false_not_an_error() {
    assert!(!verify_password("P@ssword1234", "not-a-digest"));
    assert!(!verify_password("P@ssword1234", ""));
}

#[test]
fn test_token_round_trip() {
    let cfg = fixture_config();
    let token = encode_token(&cfg, 42, &TokenType::Auth, 1_000);
    let claims = decode_token(&cfg, &token, &TokenType::Auth, 1_000).unwrap();
    assert_eq!(claims.sub, 42);
    assert_eq!(claims.iat, 1_000);
    assert_eq!(claims.exp, 1_000 + AUTH_TOKEN_LIFETIME);
}

#[test]
fn test_cross_domain_token_rejected() {
    let cfg = fixture_config();
    let auth_token = encode_token(&cfg, 42, &TokenType::Auth, 1_000);
    let refresh_token = encode_token(&cfg, 42, &TokenType::Refresh, 1_000);
    assert!(decode_token(&cfg, &auth_token, &TokenType::Refresh, 1_001).is_none());
    assert!(decode_token(&cfg, &refresh_token, &TokenType::Auth, 1_001).is_none());
}

#[test]
fn test_expired_token_yields_no_identity() {
    let cfg = fixture_config();
    let token = encode_token(&cfg, 42, &TokenType::Auth, 1_000);
    let exp = 1_000 + AUTH_TOKEN_LIFETIME;
    assert!(decode_token(&cfg, &token, &TokenType::Auth, exp).is_some());
    assert!(decode_token(&cfg, &token, &TokenType::Auth, exp + 1).is_none());
    assert!(decode_token(&cfg, &token, &TokenType::Auth, exp + 1_000_000).is_none());
}

#[test]
fn test_garbage_token_yields_no_identity() {
    let cfg = fixture_config();
    assert!(decode_token(&cfg, "", &TokenType::Auth, 1_000).is_none());
    assert!(decode_token(&cfg, "not-a-token", &TokenType::Auth, 1_000).is_none());
    assert!(decode_token(&cfg, "a.b.c", &TokenType::Refresh, 1_000).is_none());
}

#[test]
fn test_tampered_token_yields_no_identity() {
    let cfg = fixture_config();
    let token = encode_token(&cfg, 42, &TokenType::Auth, 1_000);
    let mut tampered = token.clone();
    let last = tampered.pop().unwrap();
    tampered.push(if last == 'A' { 'B' } else { 'A' });
    assert!(decode_token(&cfg, &tampered, &TokenType::Auth, 1_000).is_none());
}

#[test]
fn test_generate_token_pair_tokens_differ() {
    let cfg = fixture_config();
    let pair = generate_token_pair(&cfg, 7, 1_000);
    assert_ne!(pair.auth_token, pair.refresh_token);
    assert_eq!(decode_token(&cfg, &pair.auth_token, &TokenType::Auth, 1_000).unwrap().sub, 7);
    assert_eq!(decode_token(&cfg, &pair.refresh_token, &TokenType::Refresh, 1_000).unwrap().sub, 7);
}

#[test]
fn test_gen_totp_is_six_digits() {
    let code = gen_totp(b"one-time-code-seed-0123456789").expect("code generation should succeed");
    assert_eq!(code.len(), 6);
    assert!(code.chars().all(|c| c.is_ascii_digit()));
}

#[test]
fn test_status_codes() {
    assert_eq!(ServiceError::InternalServer.status_code(), 500);
    assert_eq!(ServiceError::Unauthorized.status_code(), 401);
    assert_eq!(ServiceError::NotFound.status_code(), 404);
    assert_eq!(ServiceError::Conflict("email".to_string()).status_code(), 409);

    assert_eq!(ErrorDto::Internal.status_code(), 500);
    assert_eq!(ErrorDto::InvalidData.status_code(), 400);
    assert_eq!(ErrorDto::InvalidCredentials.status_code(), 401);
    assert_eq!(ErrorDto::NotFound.status_code(), 404);
    assert_eq!(ErrorDto::Conflict("email".to_string()).status_code(), 409);
}

#[test]
fn test_service_error_maps_to_wire_error() {
    assert_eq!(ErrorDto::of_service(ServiceError::InternalServer), ErrorDto::Internal);
    assert_eq!(ErrorDto::of_service(ServiceError::Unauthorized), ErrorDto::InvalidCredentials);
    assert_eq!(ErrorDto::of_service(ServiceError::NotFound), ErrorDto::NotFound);
    assert_eq!(
        ErrorDto::of_service(ServiceError::Conflict("email".to_string())),
        ErrorDto::Conflict("email".to_string())
    );
}
