use oclus_server::account::{create_user, delete_user, get_user, get_user_public, update_user, CreateUserRequest, UpdateUserRequest};
use oclus_server::config::AuthConfig;
use oclus_server::error::ErrorDto;
use oclus_server::middleware::{auth_guard, escalate, resolve_auth_status, strong_auth_guard, AuthStatus};
use oclus_server::jwt::{encode_token, TokenType};
use oclus_server::store::AuthStore;
use oclus_server::validation::ValidatedJson;

fn fixture_config() -> AuthConfig {
    AuthConfig::with_defaults(
        b"auth-domain-signing-secret".to_vec(),
        b"refresh-domain-signing-secret".to_vec(),
        b"one-time-code-seed-0123456789".to_vec(),
    )
}

fn store_with_user(password: &str) -> (AuthStore, i64) {
    let mut store = AuthStore::new();
    let dto = create_user(
        &mut store,
        CreateUserRequest {
            email: "a@example.com".to_string(),
            username: "alice".to_string(),
            password: password.to_string(),
        },
        1_000,
    )
    .expect("creation should succeed");
    (store, dto.id)
}

#[test]
fn test_resolver_attaches_weak_identity() {
    let cfg = fixture_config();
    let token = encode_token(&cfg, 42, &TokenType::Auth, 1_000);
    let header = format!("Bearer {}", token);
    let status = resolve_auth_status(&cfg, Some(&header), 1_100);
    assert_eq!(status, Some(AuthStatus { user_id: 42, strong: false }));
}

#[test]
fn test_resolver_passes_anonymous_through() {
    let cfg = fixture_config();
    // no header at all
    assert_eq!(resolve_auth_status(&cfg, None, 1_000), None);
    // header without the bearer shape
    assert_eq!(resolve_auth_status(&cfg, Some("Basic abc"), 1_000), None);
    // bearer, but not a valid token
    assert_eq!(resolve_auth_status(&cfg, Some("Bearer junk"), 1_000), None);
    // bearer with a refresh-class token where an auth-class one is expected
    let refresh = encode_token(&cfg, 42, &TokenType::Refresh, 1_000);
    let header = format!("Bearer {}", refresh);
    assert_eq!(resolve_auth_status(&cfg, Some(&header), 1_100), None);
    // bearer with an expired auth token
    let auth = encode_token(&cfg, 42, &TokenType::Auth, 1_000);
    let header = format!("Bearer {}", auth);
    assert_eq!(resolve_auth_status(&cfg, Some(&header), 1_000 + 601), None);
}

#[test]
fn test_escalate_upgrades_only_on_correct_password() {
    let (store, uid) = store_with_user("P@ssword1234");
    let weak = Some(AuthStatus { user_id: uid, strong: false });

    // correct password upgrades
    let strong = escalate(&store, weak, Some("P@ssword1234"));
    assert_eq!(strong, Some(AuthStatus { user_id: uid, strong: true }));

    // wrong password leaves the weak status in place
    assert_eq!(escalate(&store, weak, Some("wrong_password")), weak);

    // no password leaves it in place
    assert_eq!(escalate(&store, weak, None), weak);

    // a password with no attached identity never creates one
    assert_eq!(escalate(&store, None, Some("P@ssword1234")), None);

    // an unknown subject stays weak
    let ghostly = Some(AuthStatus { user_id: uid + 1, strong: false });
    assert_eq!(escalate(&store, ghostly, Some("P@ssword1234")), ghostly);
}

#[test]
fn test_guards() {
    let weak = Some(AuthStatus { user_id: 7, strong: false });
    let strong = Some(AuthStatus { user_id: 7, strong: true });

    assert_eq!(auth_guard(&None).unwrap_err(), ErrorDto::InvalidCredentials);
    assert_eq!(auth_guard(&weak).unwrap().user_id, 7);
    assert_eq!(auth_guard(&strong).unwrap().user_id, 7);

    assert_eq!(strong_auth_guard(&None).unwrap_err(), ErrorDto::InvalidCredentials);
    assert_eq!(strong_auth_guard(&weak).unwrap_err(), ErrorDto::InvalidCredentials);
    assert_eq!(strong_auth_guard(&strong).unwrap().user_id, 7);
}

#[test]
fn test_strong_tier_required_for_deletion() {
    let (mut store, uid) = store_with_user("P@ssword1234");
    let weak = Some(AuthStatus { user_id: uid, strong: false });

    // weak tier: refused, identity untouched
    assert_eq!(delete_user(&mut store, &weak), Err(ErrorDto::InvalidCredentials));
    assert!(get_user(&store, &weak).is_ok());

    // wrong password never reaches strong, so still refused
    let status = escalate(&store, weak, Some("wrong_password"));
    assert_eq!(delete_user(&mut store, &status), Err(ErrorDto::InvalidCredentials));
    assert!(get_user(&store, &weak).is_ok());

    // correct password escalates, and deletion goes through
    let status = escalate(&store, weak, Some("P@ssword1234"));
    assert_eq!(delete_user(&mut store, &status), Ok(()));
    assert_eq!(get_user(&store, &weak), Err(ErrorDto::NotFound));
}

#[test]
fn test_strong_tier_required_for_update() {
    let (mut store, uid) = store_with_user("P@ssword1234");
    let weak = Some(AuthStatus { user_id: uid, strong: false });
    let request = UpdateUserRequest {
        email: Some("b@example.com".to_string()),
        username: None,
    };

    // weak tier: refused, identity untouched
    assert_eq!(update_user(&mut store, &weak, request.clone()), Err(ErrorDto::InvalidCredentials));
    assert_eq!(get_user(&store, &weak).unwrap().username, "alice");

    // strong tier: the update applies
    let strong = escalate(&store, weak, Some("P@ssword1234"));
    let dto = update_user(
        &mut store,
        &strong,
        UpdateUserRequest { email: None, username: Some("alicia".to_string()) },
    )
    .unwrap();
    assert_eq!(dto.username, "alicia");
    assert_eq!(dto.email, "a@example.com");
    assert_eq!(get_user(&store, &weak).unwrap().username, "alicia");
}

#[test]
fn test_update_email_conflict() {
    let (mut store, uid) = store_with_user("P@ssword1234");
    create_user(
        &mut store,
        CreateUserRequest {
            email: "b@example.com".to_string(),
            username: "bob".to_string(),
            password: "P@ssword5678".to_string(),
        },
        1_001,
    )
    .unwrap();

    let strong = Some(AuthStatus { user_id: uid, strong: true });
    let r = update_user(
        &mut store,
        &strong,
        UpdateUserRequest { email: Some("b@example.com".to_string()), username: None },
    );
    assert_eq!(r.unwrap_err(), ErrorDto::Conflict("email".to_string()));

    // keeping one's own email is no conflict
    let r = update_user(
        &mut store,
        &strong,
        UpdateUserRequest { email: Some("a@example.com".to_string()), username: None },
    );
    assert!(r.is_ok());
}

#[test]
fn test_create_user_email_conflict() {
    let (mut store, _uid) = store_with_user("P@ssword1234");
    let r = create_user(
        &mut store,
        CreateUserRequest {
            email: "a@example.com".to_string(),
            username: "another_alice".to_string(),
            password: "P@ssword5678".to_string(),
        },
        1_002,
    );
    assert_eq!(r.unwrap_err(), ErrorDto::Conflict("email".to_string()));
}

#[test]
fn test_public_profile_requires_identity() {
    let (store, uid) = store_with_user("P@ssword1234");
    let weak = Some(AuthStatus { user_id: uid, strong: false });

    assert_eq!(get_user_public(&store, &None, uid), Err(ErrorDto::InvalidCredentials));
    let dto = get_user_public(&store, &weak, uid).unwrap();
    assert_eq!(dto.id, uid);
    assert_eq!(dto.username, "alice");
    assert_eq!(get_user_public(&store, &weak, uid + 5), Err(ErrorDto::NotFound));
}

#[test]
fn test_validated_json_into_inner() {
    let wrapped = ValidatedJson(41i64);
    assert_eq!(wrapped.into_inner(), 41);
}
