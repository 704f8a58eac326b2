use oclus_server::auth::{login, refresh, register, register_confirm, LoginRequest, RegistrationData};
use oclus_server::config::AuthConfig;
use oclus_server::error::ServiceError;
use oclus_server::store::AuthStore;

fn fixture_config() -> AuthConfig {
    AuthConfig::with_defaults(
        b"auth-domain-signing-secret".to_vec(),
        b"refresh-domain-signing-secret".to_vec(),
        b"one-time-code-seed-0123456789".to_vec(),
    )
}

fn stored_code(store: &AuthStore, row: usize) -> String {
    store.pending_at(row).code.clone()
}

fn confirmed_user(store: &mut AuthStore, cfg: &AuthConfig, email: &str, username: &str, password: &str, now: i64) -> i64 {
    let req_id = register(store, cfg, email.to_string(), now).expect("registration should start");
    let row = {
        let mut found = None;
        for i in 0..store.pending_count() {
            if store.pending_at(i).id == req_id {
                found = Some(i);
                break;
            }
        }
        found.unwrap()
    };
    let code = stored_code(store, row);
    let data = RegistrationData {
        req_id,
        totp: code,
        username: username.to_string(),
        password: password.to_string(),
    };
    register_confirm(store, cfg, data, now).expect("confirmation should succeed").id
}

#[test]
fn test_register() {
    let cfg = fixture_config();
    let mut store = AuthStore::new();
    let r = register(&mut store, &cfg, "test@test.com".to_string(), 1_000);
    assert!(r.is_ok());
}

#[test]
fn test_register_email_conflict() {
    let cfg = fixture_config();
    let mut store = AuthStore::new();
    confirmed_user(&mut store, &cfg, "test@test.com", "test_username", "test_password", 1_000);

    // redo a request with the same email
    let r = register(&mut store, &cfg, "test@test.com".to_string(), 1_010);
    match r {
        Err(ServiceError::Conflict(field)) => {
            assert_eq!(field, "email");
        }
        _ => {
            panic!("Expected Conflict error, got something else");
        }
    }
}

#[test]
fn test_login() {
    let cfg = fixture_config();
    let mut store = AuthStore::new();
    confirmed_user(&mut store, &cfg, "test@test.com", "test_username", "test_password", 1_000);

    // with good credentials
    let good = LoginRequest {
        email: "test@test.com".to_string(),
        password: "test_password".to_string(),
    };
    let r = login(&mut store, &cfg, good, 1_100);
    assert!(r.is_ok());

    // with wrong credentials
    let bad = LoginRequest {
        email: "test@test.com".to_string(),
        password: "wrong_password".to_string(),
    };
    let r = login(&mut store, &cfg, bad, 1_200);
    assert!(matches!(r, Err(ServiceError::Unauthorized)));
}

#[test]
fn test_login_unknown_email() {
    let cfg = fixture_config();
    let mut store = AuthStore::new();
    let r = login(
        &mut store,
        &cfg,
        LoginRequest { email: "nobody@test.com".to_string(), password: "test_password".to_string() },
        1_000,
    );
    assert!(matches!(r, Err(ServiceError::Unauthorized)));
}

#[test]
fn test_confirm_unknown_request() {
    let cfg = fixture_config();
    let mut store = AuthStore::new();
    let data = RegistrationData {
        req_id: 77,
        totp: "000000".to_string(),
        username: "test_username".to_string(),
        password: "test_password".to_string(),
    };
    let r = register_confirm(&mut store, &cfg, data, 1_000);
    assert!(matches!(r, Err(ServiceError::NotFound)));
}

#[test]
fn test_confirm_wrong_code_three_times_exhausts_trials() {
    let cfg = fixture_config();
    let mut store = AuthStore::new();
    let req_id = register(&mut store, &cfg, "a@example.com".to_string(), 1_000).unwrap();
    let correct = stored_code(&store, 0);
    let wrong = if correct == "000000" { "000001" } else { "000000" };

    for _ in 0..3 {
        let data = RegistrationData {
            req_id,
            totp: wrong.to_string(),
            username: "alice".to_string(),
            password: "P@ssword1234".to_string(),
        };
        let r = register_confirm(&mut store, &cfg, data, 1_030);
        assert!(matches!(r, Err(ServiceError::Unauthorized)));
    }

    // fourth attempt with the correct code still fails
    let data = RegistrationData {
        req_id,
        totp: correct,
        username: "alice".to_string(),
        password: "P@ssword1234".to_string(),
    };
    let r = register_confirm(&mut store, &cfg, data, 1_040);
    assert!(matches!(r, Err(ServiceError::Unauthorized)));
}

#[test]
fn test_confirm_after_expiry_window_fails() {
    let cfg = fixture_config();
    let mut store = AuthStore::new();
    let req_id = register(&mut store, &cfg, "a@example.com".to_string(), 1_000).unwrap();
    let correct = stored_code(&store, 0);

    // sixteen minutes later, for a fifteen-minute window
    let data = RegistrationData {
        req_id,
        totp: correct,
        username: "alice".to_string(),
        password: "P@ssword1234".to_string(),
    };
    let r = register_confirm(&mut store, &cfg, data, 1_000 + 16 * 60);
    assert!(matches!(r, Err(ServiceError::Unauthorized)));
}

#[test]
fn test_confirm_at_window_edge_succeeds() {
    let cfg = fixture_config();
    let mut store = AuthStore::new();
    let req_id = register(&mut store, &cfg, "a@example.com".to_string(), 1_000).unwrap();
    let correct = stored_code(&store, 0);
    let data = RegistrationData {
        req_id,
        totp: correct,
        username: "alice".to_string(),
        password: "P@ssword1234".to_string(),
    };
    let r = register_confirm(&mut store, &cfg, data, 1_000 + 15 * 60);
    assert!(r.is_ok());
}

#[test]
fn test_refresh_rotation_invalidates_previous_token() {
    let cfg = fixture_config();
    let mut store = AuthStore::new();
    confirmed_user(&mut store, &cfg, "a@example.com", "alice", "P@ssword1234", 1_000);

    let first = login(
        &mut store,
        &cfg,
        LoginRequest { email: "a@example.com".to_string(), password: "P@ssword1234".to_string() },
        2_000,
    )
    .unwrap();
    let second = login(
        &mut store,
        &cfg,
        LoginRequest { email: "a@example.com".to_string(), password: "P@ssword1234".to_string() },
        2_001,
    )
    .unwrap();
    assert_ne!(first.refresh_token, second.refresh_token);

    // the rotated-out token is refused
    let r = refresh(&mut store, &cfg, first.refresh_token, 2_002);
    assert!(matches!(r, Err(ServiceError::Unauthorized)));

    // the current one rotates to a fresh pair
    let rotated = refresh(&mut store, &cfg, second.refresh_token.clone(), 2_003).unwrap();
    assert_ne!(rotated.refresh_token, second.refresh_token);

    // and rotating makes the one it replaced stale in turn
    let r = refresh(&mut store, &cfg, second.refresh_token, 2_004);
    assert!(matches!(r, Err(ServiceError::Unauthorized)));
}

#[test]
fn test_refresh_rejects_auth_class_token() {
    let cfg = fixture_config();
    let mut store = AuthStore::new();
    confirmed_user(&mut store, &cfg, "a@example.com", "alice", "P@ssword1234", 1_000);
    let pair = login(
        &mut store,
        &cfg,
        LoginRequest { email: "a@example.com".to_string(), password: "P@ssword1234".to_string() },
        2_000,
    )
    .unwrap();

    // an auth-class token is never accepted where a refresh token is expected
    let r = refresh(&mut store, &cfg, pair.auth_token, 2_001);
    assert!(matches!(r, Err(ServiceError::Unauthorized)));
}

#[test]
fn test_full_scenario() {
    let cfg = fixture_config();
    let mut store = AuthStore::new();

    // initiate, then confirm with the correct code
    let req_id = register(&mut store, &cfg, "a@example.com".to_string(), 1_000).unwrap();
    let code = stored_code(&store, 0);
    let identity = register_confirm(
        &mut store,
        &cfg,
        RegistrationData {
            req_id,
            totp: code,
            username: "alice".to_string(),
            password: "P@ssword1234".to_string(),
        },
        1_060,
    )
    .unwrap();
    assert_eq!(identity.email, "a@example.com");
    assert_eq!(identity.username, "alice");

    // login with the right password
    let pair = login(
        &mut store,
        &cfg,
        LoginRequest { email: "a@example.com".to_string(), password: "P@ssword1234".to_string() },
        1_100,
    )
    .unwrap();

    // login with a wrong password
    let r = login(
        &mut store,
        &cfg,
        LoginRequest { email: "a@example.com".to_string(), password: "wrong_password".to_string() },
        1_110,
    );
    assert!(matches!(r, Err(ServiceError::Unauthorized)));

    // refresh with the issued token, then replay the old one
    let new_pair = refresh(&mut store, &cfg, pair.refresh_token.clone(), 1_200).unwrap();
    assert_ne!(new_pair.refresh_token, pair.refresh_token);
    let r = refresh(&mut store, &cfg, pair.refresh_token, 1_210);
    assert!(matches!(r, Err(ServiceError::Unauthorized)));
}
