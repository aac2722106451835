use auth_core::AuthError;
use auth_core::Config;
use auth_core::LoginOutcome;
use auth_core::StoreFault;
use auth_core::User;
use auth_core::UserId;
use auth_core::auth_error_status;
use auth_core::authenticate_request;
use auth_core::create_jwt;
use auth_core::hash_password;
use auth_core::issue_token;
use auth_core::login_result;
use auth_core::resolve_identity;
use auth_core::validate_token;

fn config_with(secret: &[u8]) -> Config {
    Config::new("postgres://localhost/board".to_string(), secret.to_vec(), 3000)
}

fn sample_user(value: u128) -> User {
    User {
        id: UserId { value },
        username: "alice".to_string(),
        password_hash: hash_password("open sesame").unwrap(),
        email: "alice@example.com".to_string(),
        created_at: 1_600_000_000,
        updated_at: 1_600_000_000,
    }
}

#[test]
fn bearer_header_with_valid_token_resolves_subject() {
    let config = config_with(b"process secret");
    let now: u64 = 1_700_000_000;
    let id = UserId { value: 0xfeedface0000000000000000deadbeef };
    let token = create_jwt(id, now, &config).unwrap();
    let header = format!("Bearer {}", token);
    let got = authenticate_request(Some(header.as_bytes()), now + 3600, &config).unwrap();
    assert_eq!(got, id);
}

#[test]
fn absent_header_is_missing_credential() {
    let config = config_with(b"process secret");
    assert_eq!(
        authenticate_request(None, 1_700_000_000, &config),
        Err(AuthError::MissingCredential)
    );
}

#[test]
fn basic_scheme_is_malformed_credential() {
    let config = config_with(b"process secret");
    assert_eq!(
        authenticate_request(Some(b"Basic abc123"), 1_700_000_000, &config),
        Err(AuthError::MalformedCredential)
    );
}

#[test]
fn bearer_scheme_is_case_sensitive_with_single_space() {
    let config = config_with(b"process secret");
    assert_eq!(
        authenticate_request(Some(b"bearer abc.def.ghi"), 1_700_000_000, &config),
        Err(AuthError::MalformedCredential)
    );
    assert_eq!(
        authenticate_request(Some(b"Bearer"), 1_700_000_000, &config),
        Err(AuthError::MalformedCredential)
    );
}

#[test]
fn expired_token_is_rejected_as_expired() {
    let config = config_with(b"process secret");
    let issued_at: u64 = 1_700_000_000;
    let id = UserId { value: 7 };
    let token = create_jwt(id, issued_at, &config).unwrap();
    let header = format!("Bearer {}", token);
    assert_eq!(
        authenticate_request(Some(header.as_bytes()), issued_at + 86400, &config),
        Err(AuthError::Expired)
    );
}

#[test]
fn garbage_token_is_rejected_as_malformed() {
    let config = config_with(b"process secret");
    assert_eq!(
        authenticate_request(Some(b"Bearer notatoken"), 1_700_000_000, &config),
        Err(AuthError::Malformed)
    );
}

#[test]
fn foreign_signature_is_rejected_as_invalid_signature() {
    let config_a = config_with(b"secret A");
    let config_b = config_with(b"secret B");
    let now: u64 = 1_700_000_000;
    let token = create_jwt(UserId { value: 7 }, now, &config_a).unwrap();
    let header = format!("Bearer {}", token);
    assert_eq!(
        authenticate_request(Some(header.as_bytes()), now, &config_b),
        Err(AuthError::InvalidSignature)
    );
}

#[test]
fn non_identifier_subject_is_malformed_subject() {
    let config = config_with(b"process secret");
    let now: u64 = 1_700_000_000;
    let token = issue_token(b"not-a-uuid", now + 86400, b"process secret").unwrap();
    let header = format!("Bearer {}", token);
    assert_eq!(
        authenticate_request(Some(header.as_bytes()), now, &config),
        Err(AuthError::MalformedSubject)
    );
}

#[test]
fn store_outcomes_resolve_identity() {
    let user = sample_user(9);
    let got = resolve_identity(Ok(Some(user))).unwrap();
    assert_eq!(got.0.id, UserId { value: 9 });
    assert_eq!(got.0.username, "alice");
    assert_eq!(
        resolve_identity(Ok(None)).err(),
        Some(AuthError::UnknownSubject)
    );
    assert_eq!(
        resolve_identity(Err(StoreFault)).err(),
        Some(AuthError::StoreUnavailable)
    );
}

#[test]
fn rejections_surface_undifferentiated_but_store_failure_is_server_side() {
    assert_eq!(auth_error_status(AuthError::MissingCredential), 401);
    assert_eq!(auth_error_status(AuthError::MalformedCredential), 401);
    assert_eq!(auth_error_status(AuthError::Malformed), 401);
    assert_eq!(auth_error_status(AuthError::InvalidSignature), 401);
    assert_eq!(auth_error_status(AuthError::Expired), 401);
    assert_eq!(auth_error_status(AuthError::MalformedSubject), 401);
    assert_eq!(auth_error_status(AuthError::UnknownSubject), 401);
    assert_eq!(auth_error_status(AuthError::StoreUnavailable), 500);
}

#[test]
fn login_mints_token_for_verified_password() {
    let config = config_with(b"process secret");
    let now: u64 = 1_700_000_000;
    let user = sample_user(11);
    match login_result(Ok(Some(user)), "open sesame", now, &config) {
        LoginOutcome::LoggedIn(token) => {
            let claims = validate_token(token.as_bytes(), now, b"process secret").unwrap();
            assert_eq!(claims.sub, "00000000-0000-0000-0000-00000000000b");
            assert_eq!(claims.exp, now + 86400);
        },
        _ => panic!("expected a token"),
    }
}

#[test]
fn login_collapses_bad_password_and_unknown_user() {
    let config = config_with(b"process secret");
    let now: u64 = 1_700_000_000;
    let user = sample_user(11);
    assert!(matches!(
        login_result(Ok(Some(user)), "wrong password", now, &config),
        LoginOutcome::InvalidCredentials
    ));
    assert!(matches!(
        login_result(Ok(None), "open sesame", now, &config),
        LoginOutcome::InvalidCredentials
    ));
}

#[test]
fn login_store_failure_is_distinct() {
    let config = config_with(b"process secret");
    assert!(matches!(
        login_result(Err(StoreFault), "open sesame", 1_700_000_000, &config),
        LoginOutcome::StoreFailure
    ));
}

#[test]
fn concurrent_style_requests_do_not_cross_talk() {
    let config = config_with(b"process secret");
    let now: u64 = 1_700_000_000;
    let ids: Vec<UserId> = (0..8u128)
        .map(|k| UserId { value: 0x1000 * k + k + 1 })
        .collect();
    let headers: Vec<String> = ids
        .iter()
        .map(|id| format!("Bearer {}", create_jwt(*id, now, &config).unwrap()))
        .collect();
    for (id, header) in ids.iter().zip(headers.iter()).rev() {
        let got = authenticate_request(Some(header.as_bytes()), now + 5, &config).unwrap();
        assert_eq!(got, *id);
    }
}
