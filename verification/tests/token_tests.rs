use base64::Engine;

use auth_core::Config;
use auth_core::TokenError;
use auth_core::UserId;
use auth_core::create_jwt;
use auth_core::issue_token;
use auth_core::validate_token;

fn config_with(secret: &[u8]) -> Config {
    Config::new("postgres://localhost/board".to_string(), secret.to_vec(), 3000)
}

const SAMPLE_ID: u128 = 0x123e4567e89b12d3a456426614174000;
const SAMPLE_ID_TEXT: &str = "123e4567-e89b-12d3-a456-426614174000";

#[test]
fn issued_token_validates_and_names_subject() {
    let config = config_with(b"process secret");
    let now: u64 = 1_700_000_000;
    let token = create_jwt(UserId { value: SAMPLE_ID }, now, &config).unwrap();
    let claims = validate_token(token.as_bytes(), now, b"process secret").unwrap();
    assert_eq!(claims.sub, SAMPLE_ID_TEXT);
    assert_eq!(claims.exp, now + 86400);
}

#[test]
fn token_has_standard_header_segment() {
    let config = config_with(b"process secret");
    let token = create_jwt(UserId { value: SAMPLE_ID }, 1_700_000_000, &config).unwrap();
    assert!(token.starts_with("eyJhbGciOiJIUzI1NiIsInR5cCI6IkpXVCJ9."));
}

#[test]
fn claims_segment_is_base64_of_canonical_json() {
    let config = config_with(b"process secret");
    let now: u64 = 1_700_000_000;
    let token = create_jwt(UserId { value: SAMPLE_ID }, now, &config).unwrap();
    let parts: Vec<&str> = token.split('.').collect();
    assert_eq!(parts.len(), 3);
    let expected_json = format!("{{\"sub\":\"{}\",\"exp\":{}}}", SAMPLE_ID_TEXT, now + 86400);
    let expected_seg = base64::engine::general_purpose::URL_SAFE_NO_PAD.encode(expected_json);
    assert_eq!(parts[1], expected_seg);
}

#[test]
fn signature_checks_out_under_jsonwebtoken() {
    let config = config_with(b"process secret");
    let token = create_jwt(UserId { value: SAMPLE_ID }, 1_700_000_000, &config).unwrap();
    let parts: Vec<&str> = token.split('.').collect();
    let msg = format!("{}.{}", parts[0], parts[1]);
    let key = jsonwebtoken::DecodingKey::from_secret(b"process secret");
    let ok = jsonwebtoken::crypto::verify(
        parts[2],
        msg.as_bytes(),
        &key,
        jsonwebtoken::Algorithm::HS256,
    )
    .unwrap();
    assert!(ok);
}

#[test]
fn validates_until_and_not_past_expiry() {
    let secret = b"process secret";
    let config = config_with(secret);
    let issued_at: u64 = 1_700_000_000;
    let token = create_jwt(UserId { value: SAMPLE_ID }, issued_at, &config).unwrap();
    assert!(validate_token(token.as_bytes(), issued_at, secret).is_ok());
    assert!(validate_token(token.as_bytes(), issued_at + 86399, secret).is_ok());
    assert_eq!(
        validate_token(token.as_bytes(), issued_at + 86400, secret),
        Err(TokenError::Expired)
    );
    assert_eq!(
        validate_token(token.as_bytes(), issued_at + 100_000, secret),
        Err(TokenError::Expired)
    );
}

#[test]
fn flipping_any_bit_in_claims_segment_invalidates_signature() {
    let secret = b"process secret";
    let config = config_with(secret);
    let now: u64 = 1_700_000_000;
    let token = create_jwt(UserId { value: SAMPLE_ID }, now, &config).unwrap();
    let bytes = token.as_bytes();
    let first_dot = token.find('.').unwrap();
    let second_dot = first_dot + 1 + token[first_dot + 1..].find('.').unwrap();
    for pos in first_dot + 1..second_dot {
        for bit in 0..8 {
            let mut tampered = bytes.to_vec();
            tampered[pos] ^= 1u8 << bit;
            let verdict = validate_token(&tampered, now, secret);
            assert!(
                verdict == Err(TokenError::InvalidSignature)
                    || verdict == Err(TokenError::Malformed),
                "tampered claims accepted"
            );
            if tampered[pos] != b'.' && tampered[pos] < 128 {
                assert_eq!(verdict, Err(TokenError::InvalidSignature));
            }
        }
    }
}

#[test]
fn flipping_any_bit_in_signature_segment_is_rejected() {
    let secret = b"process secret";
    let config = config_with(secret);
    let now: u64 = 1_700_000_000;
    let token = create_jwt(UserId { value: SAMPLE_ID }, now, &config).unwrap();
    let bytes = token.as_bytes();
    let first_dot = token.find('.').unwrap();
    let second_dot = first_dot + 1 + token[first_dot + 1..].find('.').unwrap();
    for pos in second_dot + 1..bytes.len() {
        for bit in 0..8 {
            let mut tampered = bytes.to_vec();
            tampered[pos] ^= 1u8 << bit;
            let verdict = validate_token(&tampered, now, secret);
            if tampered[pos] != b'.' {
                assert_eq!(verdict, Err(TokenError::InvalidSignature));
            } else {
                assert_eq!(verdict, Err(TokenError::Malformed));
            }
        }
    }
}

#[test]
fn token_signed_under_other_secret_is_rejected() {
    let config = config_with(b"secret A");
    let now: u64 = 1_700_000_000;
    let token = create_jwt(UserId { value: SAMPLE_ID }, now, &config).unwrap();
    assert_eq!(
        validate_token(token.as_bytes(), now, b"secret B"),
        Err(TokenError::InvalidSignature)
    );
    assert!(validate_token(token.as_bytes(), now, b"secret A").is_ok());
}

#[test]
fn malformed_tokens_are_rejected_as_malformed() {
    let secret = b"process secret";
    let now: u64 = 1_700_000_000;
    assert_eq!(validate_token(b"", now, secret), Err(TokenError::Malformed));
    assert_eq!(validate_token(b"abc", now, secret), Err(TokenError::Malformed));
    assert_eq!(validate_token(b"a.b", now, secret), Err(TokenError::Malformed));
    assert_eq!(validate_token(b"..", now, secret), Err(TokenError::Malformed));
    assert_eq!(validate_token(b".b.c", now, secret), Err(TokenError::Malformed));
    assert_eq!(validate_token(b"a..c", now, secret), Err(TokenError::Malformed));
    assert_eq!(validate_token(b"a.b.", now, secret), Err(TokenError::Malformed));
    assert_eq!(validate_token(b"a.b.c.d", now, secret), Err(TokenError::Malformed));
}

#[test]
fn wrong_signature_is_flagged_before_claims_shape() {
    let secret = b"process secret";
    let now: u64 = 1_700_000_000;
    assert_eq!(
        validate_token(b"AA.BB.CC", now, secret),
        Err(TokenError::InvalidSignature)
    );
}

#[test]
fn well_signed_garbage_claims_are_malformed() {
    let secret = b"process secret";
    let now: u64 = 1_700_000_000;
    let key = jsonwebtoken::EncodingKey::from_secret(secret);
    let sig =
        jsonwebtoken::crypto::sign(b"AA.BB", &key, jsonwebtoken::Algorithm::HS256).unwrap();
    let token = format!("AA.BB.{}", sig);
    assert_eq!(
        validate_token(token.as_bytes(), now, secret),
        Err(TokenError::Malformed)
    );
}

#[test]
fn issue_token_carries_arbitrary_subject() {
    let secret = b"process secret";
    let token = issue_token(b"not-a-uuid", 42, secret).unwrap();
    let claims = validate_token(token.as_bytes(), 41, secret).unwrap();
    assert_eq!(claims.sub, "not-a-uuid");
    assert_eq!(claims.exp, 42);
    assert_eq!(
        validate_token(token.as_bytes(), 42, secret),
        Err(TokenError::Expired)
    );
}

#[test]
fn accepts_token_assembled_from_jsonwebtoken_primitives() {
    let secret = b"interop secret";
    let engine = &base64::engine::general_purpose::URL_SAFE_NO_PAD;
    let header_seg = engine.encode(b"{\"alg\":\"HS256\",\"typ\":\"JWT\"}");
    let claims_seg = engine.encode(b"{\"sub\":\"abc\",\"exp\":100}");
    let msg = format!("{}.{}", header_seg, claims_seg);
    let key = jsonwebtoken::EncodingKey::from_secret(secret);
    let sig =
        jsonwebtoken::crypto::sign(msg.as_bytes(), &key, jsonwebtoken::Algorithm::HS256).unwrap();
    let token = format!("{}.{}", msg, sig);
    let claims = validate_token(token.as_bytes(), 99, secret).unwrap();
    assert_eq!(claims.sub, "abc");
    assert_eq!(claims.exp, 100);
    assert_eq!(
        validate_token(token.as_bytes(), 100, secret),
        Err(TokenError::Expired)
    );
}
