use auth_core::hash_password;
use auth_core::verify_password;

#[test]
fn round_trip_hash_verify() {
    let hash = hash_password("correct horse battery staple").unwrap();
    assert!(verify_password("correct horse battery staple", &hash));
}

#[test]
fn hash_is_self_describing_argon2() {
    let hash = hash_password("pw").unwrap();
    assert!(hash.starts_with("$argon2"));
}

#[test]
fn two_hashes_differ_but_both_verify() {
    let h1 = hash_password("same password").unwrap();
    let h2 = hash_password("same password").unwrap();
    assert_ne!(h1, h2);
    assert!(verify_password("same password", &h1));
    assert!(verify_password("same password", &h2));
}

#[test]
fn wrong_password_rejected() {
    let hash = hash_password("first secret").unwrap();
    assert!(!verify_password("second secret", &hash));
}

#[test]
fn empty_password_round_trips() {
    let hash = hash_password("").unwrap();
    assert!(verify_password("", &hash));
    assert!(!verify_password("x", &hash));
}

#[test]
fn malformed_stored_hash_verifies_nothing() {
    assert!(!verify_password("pw", ""));
    assert!(!verify_password("pw", "not a hash"));
    assert!(!verify_password("pw", "$argon2id$broken"));
}
