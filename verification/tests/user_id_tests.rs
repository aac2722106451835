use auth_core::UserId;
use auth_core::parse_user_id;
use auth_core::user_id_bytes;

#[test]
fn spells_canonical_hyphenated_form() {
    let id = UserId { value: 0x123e4567e89b12d3a456426614174000 };
    assert_eq!(
        user_id_bytes(id),
        b"123e4567-e89b-12d3-a456-426614174000".to_vec()
    );
    assert_eq!(
        user_id_bytes(UserId { value: 0 }),
        b"00000000-0000-0000-0000-000000000000".to_vec()
    );
    assert_eq!(
        user_id_bytes(UserId { value: u128::MAX }),
        b"ffffffff-ffff-ffff-ffff-ffffffffffff".to_vec()
    );
}

#[test]
fn spelling_matches_uuid_crate() {
    let value: u128 = 0x67e5504410b1426f9247bb680e5fe0c8;
    let ours = String::from_utf8(user_id_bytes(UserId { value })).unwrap();
    let theirs = uuid::Uuid::from_u128(value).to_string();
    assert_eq!(ours, theirs);
}

#[test]
fn reads_back_what_it_spells() {
    let id = UserId { value: 0xfeedface0123456789abcdef00ff00ff };
    let spelled = user_id_bytes(id);
    assert_eq!(parse_user_id(&spelled), Some(id));
}

#[test]
fn accepts_upper_case_digits() {
    assert_eq!(
        parse_user_id(b"123E4567-E89B-12D3-A456-426614174000"),
        Some(UserId { value: 0x123e4567e89b12d3a456426614174000 })
    );
}

#[test]
fn refuses_what_is_not_a_hyphenated_identifier() {
    assert_eq!(parse_user_id(b""), None);
    assert_eq!(parse_user_id(b"123e4567e89b12d3a456426614174000"), None);
    assert_eq!(parse_user_id(b"123e4567-e89b-12d3-a456-42661417400"), None);
    assert_eq!(parse_user_id(b"123e4567-e89b-12d3-a456-4266141740000"), None);
    assert_eq!(parse_user_id(b"123e4567_e89b-12d3-a456-426614174000"), None);
    assert_eq!(parse_user_id(b"123e4567-e89b-12d3-a456-42661417400g"), None);
    assert_eq!(parse_user_id(b"123e4567-e89b-12d3-a456 426614174000"), None);
}
