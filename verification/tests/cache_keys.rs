use authgate::cache::{session_cache_key, user_cache_key};
use authgate::Id;

#[test]
fn test_cache_key_generation() {
    let user_id = Id::from_u128(
        uuid::Uuid::parse_str("550e8400-e29b-41d4-a716-446655440000")
            .unwrap()
            .as_u128(),
    );
    let session_id = Id::from_u128(
        uuid::Uuid::parse_str("660e8400-e29b-41d4-a716-446655440001")
            .unwrap()
            .as_u128(),
    );

    assert_eq!(
        user_cache_key(user_id),
        "user:550e8400-e29b-41d4-a716-446655440000"
    );
    assert_eq!(
        session_cache_key(session_id),
        "session:660e8400-e29b-41d4-a716-446655440001"
    );
}

#[test]
fn hyphenated_renders_exact_value() {
    let id = Id::from_u128(0x550e8400e29b41d4a716446655440000);
    assert_eq!(id.hyphenated(), "550e8400-e29b-41d4-a716-446655440000");
    let zero = Id::from_u128(0);
    assert_eq!(zero.hyphenated(), "00000000-0000-0000-0000-000000000000");
}

#[test]
fn id_u128_roundtrip() {
    let v: u128 = 0x0123456789abcdef0fedcba987654321;
    let id = Id::from_u128(v);
    assert_eq!(id.to_u128(), v);
    assert_eq!(id.hi, 0x0123456789abcdef);
    assert_eq!(id.lo, 0x0fedcba987654321);
}
