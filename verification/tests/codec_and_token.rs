use authgate::codec::{
    decode_session_blob, decode_user_blob, encode_session_blob, encode_user_blob,
};
use authgate::records::{AuthSession, User};
use authgate::token::{AccessTokenClaims, DecodeError, TokenVerifier};
use authgate::Id;

fn id(n: u128) -> Id {
    Id::from_u128(n)
}

fn sample_session() -> AuthSession {
    AuthSession {
        id: id(0x660e8400e29b41d4a716446655440001),
        user_id: id(0x550e8400e29b41d4a716446655440000),
        created_at: 1_700_000_000,
        last_used_at: Some(1_700_000_123),
        revoked_at: None,
        refresh_token_id: Some(id(42)),
        refresh_token_issued_at: Some(1_700_000_050),
    }
}

#[test]
fn session_blob_roundtrip() {
    let s = sample_session();
    let blob = encode_session_blob(&s);
    assert_eq!(blob.len(), 84);
    assert_eq!(decode_session_blob(&blob), Some(s));
}

#[test]
fn session_blob_roundtrip_with_empty_options() {
    let s = AuthSession {
        id: id(1),
        user_id: id(2),
        created_at: 0,
        last_used_at: None,
        revoked_at: None,
        refresh_token_id: None,
        refresh_token_issued_at: None,
    };
    let blob = encode_session_blob(&s);
    assert_eq!(decode_session_blob(&blob), Some(s));
}

#[test]
fn corrupted_session_blob_is_rejected() {
    let s = sample_session();
    let mut blob = encode_session_blob(&s);
    // wrong length
    blob.pop();
    assert_eq!(decode_session_blob(&blob), None);
    // bad option tag
    let mut blob = encode_session_blob(&s);
    blob[40] = 7;
    assert_eq!(decode_session_blob(&blob), None);
    // arbitrary garbage
    let garbage: Vec<u8> = vec![0xff; 84];
    assert_eq!(decode_session_blob(&garbage), None);
}

#[test]
fn user_blob_roundtrip() {
    let u = User {
        id: id(0x550e8400e29b41d4a716446655440000),
        username: Some(String::from("alice")),
        email: String::from("alice@example.com"),
    };
    let blob = encode_user_blob(&u);
    assert_eq!(decode_user_blob(&blob), Some(u));

    let nameless = User {
        id: id(7),
        username: None,
        email: String::from("x@example.com"),
    };
    let blob = encode_user_blob(&nameless);
    assert_eq!(decode_user_blob(&blob), Some(nameless));
}

#[test]
fn corrupted_user_blob_is_rejected() {
    let u = User {
        id: id(7),
        username: None,
        email: String::from("x@example.com"),
    };
    let mut blob = encode_user_blob(&u);
    blob.truncate(20);
    assert_eq!(decode_user_blob(&blob), None);
    let garbage: Vec<u8> = vec![0x01; 40];
    assert_eq!(decode_user_blob(&garbage), None);
}

fn sample_claims() -> AccessTokenClaims {
    AccessTokenClaims {
        user_id: id(0x550e8400e29b41d4a716446655440000),
        session_id: id(0x660e8400e29b41d4a716446655440001),
        expires_at: 2_000_000_000,
    }
}

#[test]
fn token_roundtrip_yields_the_claims() {
    let verifier = TokenVerifier::new(0x517cc1b727220a95);
    let claims = sample_claims();
    let token = verifier.issue_access_token(claims);
    assert_eq!(token.len(), 96);
    assert!(token.chars().all(|c| c.is_ascii_hexdigit()));
    assert_eq!(verifier.decode_access_token(&token, 1_900_000_000), Ok(claims));
}

#[test]
fn expired_token_is_rejected() {
    let verifier = TokenVerifier::new(1);
    let claims = sample_claims();
    let token = verifier.issue_access_token(claims);
    // the instant of expiry itself is still acceptable
    assert_eq!(
        verifier.decode_access_token(&token, claims.expires_at),
        Ok(claims)
    );
    assert_eq!(
        verifier.decode_access_token(&token, claims.expires_at + 1),
        Err(DecodeError::Expired)
    );
}

#[test]
fn malformed_token_is_rejected() {
    let verifier = TokenVerifier::new(1);
    assert_eq!(
        verifier.decode_access_token("", 0),
        Err(DecodeError::Malformed)
    );
    assert_eq!(
        verifier.decode_access_token("abc", 0),
        Err(DecodeError::Malformed)
    );
    let not_hex: String = "z".repeat(96);
    assert_eq!(
        verifier.decode_access_token(&not_hex, 0),
        Err(DecodeError::Malformed)
    );
    let non_ascii: String = "é".repeat(48);
    assert_eq!(
        verifier.decode_access_token(&non_ascii, 0),
        Err(DecodeError::Malformed)
    );
}

#[test]
fn wrong_key_or_tampering_fails_the_signature() {
    let issuer = TokenVerifier::new(7);
    let other = TokenVerifier::new(8);
    let claims = sample_claims();
    let token = issuer.issue_access_token(claims);
    assert_eq!(
        other.decode_access_token(&token, 0),
        Err(DecodeError::BadSignature)
    );
    // flip one payload character
    let mut chars: Vec<char> = token.chars().collect();
    chars[0] = if chars[0] == '0' { '1' } else { '0' };
    let tampered: String = chars.into_iter().collect();
    assert_eq!(
        issuer.decode_access_token(&tampered, 0),
        Err(DecodeError::BadSignature)
    );
}
