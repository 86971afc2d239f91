//! The access-credential verifier: stateless validation of a bearer
//! credential's integrity tag and expiry, and extraction of its claims.
//!
//! A credential is 96 lower-case hex characters: the user identifier,
//! the session identifier, the expiry instant, and a keyed integrity
//! tag over those claims.  Decoding never fails with anything but a
//! decode error, and callers treat every decode error as
//! "unauthenticated".

use vstd::prelude::*;

use crate::hex::{
    hex_valid, is_hex_char, lemma_hex_digits_from_hex, lemma_pow16_16, parse_hex16,
    push_hex_digits, spec_from_hex, spec_hex_digits,
};
use crate::ids::Id;

verus! {

/// Claims carried by an access credential.
#[derive(Clone, Copy, Debug, PartialEq, Eq, Structural)]
pub struct AccessTokenClaims {
    pub user_id: Id,
    pub session_id: Id,
    pub expires_at: i64,
}

/// Why a credential was rejected; the distinction is for logs only
/// and is never surfaced to callers.
#[derive(Clone, Copy, Debug, PartialEq, Eq, Structural)]
pub enum DecodeError {
    Malformed,
    BadSignature,
    Expired,
}

/// One step of the keyed integrity tag.
pub open spec fn spec_tag_step(h: u64, x: u64) -> u64 {
    (((h as u128) * 0x100000001b3 + (x as u128)) % 0x10000000000000000) as u64
}

/// The integrity tag of a credential's claims under `key`.
pub open spec fn spec_tag(key: u64, uhi: u64, ulo: u64, shi: u64, slo: u64, exp: u64) -> u64 {
    spec_tag_step(
        spec_tag_step(spec_tag_step(spec_tag_step(spec_tag_step(key, uhi), ulo), shi), slo),
        exp,
    )
}

/// The 96 hex characters of a credential under `key`.
pub open spec fn spec_token_chars(key: u64, c: AccessTokenClaims) -> Seq<char> {
    spec_hex_digits(c.user_id.hi, 16) + spec_hex_digits(c.user_id.lo, 16) + spec_hex_digits(
        c.session_id.hi,
        16,
    ) + spec_hex_digits(c.session_id.lo, 16) + spec_hex_digits(c.expires_at as u64, 16)
        + spec_hex_digits(
        spec_tag(
            key,
            c.user_id.hi,
            c.user_id.lo,
            c.session_id.hi,
            c.session_id.lo,
            c.expires_at as u64,
        ),
        16,
    )
}

/// The hex field `k` (16 characters wide) of a 96-character credential.
pub open spec fn spec_token_field(s: Seq<char>, k: int) -> u64 {
    spec_from_hex(s.subrange(16 * k, 16 * k + 16)) as u64
}

/// The deterministic decoder: checks shape, tag, and expiry against
/// `now`, in that order, and yields the claims.
pub open spec fn spec_decode_token(key: u64, s: Seq<char>, now: i64) -> Result<
    AccessTokenClaims,
    DecodeError,
> {
    if s.len() != 96 || !hex_valid(s) {
        Err(DecodeError::Malformed)
    } else {
        let uhi = spec_token_field(s, 0);
        let ulo = spec_token_field(s, 1);
        let shi = spec_token_field(s, 2);
        let slo = spec_token_field(s, 3);
        let exp_u = spec_token_field(s, 4);
        let tag = spec_token_field(s, 5);
        if tag != spec_tag(key, uhi, ulo, shi, slo, exp_u) {
            Err(DecodeError::BadSignature)
        } else if exp_u > i64::MAX as u64 {
            Err(DecodeError::Malformed)
        } else if (exp_u as i64) < now {
            Err(DecodeError::Expired)
        } else {
            Ok(
                AccessTokenClaims {
                    user_id: Id { hi: uhi, lo: ulo },
                    session_id: Id { hi: shi, lo: slo },
                    expires_at: exp_u as i64,
                },
            )
        }
    }
}

/// One step of the keyed integrity tag.
fn tag_step(h: u64, x: u64) -> (r: u64)
    ensures
        r == spec_tag_step(h, x),
{
    (((h as u128) * 0x100000001b3 + (x as u128)) % 0x10000000000000000) as u64
}

/// The integrity tag of a credential's claims under `key`.
fn tag_of(key: u64, uhi: u64, ulo: u64, shi: u64, slo: u64, exp: u64) -> (r: u64)
    ensures
        r == spec_tag(key, uhi, ulo, shi, slo, exp),
{
    tag_step(tag_step(tag_step(tag_step(tag_step(key, uhi), ulo), shi), slo), exp)
}

/// The stateless credential verifier; `key` parameterizes the
/// integrity tag.
pub struct TokenVerifier {
    pub key: u64,
}

impl TokenVerifier {
    pub fn new(key: u64) -> (r: TokenVerifier)
        ensures
            r.key == key,
    {
        TokenVerifier { key }
    }

    /// Renders a credential for the claims; the issuing side of the
    /// format, the exact counterpart of [`Self::decode_access_token`].
    pub fn issue_access_token(&self, c: AccessTokenClaims) -> (r: String)
        requires
            0 <= c.expires_at,
        ensures
            r@ == spec_token_chars(self.key, c),
    {
        let mut s = String::new();
        push_hex_digits(&mut s, c.user_id.hi, 16);
        push_hex_digits(&mut s, c.user_id.lo, 16);
        push_hex_digits(&mut s, c.session_id.hi, 16);
        push_hex_digits(&mut s, c.session_id.lo, 16);
        push_hex_digits(&mut s, c.expires_at as u64, 16);
        let t = tag_of(
            self.key,
            c.user_id.hi,
            c.user_id.lo,
            c.session_id.hi,
            c.session_id.lo,
            c.expires_at as u64,
        );
        push_hex_digits(&mut s, t, 16);
        proof {
            assert(s@ =~= spec_token_chars(self.key, c));
        }
        s
    }

    /// Validates a presented credential and extracts its claims; pure,
    /// with no side effects.
    pub fn decode_access_token(&self, token: &str, now: i64) -> (r: Result<
        AccessTokenClaims,
        DecodeError,
    >)
        ensures
            r == spec_decode_token(self.key, token@, now),
    {
        let ghost s = token@;
        if !token.is_ascii() {
            proof {
                let i = choose|i: int| 0 <= i < s.len() && !('\0' <= #[trigger] s[i] <= '\u{7f}');
                if s.len() == 96 {
                    assert(!is_hex_char(s[i]));
                }
            }
            return Err(DecodeError::Malformed);
        }
        let n = token.unicode_len();
        if n != 96 {
            return Err(DecodeError::Malformed);
        }
        let uhi = match parse_hex16(token, 0) {
            Some(v) => v,
            None => {
                return Err(DecodeError::Malformed);
            },
        };
        let ulo = match parse_hex16(token, 16) {
            Some(v) => v,
            None => {
                return Err(DecodeError::Malformed);
            },
        };
        let shi = match parse_hex16(token, 32) {
            Some(v) => v,
            None => {
                return Err(DecodeError::Malformed);
            },
        };
        let slo = match parse_hex16(token, 48) {
            Some(v) => v,
            None => {
                return Err(DecodeError::Malformed);
            },
        };
        let exp_u = match parse_hex16(token, 64) {
            Some(v) => v,
            None => {
                return Err(DecodeError::Malformed);
            },
        };
        let tag = match parse_hex16(token, 80) {
            Some(v) => v,
            None => {
                return Err(DecodeError::Malformed);
            },
        };
        proof {
            assert forall|i: int| 0 <= i < 96 implies is_hex_char(#[trigger] s[i]) by {
                if i < 16 {
                    assert(s[i] == s.subrange(0, 16)[i]);
                } else if i < 32 {
                    assert(s[i] == s.subrange(16, 32)[i - 16]);
                } else if i < 48 {
                    assert(s[i] == s.subrange(32, 48)[i - 32]);
                } else if i < 64 {
                    assert(s[i] == s.subrange(48, 64)[i - 48]);
                } else if i < 80 {
                    assert(s[i] == s.subrange(64, 80)[i - 64]);
                } else {
                    assert(s[i] == s.subrange(80, 96)[i - 80]);
                }
            }
            assert(hex_valid(s));
        }
        let expect = tag_of(self.key, uhi, ulo, shi, slo, exp_u);
        if tag != expect {
            return Err(DecodeError::BadSignature);
        }
        if exp_u > 0x7fffffffffffffff {
            return Err(DecodeError::Malformed);
        }
        let exp = exp_u as i64;
        if exp < now {
            return Err(DecodeError::Expired);
        }
        Ok(
            AccessTokenClaims {
                user_id: Id { hi: uhi, lo: ulo },
                session_id: Id { hi: shi, lo: slo },
                expires_at: exp,
            },
        )
    }
}

/// A credential decodes back to the claims it was issued for while it
/// is not yet expired, and to an expiry rejection afterwards.
pub proof fn lemma_token_roundtrip(key: u64, c: AccessTokenClaims, now: i64)
    requires
        0 <= c.expires_at,
    ensures
        spec_decode_token(key, spec_token_chars(key, c), now) == (if now <= c.expires_at {
            Ok::<AccessTokenClaims, DecodeError>(c)
        } else {
            Err::<AccessTokenClaims, DecodeError>(DecodeError::Expired)
        }),
{
    lemma_pow16_16();
    let s = spec_token_chars(key, c);
    let exp_u = c.expires_at as u64;
    let t = spec_tag(key, c.user_id.hi, c.user_id.lo, c.session_id.hi, c.session_id.lo, exp_u);
    lemma_hex_digits_from_hex(c.user_id.hi, 16);
    lemma_hex_digits_from_hex(c.user_id.lo, 16);
    lemma_hex_digits_from_hex(c.session_id.hi, 16);
    lemma_hex_digits_from_hex(c.session_id.lo, 16);
    lemma_hex_digits_from_hex(exp_u, 16);
    lemma_hex_digits_from_hex(t, 16);
    assert(s.len() == 96);
    assert(s.subrange(0, 16) =~= spec_hex_digits(c.user_id.hi, 16));
    assert(s.subrange(16, 32) =~= spec_hex_digits(c.user_id.lo, 16));
    assert(s.subrange(32, 48) =~= spec_hex_digits(c.session_id.hi, 16));
    assert(s.subrange(48, 64) =~= spec_hex_digits(c.session_id.lo, 16));
    assert(s.subrange(64, 80) =~= spec_hex_digits(exp_u, 16));
    assert(s.subrange(80, 96) =~= spec_hex_digits(t, 16));
    assert forall|i: int| 0 <= i < 96 implies is_hex_char(#[trigger] s[i]) by {
        if i < 16 {
            assert(s[i] == s.subrange(0, 16)[i]);
        } else if i < 32 {
            assert(s[i] == s.subrange(16, 32)[i - 16]);
        } else if i < 48 {
            assert(s[i] == s.subrange(32, 48)[i - 32]);
        } else if i < 64 {
            assert(s[i] == s.subrange(48, 64)[i - 48]);
        } else if i < 80 {
            assert(s[i] == s.subrange(64, 80)[i - 64]);
        } else {
            assert(s[i] == s.subrange(80, 96)[i - 80]);
        }
    }
    assert(hex_valid(s));
    assert(spec_token_field(s, 0) == c.user_id.hi);
    assert(spec_token_field(s, 1) == c.user_id.lo);
    assert(spec_token_field(s, 2) == c.session_id.hi);
    assert(spec_token_field(s, 3) == c.session_id.lo);
    assert(spec_token_field(s, 4) == exp_u);
    assert(spec_token_field(s, 5) == t);
}

} // verus!
