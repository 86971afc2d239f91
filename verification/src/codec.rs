//! Byte codec for the cache blobs that hold session and user records.
//!
//! The durable store is authoritative; the cache holds a serialized
//! projection of a record.  Decoding is total over arbitrary bytes and
//! rejects anything that is not a canonical encoding, so a corrupted
//! cache entry is recognised and treated as a miss.

use vstd::bytes::{lemma_auto_spec_u64_to_from_le_bytes, spec_u64_from_le_bytes, spec_u64_to_le_bytes, u64_from_le_bytes, u64_to_le_bytes};
use vstd::prelude::*;
use vstd::slice::{slice_subrange, slice_to_vec};
use vstd::utf8::{decode_utf8, encode_utf8, encode_utf8_decode_utf8, encode_utf8_valid_utf8, valid_utf8};

use crate::ids::Id;
use crate::records::{AuthSession, User, UserView};

verus! {

/// Encoding of an optional instant: a tag byte, then 8 payload bytes.
pub open spec fn spec_opt_i64_bytes(o: Option<i64>) -> Seq<u8> {
    match o {
        Some(t) => seq![1u8] + spec_u64_to_le_bytes(t as u64),
        None => seq![0u8] + spec_u64_to_le_bytes(0),
    }
}

/// Encoding of an optional identifier: a tag byte, then 16 payload bytes.
pub open spec fn spec_opt_id_bytes(o: Option<Id>) -> Seq<u8> {
    match o {
        Some(id) => seq![1u8] + spec_u64_to_le_bytes(id.hi) + spec_u64_to_le_bytes(id.lo),
        None => seq![0u8] + spec_u64_to_le_bytes(0) + spec_u64_to_le_bytes(0),
    }
}

/// The canonical 84-byte encoding of a session record.
pub open spec fn spec_encode_session(s: AuthSession) -> Seq<u8> {
    spec_u64_to_le_bytes(s.id.hi) + spec_u64_to_le_bytes(s.id.lo) + spec_u64_to_le_bytes(
        s.user_id.hi,
    ) + spec_u64_to_le_bytes(s.user_id.lo) + spec_u64_to_le_bytes(s.created_at as u64)
        + spec_opt_i64_bytes(s.last_used_at) + spec_opt_i64_bytes(s.revoked_at) + spec_opt_id_bytes(
        s.refresh_token_id,
    ) + spec_opt_i64_bytes(s.refresh_token_issued_at)
}

/// Decoding of an optional instant from its tag and payload; the outer
/// `None` means the bytes are not a canonical encoding.
pub open spec fn spec_decode_opt_i64(tag: u8, payload: Seq<u8>) -> Option<Option<i64>> {
    if tag == 0 {
        Some(None)
    } else if tag == 1 {
        let v = spec_u64_from_le_bytes(payload);
        if v <= i64::MAX as u64 {
            Some(Some(v as i64))
        } else {
            None
        }
    } else {
        None
    }
}

/// Decoding of an optional identifier from its tag and payload halves.
pub open spec fn spec_decode_opt_id(tag: u8, hi: Seq<u8>, lo: Seq<u8>) -> Option<Option<Id>> {
    if tag == 0 {
        Some(None)
    } else if tag == 1 {
        Some(Some(Id { hi: spec_u64_from_le_bytes(hi), lo: spec_u64_from_le_bytes(lo) }))
    } else {
        None
    }
}

/// Total decoder for session blobs; `None` on anything that is not a
/// canonical encoding of a well-formed record.
pub open spec fn spec_decode_session(b: Seq<u8>) -> Option<AuthSession> {
    if b.len() != 84 {
        None
    } else {
        let created_u = spec_u64_from_le_bytes(b.subrange(32, 40));
        let lu = spec_decode_opt_i64(b[40], b.subrange(41, 49));
        let rv = spec_decode_opt_i64(b[49], b.subrange(50, 58));
        let rt = spec_decode_opt_id(b[58], b.subrange(59, 67), b.subrange(67, 75));
        let ri = spec_decode_opt_i64(b[75], b.subrange(76, 84));
        if created_u <= i64::MAX as u64 && lu is Some && rv is Some && rt is Some && ri is Some {
            Some(
                AuthSession {
                    id: Id {
                        hi: spec_u64_from_le_bytes(b.subrange(0, 8)),
                        lo: spec_u64_from_le_bytes(b.subrange(8, 16)),
                    },
                    user_id: Id {
                        hi: spec_u64_from_le_bytes(b.subrange(16, 24)),
                        lo: spec_u64_from_le_bytes(b.subrange(24, 32)),
                    },
                    created_at: created_u as i64,
                    last_used_at: lu.unwrap(),
                    revoked_at: rv.unwrap(),
                    refresh_token_id: rt.unwrap(),
                    refresh_token_issued_at: ri.unwrap(),
                },
            )
        } else {
            None
        }
    }
}

/// Appends the little-endian bytes of `x`.
fn push_u64(v: &mut Vec<u8>, x: u64)
    ensures
        final(v)@ == old(v)@ + spec_u64_to_le_bytes(x),
{
    let mut b = u64_to_le_bytes(x);
    v.append(&mut b);
}

/// Appends the tagged encoding of an optional instant.
fn push_opt_i64(v: &mut Vec<u8>, o: Option<i64>)
    requires
        o matches Some(t) ==> 0 <= t,
    ensures
        final(v)@ == old(v)@ + spec_opt_i64_bytes(o),
{
    match o {
        Some(t) => {
            v.push(1u8);
            push_u64(v, t as u64);
            assert(v@ =~= old(v)@ + spec_opt_i64_bytes(o));
        },
        None => {
            v.push(0u8);
            push_u64(v, 0);
            assert(v@ =~= old(v)@ + spec_opt_i64_bytes(o));
        },
    }
}

/// Appends the tagged encoding of an optional identifier.
fn push_opt_id(v: &mut Vec<u8>, o: Option<Id>)
    ensures
        final(v)@ == old(v)@ + spec_opt_id_bytes(o),
{
    match o {
        Some(id) => {
            v.push(1u8);
            push_u64(v, id.hi);
            push_u64(v, id.lo);
            assert(v@ =~= old(v)@ + spec_opt_id_bytes(o));
        },
        None => {
            v.push(0u8);
            push_u64(v, 0);
            push_u64(v, 0);
            assert(v@ =~= old(v)@ + spec_opt_id_bytes(o));
        },
    }
}

/// Serializes a session record into its canonical blob.
pub fn encode_session_blob(s: &AuthSession) -> (r: Vec<u8>)
    requires
        s.wf(),
    ensures
        r@ == spec_encode_session(*s),
{
    let mut v: Vec<u8> = Vec::new();
    push_u64(&mut v, s.id.hi);
    push_u64(&mut v, s.id.lo);
    push_u64(&mut v, s.user_id.hi);
    push_u64(&mut v, s.user_id.lo);
    push_u64(&mut v, s.created_at as u64);
    push_opt_i64(&mut v, s.last_used_at);
    push_opt_i64(&mut v, s.revoked_at);
    push_opt_id(&mut v, s.refresh_token_id);
    push_opt_i64(&mut v, s.refresh_token_issued_at);
    proof {
        assert(v@ =~= spec_encode_session(*s));
    }
    v
}

/// Reads the little-endian `u64` at offset `i`.
fn read_u64(b: &Vec<u8>, i: usize) -> (r: u64)
    requires
        i + 8 <= b@.len(),
        b@.len() <= usize::MAX,
    ensures
        r == spec_u64_from_le_bytes(b@.subrange(i as int, i as int + 8)),
{
    u64_from_le_bytes(slice_subrange(b.as_slice(), i, i + 8))
}

/// Deserializes a session blob; `None` when the bytes are not a
/// canonical encoding.
pub fn decode_session_blob(b: &Vec<u8>) -> (r: Option<AuthSession>)
    ensures
        r == spec_decode_session(b@),
{
    if b.len() != 84 {
        return None;
    }
    let created_u = read_u64(b, 32);
    if created_u > 0x7fffffffffffffff {
        return None;
    }
    let tag_lu = b[40];
    let lu_u = read_u64(b, 41);
    let last_used_at: Option<i64> = if tag_lu == 0 {
        None
    } else if tag_lu == 1 && lu_u <= 0x7fffffffffffffff {
        Some(lu_u as i64)
    } else {
        return None;
    };
    let tag_rv = b[49];
    let rv_u = read_u64(b, 50);
    let revoked_at: Option<i64> = if tag_rv == 0 {
        None
    } else if tag_rv == 1 && rv_u <= 0x7fffffffffffffff {
        Some(rv_u as i64)
    } else {
        return None;
    };
    let tag_rt = b[58];
    let rt_hi = read_u64(b, 59);
    let rt_lo = read_u64(b, 67);
    let refresh_token_id: Option<Id> = if tag_rt == 0 {
        None
    } else if tag_rt == 1 {
        Some(Id { hi: rt_hi, lo: rt_lo })
    } else {
        return None;
    };
    let tag_ri = b[75];
    let ri_u = read_u64(b, 76);
    let refresh_token_issued_at: Option<i64> = if tag_ri == 0 {
        None
    } else if tag_ri == 1 && ri_u <= 0x7fffffffffffffff {
        Some(ri_u as i64)
    } else {
        return None;
    };
    let s = AuthSession {
        id: Id { hi: read_u64(b, 0), lo: read_u64(b, 8) },
        user_id: Id { hi: read_u64(b, 16), lo: read_u64(b, 24) },
        created_at: created_u as i64,
        last_used_at,
        revoked_at,
        refresh_token_id,
        refresh_token_issued_at,
    };
    Some(s)
}

/// Decoding a canonical session blob yields the record back.
#[verifier::rlimit(50)]
pub proof fn lemma_session_codec_roundtrip(s: AuthSession)
    requires
        s.wf(),
    ensures
        spec_decode_session(spec_encode_session(s)) == Some(s),
{
    lemma_auto_spec_u64_to_from_le_bytes();
    let b = spec_encode_session(s);
    assert(b.len() == 84);
    assert(b.subrange(0, 8) =~= spec_u64_to_le_bytes(s.id.hi));
    assert(b.subrange(8, 16) =~= spec_u64_to_le_bytes(s.id.lo));
    assert(b.subrange(16, 24) =~= spec_u64_to_le_bytes(s.user_id.hi));
    assert(b.subrange(24, 32) =~= spec_u64_to_le_bytes(s.user_id.lo));
    assert(b.subrange(32, 40) =~= spec_u64_to_le_bytes(s.created_at as u64));
    assert(b.subrange(40, 49) =~= spec_opt_i64_bytes(s.last_used_at));
    assert(b.subrange(49, 58) =~= spec_opt_i64_bytes(s.revoked_at));
    assert(b.subrange(58, 75) =~= spec_opt_id_bytes(s.refresh_token_id));
    assert(b.subrange(75, 84) =~= spec_opt_i64_bytes(s.refresh_token_issued_at));
    assert(b[40] == b.subrange(40, 49)[0]);
    assert(b.subrange(41, 49) =~= b.subrange(40, 49).subrange(1, 9));
    assert(b[49] == b.subrange(49, 58)[0]);
    assert(b.subrange(50, 58) =~= b.subrange(49, 58).subrange(1, 9));
    assert(b[58] == b.subrange(58, 75)[0]);
    assert(b.subrange(59, 67) =~= b.subrange(58, 75).subrange(1, 9));
    assert(b.subrange(67, 75) =~= b.subrange(58, 75).subrange(9, 17));
    assert(b[75] == b.subrange(75, 84)[0]);
    assert(b.subrange(76, 84) =~= b.subrange(75, 84).subrange(1, 9));
    lemma_opt_i64_fields(s.last_used_at, b.subrange(40, 49));
    lemma_opt_i64_fields(s.revoked_at, b.subrange(49, 58));
    lemma_opt_id_fields(s.refresh_token_id, b.subrange(58, 75));
    lemma_opt_i64_fields(s.refresh_token_issued_at, b.subrange(75, 84));
}

/// The tag and payload of an encoded optional instant decode to it.
proof fn lemma_opt_i64_fields(o: Option<i64>, c: Seq<u8>)
    requires
        (o matches Some(t) ==> 0 <= t),
        c == spec_opt_i64_bytes(o),
    ensures
        spec_decode_opt_i64(c[0], c.subrange(1, 9)) == Some(o),
{
    lemma_auto_spec_u64_to_from_le_bytes();
    match o {
        Some(t) => {
            assert(c.subrange(1, 9) =~= spec_u64_to_le_bytes(t as u64));
        },
        None => {
            assert(c.subrange(1, 9) =~= spec_u64_to_le_bytes(0));
        },
    }
}

/// Whatever decodes as a session blob is a well-formed record: the
/// decoder admits no negative instant.
pub proof fn lemma_decoded_session_wf(b: Seq<u8>)
    ensures
        spec_decode_session(b) matches Some(s) ==> s.wf(),
{
}

/// The canonical encoding of a user record: identifier, tagged
/// length-prefixed optional username, length-prefixed email, both strings
/// as their UTF-8 bytes.
pub open spec fn spec_encode_user(u: UserView) -> Seq<u8> {
    spec_u64_to_le_bytes(u.id.hi) + spec_u64_to_le_bytes(u.id.lo) + (match u.username {
        Some(un) => seq![1u8] + spec_u64_to_le_bytes(encode_utf8(un).len() as u64) + encode_utf8(
            un,
        ),
        None => seq![0u8] + spec_u64_to_le_bytes(0),
    }) + spec_u64_to_le_bytes(encode_utf8(u.email).len() as u64) + encode_utf8(u.email)
}

/// Total decoder for user blobs; `None` on anything that is not a
/// canonical encoding.
pub open spec fn spec_decode_user(b: Seq<u8>) -> Option<UserView> {
    if b.len() < 33 {
        None
    } else {
        let tag = b[16];
        let l1 = spec_u64_from_le_bytes(b.subrange(17, 25));
        if !(tag == 0 || tag == 1) || (tag == 0 && l1 != 0) || 33 + l1 > b.len() {
            None
        } else {
            let unb = b.subrange(25, 25 + l1);
            let l2 = spec_u64_from_le_bytes(b.subrange(25 + l1, 33 + l1));
            if 33 + l1 + l2 != b.len() {
                None
            } else {
                let emb = b.subrange(33 + l1, 33 + l1 + l2);
                if !valid_utf8(emb) || (tag == 1 && !valid_utf8(unb)) {
                    None
                } else {
                    Some(
                        UserView {
                            id: Id {
                                hi: spec_u64_from_le_bytes(b.subrange(0, 8)),
                                lo: spec_u64_from_le_bytes(b.subrange(8, 16)),
                            },
                            username: if tag == 1 {
                                Some(decode_utf8(unb))
                            } else {
                                None
                            },
                            email: decode_utf8(emb),
                        },
                    )
                }
            }
        }
    }
}

/// Relies on std's `String::from_utf8`: `Some` exactly when the bytes are
/// valid UTF-8, and then the string's UTF-8 encoding is those bytes.
#[verifier::external_body]
fn bytes_to_string(v: Vec<u8>) -> (r: Option<String>)
    ensures
        match r {
            Some(s) => encode_utf8(s@) == v@ && valid_utf8(v@),
            None => !valid_utf8(v@),
        },
{
    match String::from_utf8(v) {
        Ok(s) => Some(s),
        Err(_) => None,
    }
}

/// Appends the UTF-8 bytes of `s`, after their count.
fn push_str_bytes(v: &mut Vec<u8>, s: &str)
    ensures
        final(v)@ == old(v)@ + spec_u64_to_le_bytes(encode_utf8(s@).len() as u64) + encode_utf8(
            s@,
        ),
{
    let bytes = s.as_bytes();
    push_u64(v, bytes.len() as u64);
    let mut tail = slice_to_vec(bytes);
    v.append(&mut tail);
}

/// Serializes a user record into its canonical blob.
pub fn encode_user_blob(u: &User) -> (r: Vec<u8>)
    ensures
        r@ == spec_encode_user(u@),
{
    let mut v: Vec<u8> = Vec::new();
    push_u64(&mut v, u.id.hi);
    push_u64(&mut v, u.id.lo);
    match &u.username {
        Some(un) => {
            v.push(1u8);
            push_str_bytes(&mut v, un.as_str());
        },
        None => {
            v.push(0u8);
            push_u64(&mut v, 0);
        },
    }
    push_str_bytes(&mut v, u.email.as_str());
    proof {
        assert(v@ =~= spec_encode_user(u@));
    }
    v
}

/// Deserializes a user blob; `None` when the bytes are not a canonical
/// encoding.
pub fn decode_user_blob(b: &Vec<u8>) -> (r: Option<User>)
    ensures
        match r {
            Some(u) => spec_decode_user(b@) == Some(u@),
            None => spec_decode_user(b@) is None,
        },
{
    let blen: u64 = b.len() as u64;
    if b.len() < 33 {
        return None;
    }
    let tag = b[16];
    let l1 = read_u64(b, 17);
    if !(tag == 0 || tag == 1) || (tag == 0 && l1 != 0) || l1 > blen - 33 {
        return None;
    }
    let l1s = l1 as usize;
    let l2 = read_u64(b, 25 + l1s);
    if l2 != blen - 33 - l1 {
        return None;
    }
    let l2s = l2 as usize;
    let emv = slice_to_vec(slice_subrange(b.as_slice(), 33 + l1s, 33 + l1s + l2s));
    let email = match bytes_to_string(emv) {
        Some(s) => s,
        None => {
            return None;
        },
    };
    let username: Option<String> = if tag == 1 {
        let unv = slice_to_vec(slice_subrange(b.as_slice(), 25, 25 + l1s));
        match bytes_to_string(unv) {
            Some(s) => Some(s),
            None => {
                return None;
            },
        }
    } else {
        None
    };
    let u = User { id: Id { hi: read_u64(b, 0), lo: read_u64(b, 8) }, username, email };
    proof {
        broadcast use encode_utf8_decode_utf8;

    }
    Some(u)
}

/// Decoding a canonical user blob yields the record's value back.
pub proof fn lemma_user_codec_roundtrip(u: UserView)
    requires
        encode_utf8(u.email).len() <= u64::MAX,
        (u.username matches Some(un) ==> encode_utf8(un).len() <= u64::MAX),
    ensures
        ({
            let d = spec_decode_user(spec_encode_user(u));
            &&& d matches Some(v)
            &&& v.id == u.id
            &&& v.email == u.email
            &&& v.username == u.username
        }),
{
    lemma_auto_spec_u64_to_from_le_bytes();
    broadcast use encode_utf8_decode_utf8;
    broadcast use encode_utf8_valid_utf8;

    let b = spec_encode_user(u);
    let l1 = match u.username {
        Some(un) => encode_utf8(un).len() as int,
        None => 0,
    };
    let l2 = encode_utf8(u.email).len() as int;
    assert(b.len() == 33 + l1 + l2);
    assert(b.subrange(0, 8) =~= spec_u64_to_le_bytes(u.id.hi));
    assert(b.subrange(8, 16) =~= spec_u64_to_le_bytes(u.id.lo));
    match u.username {
        Some(un) => {
            assert(b[16] == 1u8);
            assert(b.subrange(17, 25) =~= spec_u64_to_le_bytes(encode_utf8(un).len() as u64));
            assert(b.subrange(25, 25 + l1) =~= encode_utf8(un));
        },
        None => {
            assert(b[16] == 0u8);
            assert(b.subrange(17, 25) =~= spec_u64_to_le_bytes(0));
        },
    }
    assert(b.subrange(25 + l1, 33 + l1) =~= spec_u64_to_le_bytes(encode_utf8(u.email).len() as u64));
    assert(b.subrange(33 + l1, 33 + l1 + l2) =~= encode_utf8(u.email));
}

/// The tag and payload of an encoded optional identifier decode to it.
proof fn lemma_opt_id_fields(o: Option<Id>, c: Seq<u8>)
    requires
        c == spec_opt_id_bytes(o),
    ensures
        spec_decode_opt_id(c[0], c.subrange(1, 9), c.subrange(9, 17)) == Some(o),
{
    lemma_auto_spec_u64_to_from_le_bytes();
    match o {
        Some(id) => {
            assert(c.subrange(1, 9) =~= spec_u64_to_le_bytes(id.hi));
            assert(c.subrange(9, 17) =~= spec_u64_to_le_bytes(id.lo));
        },
        None => {
            assert(c.subrange(1, 9) =~= spec_u64_to_le_bytes(0));
            assert(c.subrange(9, 17) =~= spec_u64_to_le_bytes(0));
        },
    }
}

} // verus!
