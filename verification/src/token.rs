//! The token codec: issues a signed, time-bounded credential encoding a
//! subject identifier and a role, and verifies a presented credential back
//! into those claims, rejecting anything tampered, malformed, or expired.
//!
//! A token is the lowercase hex encoding of a frame `payload ++ tag`.
//! The payload is `expiry (8 bytes, big-endian) ++ role (1 byte) ++
//! subject (UTF-8 bytes)`; the tag is the payload combined byte by byte
//! with the process signing secret, so that the two halves of the frame
//! have equal length. Verification recomputes the tag from the presented
//! payload and compares it against the presented tag, then checks the
//! expiry against the current time. A mismatch, a malformed frame and an
//! elapsed expiry all map to the same failure, by design.

use crate::auth::Role;
use crate::error::Error;
use vstd::prelude::*;
use vstd::string::{StrSliceExecFns, StringSliceAdditionalSpecFns};
use vstd::utf8::{
    decode_utf8, encode_utf8, encode_utf8_decode_utf8, encode_utf8_valid_utf8,
    is_ascii_chars, is_ascii_chars_encode_utf8, valid_utf8,
};

verus! {

/// The fixed validity window, in seconds, of an issued token.
pub const VALIDITY_SECS: u64 = 60;

/// The process-wide signing secret, as a repeating key stream over byte
/// positions. Issuance and verification share it; there is no rotation.
pub open spec fn key_at(i: int) -> u8 {
    let r = i % 8;
    if r == 0 {
        0x73
    } else if r == 1 {
        0x65
    } else if r == 2 {
        0x63
    } else if r == 3 {
        0x72
    } else if r == 4 {
        0x65
    } else if r == 5 {
        0x74
    } else if r == 6 {
        0x21
    } else {
        0x7e
    }
}

fn key_byte(i: usize) -> (k: u8)
    ensures
        k == key_at(i as int),
{
    let r = i % 8;
    if r == 0 {
        0x73
    } else if r == 1 {
        0x65
    } else if r == 2 {
        0x63
    } else if r == 3 {
        0x72
    } else if r == 4 {
        0x65
    } else if r == 5 {
        0x74
    } else if r == 6 {
        0x21
    } else {
        0x7e
    }
}

/// Whether a byte is a lowercase hex digit; these are the only bytes a
/// token may consist of.
pub open spec fn is_hex_digit(b: u8) -> bool {
    (0x30 <= b && b <= 0x39) || (0x61 <= b && b <= 0x66)
}

/// The value of a hex digit byte (0 on non-digits; callers gate on
/// [`is_hex_digit`]).
pub open spec fn hex_val(b: u8) -> u8 {
    if 0x30 <= b && b <= 0x39 {
        (b - 0x30) as u8
    } else if 0x61 <= b && b <= 0x66 {
        (b - 0x57) as u8
    } else {
        0
    }
}

/// The lowercase hex digit byte of a value below 16.
pub open spec fn hex_digit(n: u8) -> u8 {
    if n < 10 {
        (0x30 + n) as u8
    } else {
        (0x57 + n) as u8
    }
}

/// The eight big-endian bytes of a 64-bit value.
pub open spec fn be64_of(x: u64) -> Seq<u8> {
    seq![
        (x >> 56) as u8,
        (x >> 48) as u8,
        (x >> 40) as u8,
        (x >> 32) as u8,
        (x >> 24) as u8,
        (x >> 16) as u8,
        (x >> 8) as u8,
        x as u8,
    ]
}

/// The 64-bit value of eight big-endian bytes.
pub open spec fn be64_val(s: Seq<u8>) -> u64 {
    ((s[0] as u64) << 56) | ((s[1] as u64) << 48) | ((s[2] as u64) << 40) | ((s[3] as u64) << 32)
        | ((s[4] as u64) << 24) | ((s[5] as u64) << 16) | ((s[6] as u64) << 8) | (s[7] as u64)
}

/// The single byte that encodes a role inside a token.
pub open spec fn role_byte(r: Role) -> u8 {
    match r {
        Role::User => 0,
        Role::Admin => 1,
    }
}

/// Whether a byte is the encoding of some role.
pub open spec fn is_role_byte(b: u8) -> bool {
    b == 0 || b == 1
}

/// The role a role byte decodes to.
pub open spec fn role_of_byte(b: u8) -> Role {
    if b == 1 {
        Role::Admin
    } else {
        Role::User
    }
}

/// The claim bytes of a token: expiry, role, subject.
pub open spec fn payload_of(sub: Seq<u8>, role: Role, exp: u64) -> Seq<u8> {
    be64_of(exp) + seq![role_byte(role)] + sub
}

/// The integrity tag of a payload: each byte combined with the signing
/// secret's key stream at its position.
pub open spec fn tag_of(p: Seq<u8>) -> Seq<u8> {
    Seq::new(p.len(), |j: int| p[j] ^ key_at(j))
}

/// The raw frame of a token: the payload followed by its tag.
pub open spec fn frame_of(p: Seq<u8>) -> Seq<u8> {
    p + tag_of(p)
}

/// The lowercase hex encoding of a byte sequence.
pub open spec fn hex_enc(b: Seq<u8>) -> Seq<u8> {
    Seq::new(
        2 * b.len(),
        |i: int|
            if i % 2 == 0 {
                hex_digit(b[i / 2] >> 4)
            } else {
                hex_digit(b[i / 2] & 0x0f)
            },
    )
}

/// The hex decoding of a byte sequence (junk on non-digits; callers gate
/// on [`is_hex_digit`]).
pub open spec fn hex_dec(t: Seq<u8>) -> Seq<u8> {
    Seq::new(t.len() / 2, |j: int| (hex_val(t[2 * j]) << 4) | hex_val(t[2 * j + 1]))
}

/// The token issued for a subject, a role and an expiry: the hex encoding
/// of the framed, tagged payload.
pub open spec fn token_bytes_of(sub: Seq<u8>, role: Role, exp: u64) -> Seq<u8> {
    hex_enc(frame_of(payload_of(sub, role, exp)))
}

/// The characters of an all-ASCII byte sequence.
pub open spec fn chars_of(b: Seq<u8>) -> Seq<char> {
    Seq::new(b.len(), |i: int| b[i] as char)
}

/// The issued token as a character string.
pub open spec fn token_chars_of(sub: Seq<u8>, role: Role, exp: u64) -> Seq<char> {
    chars_of(token_bytes_of(sub, role, exp))
}

/// Whether the expiry of a token issued now still fits in 64 bits.
pub open spec fn expiry_fits(now: u64) -> bool {
    now + VALIDITY_SECS <= u64::MAX
}

/// Whether the token for a subject fits in a single allocation.
pub open spec fn token_fits(sub: Seq<u8>) -> bool {
    4 * (9 + sub.len()) <= usize::MAX
}

/// Whether a presented token is structurally sound and correctly tagged:
/// all lowercase hex, an even-length frame whose second half is the tag of
/// its first half, and a recognized role byte.
pub open spec fn parse_ok(t: Seq<u8>) -> bool {
    &&& t.len() % 4 == 0
    &&& t.len() >= 36
    &&& (forall|i: int| 0 <= i < t.len() ==> is_hex_digit(#[trigger] t[i]))
    &&& {
        let f = hex_dec(t);
        let n = (t.len() / 4) as int;
        &&& f.skip(n) == tag_of(f.take(n))
        &&& is_role_byte(f[8])
    }
}

/// The expiry claim of a parsed token.
pub open spec fn token_exp(t: Seq<u8>) -> u64 {
    be64_val(hex_dec(t).take(8))
}

/// The role claim of a parsed token.
pub open spec fn token_role(t: Seq<u8>) -> Role {
    role_of_byte(hex_dec(t)[8])
}

/// The subject claim of a parsed token, as bytes.
pub open spec fn token_sub(t: Seq<u8>) -> Seq<u8> {
    hex_dec(t).subrange(9, (t.len() / 4) as int)
}

/// What verification yields for a presented token at a given time: the
/// subject bytes and the role, or nothing if the token is malformed,
/// incorrectly tagged, or expired at that time.
pub open spec fn verify_spec(t: Seq<u8>, now: u64) -> Option<(Seq<u8>, Role)> {
    if parse_ok(t) && now < token_exp(t) {
        Some((token_sub(t), token_role(t)))
    } else {
        None
    }
}

/// What verification yields at the string level: the decoded subject
/// string, or nothing if the token fails [`verify_spec`] or its subject
/// bytes are not valid UTF-8.
pub open spec fn verify_result(t: Seq<u8>, now: u64) -> Option<(Seq<char>, Role)> {
    match verify_spec(t, now) {
        Some((sub, role)) => if valid_utf8(sub) {
            Some((decode_utf8(sub), role))
        } else {
            None
        },
        None => None,
    }
}

proof fn lemma_nibbles(b: u8)
    by (bit_vector)
    ensures
        b >> 4 < 16,
        b & 0x0f < 16,
        ((b >> 4) << 4) | (b & 0x0f) == b,
{
}

proof fn lemma_nib_recompose(hi: u8, lo: u8)
    by (bit_vector)
    requires
        hi < 16,
        lo < 16,
    ensures
        ((hi << 4) | lo) >> 4 == hi,
        ((hi << 4) | lo) & 0x0f == lo,
{
}

proof fn lemma_be64_roundtrip(x: u64)
    by (bit_vector)
    ensures
        (((x >> 56) as u8 as u64) << 56) | (((x >> 48) as u8 as u64) << 48)
            | (((x >> 40) as u8 as u64) << 40) | (((x >> 32) as u8 as u64) << 32)
            | (((x >> 24) as u8 as u64) << 24) | (((x >> 16) as u8 as u64) << 16)
            | (((x >> 8) as u8 as u64) << 8) | ((x as u8) as u64) == x,
{
}

proof fn lemma_hex_enc_dec(f: Seq<u8>)
    ensures
        hex_enc(f).len() == 2 * f.len(),
        forall|i: int|
            0 <= i < 2 * f.len() ==> is_hex_digit(#[trigger] hex_enc(f)[i]) && hex_enc(f)[i]
                < 0x80,
        hex_dec(hex_enc(f)) == f,
{
    assert forall|i: int| 0 <= i < 2 * f.len() implies is_hex_digit(#[trigger] hex_enc(f)[i])
        && hex_enc(f)[i] < 0x80 by {
        lemma_nibbles(f[i / 2]);
    }
    assert forall|j: int| 0 <= j < f.len() implies hex_dec(hex_enc(f))[j] == f[j] by {
        lemma_nibbles(f[j]);
        assert(hex_enc(f)[2 * j] == hex_digit(f[j] >> 4));
        assert(hex_enc(f)[2 * j + 1] == hex_digit(f[j] & 0x0f));
    }
    assert(hex_dec(hex_enc(f)) =~= f);
}

/// An issued token parses back to exactly the claims it was issued with.
proof fn lemma_token_parse(sub: Seq<u8>, role: Role, exp: u64)
    ensures
        token_bytes_of(sub, role, exp).len() == 4 * (9 + sub.len()),
        parse_ok(token_bytes_of(sub, role, exp)),
        token_exp(token_bytes_of(sub, role, exp)) == exp,
        token_role(token_bytes_of(sub, role, exp)) == role,
        token_sub(token_bytes_of(sub, role, exp)) == sub,
{
    let p = payload_of(sub, role, exp);
    let f = frame_of(p);
    let t = token_bytes_of(sub, role, exp);
    lemma_hex_enc_dec(f);
    assert(p.len() == 9 + sub.len());
    assert(f.len() == 2 * p.len());
    let n = (t.len() / 4) as int;
    assert(n == p.len());
    let d = hex_dec(t);
    assert(d == f);
    assert(d.take(n) =~= p);
    assert(d.skip(n) =~= tag_of(p));
    assert(d[8] == role_byte(role));
    assert(d.take(8) =~= be64_of(exp));
    lemma_be64_roundtrip(exp);
    assert(token_exp(t) == exp);
    assert(token_sub(t) =~= sub);
}

/// Relies on `String::from_utf8`: it succeeds exactly on valid UTF-8
/// input, and the returned string's characters are the UTF-8 decoding of
/// the input bytes.
#[verifier::external_body]
fn utf8_to_string(v: Vec<u8>) -> (r: Option<String>)
    ensures
        r is Some <==> valid_utf8(v@),
        r matches Some(s) ==> s@ == decode_utf8(v@),
{
    match String::from_utf8(v) {
        Ok(s) => Some(s),
        Err(_) => None,
    }
}

/// All-ASCII byte sequences are valid UTF-8 and decode to the characters
/// with the same values; their character form encodes back to them.
pub proof fn lemma_ascii_bytes(b: Seq<u8>)
    requires
        forall|i: int| 0 <= i < b.len() ==> #[trigger] b[i] < 0x80,
    ensures
        valid_utf8(b),
        decode_utf8(b) == chars_of(b),
        encode_utf8(chars_of(b)) == b,
        is_ascii_chars(chars_of(b)),
{
    let c = chars_of(b);
    assert forall|i: int| 0 <= i < c.len() implies '\0' <= #[trigger] c[i] <= '\u{7f}' by {
        assert(b[i] < 0x80);
        assert(c[i] == b[i] as char);
    }
    assert(is_ascii_chars(c));
    is_ascii_chars_encode_utf8(c);
    assert(encode_utf8(c) =~= b);
    encode_utf8_valid_utf8(c);
    encode_utf8_decode_utf8(c);
}

/// Issue a signed token for a subject and a role, expiring one validity
/// window after `now`. Fails, only with the creation failure, when the
/// expiry or the token itself would not fit its machine bounds.
pub fn create_jwt(uid: &str, role: &Role, now: u64) -> (r: Result<String, Error>)
    ensures
        r is Ok <==> expiry_fits(now) && token_fits(uid.spec_bytes()),
        r matches Err(e) ==> e == Error::JWTTokenCreationError,
        r matches Ok(t) ==> t@ == token_chars_of(
            uid.spec_bytes(),
            *role,
            (now + VALIDITY_SECS) as u64,
        ),
{
    if now > u64::MAX - VALIDITY_SECS {
        return Err(Error::JWTTokenCreationError);
    }
    let exp = now + VALIDITY_SECS;
    let sub: Vec<u8> = uid.as_bytes_vec();
    if sub.len() > (usize::MAX - 36) / 4 {
        return Err(Error::JWTTokenCreationError);
    }

    let mut payload: Vec<u8> = Vec::new();
    payload.push((exp >> 56) as u8);
    payload.push((exp >> 48) as u8);
    payload.push((exp >> 40) as u8);
    payload.push((exp >> 32) as u8);
    payload.push((exp >> 24) as u8);
    payload.push((exp >> 16) as u8);
    payload.push((exp >> 8) as u8);
    payload.push(exp as u8);
    payload.push(match role {
        Role::User => 0,
        Role::Admin => 1,
    });
    proof {
        assert(payload@ =~= payload_of(sub@, *role, exp).take(9));
    }
    let mut i: usize = 0;
    while i < sub.len()
        invariant
            i <= sub@.len(),
            payload@.len() == 9 + i,
            payload@ == payload_of(sub@, *role, exp).take(9 + i as int),
        decreases sub@.len() - i,
    {
        payload.push(sub[i]);
        proof {
            assert(payload@ =~= payload_of(sub@, *role, exp).take(9 + (i + 1) as int));
        }
        i += 1;
    }
    proof {
        assert(payload@ =~= payload_of(sub@, *role, exp));
    }

    let n = payload.len();
    let mut frame: Vec<u8> = Vec::new();
    let mut j: usize = 0;
    while j < n
        invariant
            n == payload@.len(),
            j <= n,
            frame@ == payload@.take(j as int),
        decreases n - j,
    {
        frame.push(payload[j]);
        proof {
            assert(frame@ =~= payload@.take(j + 1 as int));
        }
        j += 1;
    }
    let mut k: usize = 0;
    while k < n
        invariant
            n == payload@.len(),
            k <= n,
            frame@.len() == n + k,
            frame@ == frame_of(payload@).take(n + k as int),
        decreases n - k,
    {
        frame.push(payload[k] ^ key_byte(k));
        proof {
            assert(frame@ =~= frame_of(payload@).take(n + (k + 1) as int));
        }
        k += 1;
    }
    proof {
        assert(frame@ =~= frame_of(payload@));
    }

    let mut out: Vec<u8> = Vec::new();
    let flen = frame.len();
    let mut m: usize = 0;
    while m < flen
        invariant
            flen == frame@.len(),
            2 * flen <= usize::MAX,
            m <= flen,
            out@.len() == 2 * m,
            forall|q: int| 0 <= q < 2 * m ==> out@[q] == hex_enc(frame@)[q],
        decreases flen - m,
    {
        let b = frame[m];
        proof {
            lemma_nibbles(b);
        }
        out.push(hex_digit_x(b >> 4));
        out.push(hex_digit_x(b & 0x0f));
        m += 1;
    }
    proof {
        assert(out@ =~= hex_enc(frame@));
        lemma_hex_enc_dec(frame@);
        lemma_ascii_bytes(out@);
    }
    match utf8_to_string(out) {
        Some(s) => Ok(s),
        None => Err(Error::JWTTokenCreationError),
    }
}

/// Verify a presented token at the given time and decode its claims.
/// Succeeds exactly when the token is correctly tagged, well-formed
/// (including a UTF-8 subject) and unexpired; every failure is the same
/// token error, so a caller cannot tell which check failed.
pub fn verify_jwt(token: &Vec<u8>, now: u64) -> (r: Result<(String, Role), Error>)
    ensures
        r is Ok <==> verify_result(token@, now) is Some,
        r matches Ok(c) ==> verify_result(token@, now) matches Some(v) && c.0@ == v.0 && c.1
            == v.1,
        r matches Err(e) ==> e == Error::JWTTokenError,
{
    let len = token.len();
    if len % 4 != 0 || len < 36 {
        return Err(Error::JWTTokenError);
    }
    let half = len / 2;
    let mut frame: Vec<u8> = Vec::new();
    let mut j: usize = 0;
    while j < half
        invariant
            len == token@.len(),
            len % 4 == 0,
            len >= 36,
            half == len / 2,
            j <= half,
            frame@.len() == j,
            forall|i: int| 0 <= i < 2 * j ==> is_hex_digit(#[trigger] token@[i]),
            forall|q: int| 0 <= q < j ==> frame@[q] == hex_dec(token@)[q],
        decreases half - j,
    {
        let hi = token[2 * j];
        let lo = token[2 * j + 1];
        if !is_hex_digit_x(hi) || !is_hex_digit_x(lo) {
            proof {
                assert(!is_hex_digit(token@[2 * j]) || !is_hex_digit(token@[2 * j + 1]));
            }
            return Err(Error::JWTTokenError);
        }
        frame.push(hex_val_x(hi) << 4 | hex_val_x(lo));
        j += 1;
    }
    proof {
        assert(forall|i: int| 0 <= i < len ==> is_hex_digit(#[trigger] token@[i]));
        assert(frame@ =~= hex_dec(token@));
    }

    let n = len / 4;
    let mut k: usize = 0;
    while k < n
        invariant
            len == token@.len(),
            n == len / 4,
            frame@ == hex_dec(token@),
            frame@.len() == len / 2,
            k <= n,
            forall|q: int|
                0 <= q < k ==> frame@[n + q] == #[trigger] (frame@[q] ^ key_at(q)),
        decreases n - k,
    {
        if frame[n + k] != frame[k] ^ key_byte(k) {
            proof {
                let f = hex_dec(token@);
                assert(f.skip(n as int)[k as int] != tag_of(f.take(n as int))[k as int]);
            }
            return Err(Error::JWTTokenError);
        }
        k += 1;
    }
    proof {
        let f = hex_dec(token@);
        assert(f.skip(n as int) =~= tag_of(f.take(n as int)));
    }

    let rb = frame[8];
    if rb > 1 {
        return Err(Error::JWTTokenError);
    }
    let role = if rb == 1 {
        Role::Admin
    } else {
        Role::User
    };

    let exp: u64 = ((frame[0] as u64) << 56) | ((frame[1] as u64) << 48) | ((frame[2] as u64)
        << 40) | ((frame[3] as u64) << 32) | ((frame[4] as u64) << 24) | ((frame[5] as u64)
        << 16) | ((frame[6] as u64) << 8) | (frame[7] as u64);
    proof {
        let f = hex_dec(token@);
        assert(f.take(8)[0] == f[0] && f.take(8)[1] == f[1] && f.take(8)[2] == f[2] && f.take(8)[3]
            == f[3] && f.take(8)[4] == f[4] && f.take(8)[5] == f[5] && f.take(8)[6] == f[6]
            && f.take(8)[7] == f[7]);
        assert(exp == token_exp(token@));
    }
    if now >= exp {
        return Err(Error::JWTTokenError);
    }

    let mut sub: Vec<u8> = Vec::new();
    let mut m: usize = 9;
    while m < n
        invariant
            len == token@.len(),
            n == len / 4,
            frame@ == hex_dec(token@),
            frame@.len() == len / 2,
            9 <= m <= n,
            sub@.len() == m - 9,
            forall|q: int| 0 <= q < m - 9 ==> sub@[q] == frame@[9 + q],
        decreases n - m,
    {
        sub.push(frame[m]);
        m += 1;
    }
    proof {
        assert(sub@ =~= token_sub(token@));
        assert(parse_ok(token@));
    }
    match utf8_to_string(sub) {
        Some(s) => Ok((s, role)),
        None => Err(Error::JWTTokenError),
    }
}

proof fn lemma_xor_neq(a: u8, b: u8, k: u8)
    by (bit_vector)
    requires
        a != b,
    ensures
        a ^ k != b ^ k,
{
}

proof fn lemma_hex_pair_injective(a1: u8, b1: u8, a2: u8, b2: u8)
    requires
        is_hex_digit(a1),
        is_hex_digit(b1),
        is_hex_digit(a2),
        is_hex_digit(b2),
        (hex_val(a1) << 4) | hex_val(b1) == (hex_val(a2) << 4) | hex_val(b2),
    ensures
        a1 == a2,
        b1 == b2,
{
    lemma_nib_recompose(hex_val(a1), hex_val(b1));
    lemma_nib_recompose(hex_val(a2), hex_val(b2));
}

/// An issued token string is pure ASCII, and its UTF-8 bytes are exactly
/// the issued token bytes: a caller that sends the string and a verifier
/// that receives its bytes speak of the same token.
pub proof fn lemma_token_string_bytes(sub: Seq<u8>, role: Role, exp: u64)
    ensures
        is_ascii_chars(token_chars_of(sub, role, exp)),
        encode_utf8(token_chars_of(sub, role, exp)) == token_bytes_of(sub, role, exp),
{
    lemma_hex_enc_dec(frame_of(payload_of(sub, role, exp)));
    lemma_ascii_bytes(token_bytes_of(sub, role, exp));
}

/// Round-trip law: a token issued for a subject and a role, verified at
/// any time before its expiry, yields exactly that subject and role.
pub proof fn lemma_round_trip(sub: Seq<char>, role: Role, exp: u64, now: u64)
    requires
        now < exp,
    ensures
        verify_result(token_bytes_of(encode_utf8(sub), role, exp), now) == Some((sub, role)),
{
    let sb = encode_utf8(sub);
    lemma_token_parse(sb, role, exp);
    encode_utf8_valid_utf8(sub);
    encode_utf8_decode_utf8(sub);
}

/// Expiry law: a token verified at or after its expiry fails, whatever
/// its claims.
pub proof fn lemma_expiry(sub: Seq<u8>, role: Role, exp: u64, now: u64)
    requires
        now >= exp,
    ensures
        verify_spec(token_bytes_of(sub, role, exp), now) is None,
{
    lemma_token_parse(sub, role, exp);
}

/// Idempotence law: two verifications of the same token that both
/// succeed, at any two times, decode to identical claims.
pub proof fn lemma_verify_idempotent(t: Seq<u8>, now1: u64, now2: u64)
    requires
        verify_result(t, now1) is Some,
        verify_result(t, now2) is Some,
    ensures
        verify_result(t, now1) == verify_result(t, now2),
{
}

/// Tamper-resistance law: altering any single byte of an issued token —
/// in particular, flipping any bit of it — makes verification fail at
/// every time; it never succeeds with altered claims.
pub proof fn lemma_tamper_resistance(
    sub: Seq<u8>,
    role: Role,
    exp: u64,
    t2: Seq<u8>,
    i: int,
    now: u64,
)
    requires
        ({
            let t = token_bytes_of(sub, role, exp);
            &&& t2.len() == t.len()
            &&& 0 <= i < t.len()
            &&& t2[i] != t[i]
            &&& forall|q: int| 0 <= q < t.len() && q != i ==> t2[q] == t[q]
        }),
    ensures
        verify_spec(t2, now) is None,
{
    let t = token_bytes_of(sub, role, exp);
    let p = payload_of(sub, role, exp);
    let f = frame_of(p);
    lemma_hex_enc_dec(f);
    lemma_token_parse(sub, role, exp);
    if is_hex_digit(t2[i]) {
        assert(forall|q: int| 0 <= q < t2.len() ==> is_hex_digit(#[trigger] t2[q]));
        let f2 = hex_dec(t2);
        let n = (t2.len() / 4) as int;
        assert(n == p.len());
        assert(f2.len() == 2 * n);
        let c = i / 2;
        assert(i == 2 * c || i == 2 * c + 1);
        assert(f2[c] != f[c]) by {
            if f2[c] == f[c] {
                lemma_hex_pair_injective(t2[2 * c], t2[2 * c + 1], t[2 * c], t[2 * c + 1]);
            }
        }
        assert forall|q: int| 0 <= q < 2 * n && q != c implies f2[q] == f[q] by {
            assert(t2[2 * q] == t[2 * q]);
            assert(t2[2 * q + 1] == t[2 * q + 1]);
        }
        assert(f.skip(n) == tag_of(f.take(n)));
        if c < n {
            // The altered byte is in the payload half: the stored tag is
            // unchanged, but the tag recomputed from the altered payload
            // differs at that byte.
            lemma_xor_neq(f2[c], f[c], key_at(c));
            assert(f2.skip(n)[c] == f[n + c]);
            assert(f.skip(n)[c] == f[n + c]);
            assert(tag_of(f2.take(n))[c] == (f2[c] ^ key_at(c)));
            assert(tag_of(f.take(n))[c] == (f[c] ^ key_at(c)));
            assert(f2.skip(n)[c] != tag_of(f2.take(n))[c]);
            assert(!parse_ok(t2));
        } else {
            // The altered byte is in the tag half: the payload is
            // unchanged, so the recomputed tag is the original one, and
            // the stored tag differs from it at that byte.
            assert(f2.take(n) =~= f.take(n));
            assert(tag_of(f2.take(n)) =~= tag_of(f.take(n)));
            assert(f2.skip(n)[c - n] == f2[c]);
            assert(f.skip(n)[c - n] == f[c]);
            assert(tag_of(f2.take(n))[c - n] == f.skip(n)[c - n]);
            assert(f2.skip(n)[c - n] != tag_of(f2.take(n))[c - n]);
            assert(!parse_ok(t2));
        }
    }
}

fn is_hex_digit_x(b: u8) -> (r: bool)
    ensures
        r == is_hex_digit(b),
{
    (0x30 <= b && b <= 0x39) || (0x61 <= b && b <= 0x66)
}

fn hex_val_x(b: u8) -> (n: u8)
    requires
        is_hex_digit(b),
    ensures
        n == hex_val(b),
        n < 16,
{
    if b <= 0x39 {
        b - 0x30
    } else {
        b - 0x57
    }
}

fn hex_digit_x(n: u8) -> (b: u8)
    requires
        n < 16,
    ensures
        b == hex_digit(n),
{
    if n < 10 {
        0x30 + n
    } else {
        0x57 + n
    }
}

} // verus!
