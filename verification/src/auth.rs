//! The role model and the authorization filter.
//!
//! The role model is a closed enumeration of capability levels with a
//! total order of privilege, and a mapping from free-form stored-role
//! strings to the enumeration. The filter is the per-request pipeline
//! stage: extract the `Authorization` header, require the `Bearer `
//! scheme, verify the token, enforce the role order, and hand the
//! verified subject to the downstream handler — failing with the first
//! violated step's typed failure.

use crate::error::Error;
use crate::token::{token_bytes_of, verify_jwt, verify_result};
use vstd::prelude::*;
use vstd::utf8::{encode_utf8, is_ascii_chars, is_ascii_chars_encode_utf8};

verus! {

/// A privilege tier. Higher tiers satisfy requirements of lower tiers.
#[derive(Clone, Copy, Debug, PartialEq, Eq, Structural)]
pub enum Role {
    User,
    Admin,
}

/// The numeric privilege level of a role; the total order `User < Admin`
/// is the order of these levels.
pub open spec fn role_level(r: Role) -> nat {
    match r {
        Role::User => 0,
        Role::Admin => 1,
    }
}

/// The role a stored role string denotes: `"Admin"` by case-sensitive
/// exact match, and any other string the lowest privilege. The mapping is
/// total by design: unknown input degrades privilege rather than erroring.
pub open spec fn role_from_str_spec(s: Seq<char>) -> Role {
    if s == "Admin"@ {
        Role::Admin
    } else {
        Role::User
    }
}

impl Role {
    /// Derive a role from a stored role string.
    pub fn from_str(s: &str) -> (r: Role)
        ensures
            r == role_from_str_spec(s@),
    {
        let owned = String::from_str(s);
        let admin = String::from_str("Admin");
        if owned == admin {
            Role::Admin
        } else {
            Role::User
        }
    }

    /// Whether this role satisfies a required role: success exactly when
    /// this role's privilege level is at least the required one.
    pub fn satisfies(self, required: Role) -> (r: bool)
        ensures
            r == (role_level(self) >= role_level(required)),
    {
        match (self, required) {
            (Role::User, Role::Admin) => false,
            _ => true,
        }
    }
}

/// The bytes of the literal scheme prefix `"Bearer "`.
pub open spec fn bearer_bytes() -> Seq<u8> {
    seq![0x42u8, 0x65, 0x61, 0x72, 0x65, 0x72, 0x20]
}

/// The prefix bytes are exactly the UTF-8 encoding of `"Bearer "`.
pub proof fn lemma_bearer_bytes()
    ensures
        bearer_bytes() == encode_utf8("Bearer "@),
{
    reveal_strlit("Bearer ");
    let c = "Bearer "@;
    assert(is_ascii_chars(c));
    is_ascii_chars_encode_utf8(c);
    assert(encode_utf8(c) =~= bearer_bytes());
}

/// What header extraction yields: the token bytes after the scheme
/// prefix; the missing-header failure when there is no header; the
/// invalid-header failure when the header does not start with `"Bearer "`.
pub open spec fn jwt_from_header_spec(h: Option<Seq<u8>>) -> Result<Seq<u8>, Error> {
    match h {
        Option::None => Err(Error::NoAuthHeaderError),
        Option::Some(h) => if h.len() >= 7 && h.take(7) == bearer_bytes() {
            Ok(h.skip(7))
        } else {
            Err(Error::InvalidAuthHeaderError)
        },
    }
}

/// What the guard yields for a required role, a presented header and a
/// time: the verified subject, or the first failure of the pipeline —
/// header extraction, token verification, then the role order.
pub open spec fn authorize_spec(required: Role, h: Option<Seq<u8>>, now: u64) -> Result<
    Seq<char>,
    Error,
> {
    match jwt_from_header_spec(h) {
        Err(e) => Err(e),
        Ok(t) => match verify_result(t, now) {
            Option::None => Err(Error::JWTTokenError),
            Option::Some((sub, role)) => if role_level(role) >= role_level(required) {
                Ok(sub)
            } else {
                Err(Error::NoPermissionError)
            },
        },
    }
}

/// The bytes of an optional borrowed header.
pub open spec fn header_view(h: Option<&Vec<u8>>) -> Option<Seq<u8>> {
    match h {
        Option::None => Option::None,
        Option::Some(v) => Option::Some(v@),
    }
}

/// Extract the token from an `Authorization` header: the header must be
/// present and start with the literal scheme prefix `"Bearer "`; the
/// remainder is the token.
pub fn jwt_from_header(header: Option<&Vec<u8>>) -> (r: Result<Vec<u8>, Error>)
    ensures
        r matches Ok(t) ==> jwt_from_header_spec(header_view(header)) matches Ok(s) && t@ == s,
        r matches Err(e) ==> jwt_from_header_spec(header_view(header)) matches Err(e2) && e == e2,
{
    match header {
        Option::None => Err(Error::NoAuthHeaderError),
        Option::Some(h) => {
            if h.len() < 7 {
                return Err(Error::InvalidAuthHeaderError);
            }
            if h[0] != 0x42 || h[1] != 0x65 || h[2] != 0x61 || h[3] != 0x72 || h[4] != 0x65
                || h[5] != 0x72 || h[6] != 0x20 {
                proof {
                    assert(h@.take(7) != bearer_bytes());
                }
                return Err(Error::InvalidAuthHeaderError);
            }
            proof {
                assert(h@.take(7) =~= bearer_bytes());
            }
            let mut t: Vec<u8> = Vec::new();
            let mut i: usize = 7;
            while i < h.len()
                invariant
                    7 <= i <= h@.len(),
                    h@.len() >= 7,
                    t@.len() == i - 7,
                    forall|q: int| 0 <= q < i - 7 ==> t@[q] == h@[7 + q],
                decreases h@.len() - i,
            {
                t.push(h[i]);
                i += 1;
            }
            proof {
                assert(t@ =~= h@.skip(7));
            }
            Ok(t)
        },
    }
}

/// The guard: authorize a request against a required role. On success the
/// downstream handler receives only the verified subject identifier.
pub fn authorize(required: Role, header: Option<&Vec<u8>>, now: u64) -> (r: Result<String, Error>)
    ensures
        r matches Ok(s) ==> authorize_spec(required, header_view(header), now) matches Ok(c)
            && s@ == c,
        r matches Err(e) ==> authorize_spec(required, header_view(header), now) matches Err(e2)
            && e == e2,
{
    let token = match jwt_from_header(header) {
        Ok(t) => t,
        Err(e) => {
            return Err(e);
        },
    };
    let (sub, role) = match verify_jwt(&token, now) {
        Ok(p) => p,
        Err(e) => {
            return Err(e);
        },
    };
    if role.satisfies(required) {
        Ok(sub)
    } else {
        Err(Error::NoPermissionError)
    }
}

/// Role-ordering law, end to end through the guard: a bearer header
/// holding an unexpired token issued for a subject and a role is accepted
/// exactly when the token's role satisfies the required role, yielding
/// that subject; otherwise it is rejected with the permission failure. In
/// particular a guard requiring `Admin` rejects a valid `User` token, and
/// a guard requiring `User` accepts a valid `Admin` token.
pub proof fn lemma_guard_on_issued_token(
    sub: Seq<char>,
    role: Role,
    required: Role,
    exp: u64,
    now: u64,
)
    requires
        now < exp,
    ensures
        ({
            let h = bearer_bytes() + token_bytes_of(encode_utf8(sub), role, exp);
            authorize_spec(required, Option::Some(h), now) == if role_level(role) >= role_level(
                required,
            ) {
                Ok::<Seq<char>, Error>(sub)
            } else {
                Err::<Seq<char>, Error>(Error::NoPermissionError)
            }
        }),
{
    let t = token_bytes_of(encode_utf8(sub), role, exp);
    let h = bearer_bytes() + t;
    assert(h.take(7) =~= bearer_bytes());
    assert(h.skip(7) =~= t);
    crate::token::lemma_round_trip(sub, role, exp, now);
}

} // verus!
