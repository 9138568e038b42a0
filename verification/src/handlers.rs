//! The static user directory and the login step that exchanges
//! credentials for a signed token, plus the greetings the protected
//! handlers reply with.

use crate::auth::{role_from_str_spec, Role};
use crate::error::Error;
use crate::token::{
    create_jwt, expiry_fits, token_chars_of, token_fits, VALIDITY_SECS,
};
use vstd::prelude::*;
use vstd::string::StringExecFns;
use vstd::utf8::encode_utf8;

verus! {

/// One record of the user directory.
pub struct User {
    pub uid: String,
    pub email: String,
    pub password: String,
    pub role: String,
}

/// The body of a login request.
pub struct LoginRequest {
    pub email: String,
    pub password: String,
}

/// The successful login response: the issued token.
pub struct LoginResponse {
    pub token: String,
}

/// Whether a directory record matches a login request: email and password
/// both equal, by exact comparison.
pub open spec fn credentials_match(u: User, req: LoginRequest) -> bool {
    u.email@ == req.email@ && u.password@ == req.password@
}

/// The first directory record matching a login request, if any.
pub open spec fn find_user_spec(users: Seq<User>, req: LoginRequest) -> Option<User>
    decreases users.len(),
{
    if users.len() == 0 {
        Option::None
    } else if credentials_match(users[0], req) {
        Option::Some(users[0])
    } else {
        find_user_spec(users.drop_first(), req)
    }
}

/// What login yields: the characters of the token issued to the first
/// matching record — under the role its stored role string denotes — or
/// the wrong-credentials failure when no record matches, or the creation
/// failure when the token cannot be built.
pub open spec fn login_spec(users: Seq<User>, req: LoginRequest, now: u64) -> Result<
    Seq<char>,
    Error,
> {
    match find_user_spec(users, req) {
        Option::None => Err(Error::WrongCredentialsError),
        Option::Some(u) => {
            let sub = encode_utf8(u.uid@);
            if expiry_fits(now) && token_fits(sub) {
                Ok(token_chars_of(sub, role_from_str_spec(u.role@), (now + VALIDITY_SECS) as u64))
            } else {
                Err(Error::JWTTokenCreationError)
            }
        },
    }
}

/// Log a request in against the directory: find the first record whose
/// email and password match exactly, derive its role from the stored role
/// string, and issue a token for its subject identifier.
pub fn login_handler(users: &Vec<User>, body: &LoginRequest, now: u64) -> (r: Result<
    LoginResponse,
    Error,
>)
    ensures
        r matches Ok(resp) ==> login_spec(users@, *body, now) matches Ok(tc) && resp.token@ == tc,
        r matches Err(e) ==> login_spec(users@, *body, now) matches Err(e2) && e == e2,
{
    let ulen = users.len();
    proof {
        assert(users@.skip(0) =~= users@);
    }
    let mut idx: usize = 0;
    while idx < ulen
        invariant
            ulen == users@.len(),
            idx <= ulen,
            find_user_spec(users@, *body) == find_user_spec(users@.skip(idx as int), *body),
        decreases ulen - idx,
    {
        let u = &users[idx];
        if u.email == body.email && u.password == body.password {
            proof {
                assert(users@.skip(idx as int)[0] == users@[idx as int]);
                assert(find_user_spec(users@, *body) == Option::Some(users@[idx as int]));
            }
            let role = Role::from_str(u.role.as_str());
            return match create_jwt(u.uid.as_str(), &role, now) {
                Ok(token) => Ok(LoginResponse { token }),
                Err(e) => Err(e),
            };
        }
        proof {
            assert(users@.skip(idx as int).drop_first() =~= users@.skip(idx + 1));
            assert(users@.skip(idx as int)[0] == users@[idx as int]);
        }
        idx += 1;
    }
    proof {
        assert(users@.skip(ulen as int).len() == 0);
    }
    Err(Error::WrongCredentialsError)
}

/// The directory this process starts with: two records, a `User`-role
/// user and an `Admin`-role user.
pub fn init_users() -> (users: Vec<User>)
    ensures
        users@.len() == 2,
        users@[0].uid@ == "1"@,
        users@[0].email@ == "user@userland.com"@,
        users@[0].password@ == "12345678"@,
        users@[0].role@ == "User"@,
        users@[1].uid@ == "2"@,
        users@[1].email@ == "berezhnev@berezhnevland.com"@,
        users@[1].password@ == "12345678"@,
        users@[1].role@ == "Admin"@,
{
    let mut users: Vec<User> = Vec::new();
    users.push(
        User {
            uid: String::from_str("1"),
            email: String::from_str("user@userland.com"),
            password: String::from_str("12345678"),
            role: String::from_str("User"),
        },
    );
    users.push(
        User {
            uid: String::from_str("2"),
            email: String::from_str("berezhnev@berezhnevland.com"),
            password: String::from_str("12345678"),
            role: String::from_str("Admin"),
        },
    );
    users
}

/// The greeting a protected handler replies with: the tier's salutation
/// followed by the verified subject identifier.
pub fn greeting(role: Role, uid: &String) -> (r: String)
    ensures
        role == Role::User ==> r@ == "Hello User "@ + uid@,
        role == Role::Admin ==> r@ == "Hello Admin "@ + uid@,
{
    let mut s = match role {
        Role::User => String::from_str("Hello User "),
        Role::Admin => String::from_str("Hello Admin "),
    };
    s.append(uid.as_str());
    s
}

} // verus!
