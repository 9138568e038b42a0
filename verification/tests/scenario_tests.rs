use token_auth::auth::{authorize, Role};
use token_auth::error::{handle_rejection, Error, Rejection};
use token_auth::handlers::{greeting, init_users, login_handler, LoginRequest, User};

fn login(email: &str, password: &str, now: u64) -> Result<String, Error> {
    let users = init_users();
    let req = LoginRequest {
        email: String::from(email),
        password: String::from(password),
    };
    login_handler(&users, &req, now).map(|resp| resp.token)
}

fn bearer(token: &str) -> Vec<u8> {
    format!("Bearer {}", token).into_bytes()
}

#[test]
fn directory_holds_the_two_seeded_users() {
    let users = init_users();
    assert_eq!(users.len(), 2);
    assert_eq!(users[0].uid, "1");
    assert_eq!(users[0].email, "user@userland.com");
    assert_eq!(users[0].password, "12345678");
    assert_eq!(users[0].role, "User");
    assert_eq!(users[1].uid, "2");
    assert_eq!(users[1].email, "berezhnev@berezhnevland.com");
    assert_eq!(users[1].password, "12345678");
    assert_eq!(users[1].role, "Admin");
}

#[test]
fn scenario_user_login_cannot_reach_admin() {
    let now: u64 = 1_700_000_000;
    let token = login("user@userland.com", "12345678", now).expect("login");
    let h = bearer(&token);
    // The user-gated resource accepts the token.
    assert_eq!(authorize(Role::User, Some(&h), now + 1), Ok(String::from("1")));
    // The admin-gated resource rejects it with the permission failure,
    // mapped to the unauthorized status.
    let denied = authorize(Role::Admin, Some(&h), now + 1);
    assert_eq!(denied, Err(Error::NoPermissionError));
    let (code, resp) = handle_rejection(&Rejection::App(Error::NoPermissionError));
    assert_eq!(code, 401);
    assert_eq!(resp.status, "401 Unauthorized");
    assert_eq!(resp.message, "No permission error");
}

#[test]
fn scenario_admin_login_reaches_both() {
    let now: u64 = 1_700_000_000;
    let token = login("berezhnev@berezhnevland.com", "12345678", now).expect("login");
    let h = bearer(&token);
    let uid_user = authorize(Role::User, Some(&h), now + 1).expect("user resource");
    let uid_admin = authorize(Role::Admin, Some(&h), now + 1).expect("admin resource");
    assert_eq!(uid_user, "2");
    assert_eq!(uid_admin, "2");
    assert_eq!(greeting(Role::User, &uid_user), "Hello User 2");
    assert_eq!(greeting(Role::Admin, &uid_admin), "Hello Admin 2");
}

#[test]
fn scenario_wrong_password_is_forbidden() {
    let now: u64 = 1_700_000_000;
    let denied = login("user@userland.com", "wrong-password", now);
    assert_eq!(denied, Err(Error::WrongCredentialsError));
    let (code, resp) = handle_rejection(&Rejection::App(Error::WrongCredentialsError));
    assert_eq!(code, 403);
    assert_eq!(resp.status, "403 Forbidden");
    assert_eq!(resp.message, "Wrong credentials");
}

#[test]
fn unknown_email_is_wrong_credentials() {
    let now: u64 = 10;
    assert_eq!(
        login("nobody@nowhere.test", "12345678", now),
        Err(Error::WrongCredentialsError)
    );
}

#[test]
fn login_token_round_trips_before_expiry() {
    let now: u64 = 500;
    let token = login("user@userland.com", "12345678", now).expect("login");
    let h = bearer(&token);
    assert_eq!(authorize(Role::User, Some(&h), now + 59), Ok(String::from("1")));
    assert_eq!(authorize(Role::User, Some(&h), now + 60), Err(Error::JWTTokenError));
}

#[test]
fn first_matching_record_wins() {
    let users = vec![
        User {
            uid: String::from("7"),
            email: String::from("dup@example.com"),
            password: String::from("pw"),
            role: String::from("User"),
        },
        User {
            uid: String::from("8"),
            email: String::from("dup@example.com"),
            password: String::from("pw"),
            role: String::from("Admin"),
        },
    ];
    let req = LoginRequest {
        email: String::from("dup@example.com"),
        password: String::from("pw"),
    };
    let now: u64 = 1;
    let token = login_handler(&users, &req, now).expect("login").token;
    let h = bearer(&token);
    assert_eq!(authorize(Role::User, Some(&h), now), Ok(String::from("7")));
    assert_eq!(authorize(Role::Admin, Some(&h), now), Err(Error::NoPermissionError));
}

#[test]
fn login_at_overflow_instant_is_creation_failure() {
    assert_eq!(
        login("user@userland.com", "12345678", u64::MAX),
        Err(Error::JWTTokenCreationError)
    );
}

#[test]
fn outcome_mapper_covers_every_rejection() {
    let cases: Vec<(Rejection, u16, &str, &str)> = vec![
        (Rejection::NotFound, 404, "404 Not Found", "Not found"),
        (
            Rejection::App(Error::WrongCredentialsError),
            403,
            "403 Forbidden",
            "Wrong credentials",
        ),
        (
            Rejection::App(Error::NoPermissionError),
            401,
            "401 Unauthorized",
            "No permission error",
        ),
        (
            Rejection::App(Error::JWTTokenError),
            401,
            "401 Unauthorized",
            "JWT token is not valid",
        ),
        (
            Rejection::App(Error::JWTTokenCreationError),
            500,
            "500 Internal Server Error",
            "Internal Server Error",
        ),
        (
            Rejection::App(Error::NoAuthHeaderError),
            400,
            "400 Bad Request",
            "No auth header has found",
        ),
        (
            Rejection::App(Error::InvalidAuthHeaderError),
            400,
            "400 Bad Request",
            "Invalid auth error",
        ),
        (
            Rejection::MethodNotAllowed,
            405,
            "405 Method Not Allowed",
            "Method is not allowed",
        ),
        (Rejection::Unknown, 500, "500 Internal Server Error", "Internal server error"),
    ];
    for (rejection, code, status, message) in cases {
        let (got_code, resp) = handle_rejection(&rejection);
        assert_eq!(got_code, code);
        assert_eq!(resp.status, status);
        assert_eq!(resp.message, message);
    }
}
