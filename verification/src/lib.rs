//! Issuance and verification of signed session tokens, with role-based
//! gating of protected operations.
//!
//! The crate is organised around four components:
//! - [`auth`]: the role model and the authorization filter that checks a
//!   request's `Authorization` header against a required role;
//! - [`token`]: the token codec, which issues and verifies signed,
//!   time-bounded credentials;
//! - [`handlers`]: the user directory and the login step that exchanges
//!   credentials for a token;
//! - [`error`]: the closed failure taxonomy and the mapping of each failure
//!   to a stable status code and user-facing message.

pub mod auth;
pub mod error;
pub mod handlers;
pub mod token;

pub use handlers::{init_users, login_handler, LoginRequest, LoginResponse, User};
