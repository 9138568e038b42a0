use token_auth::auth::Role;
use token_auth::error::Error;
use token_auth::token::{create_jwt, verify_jwt, VALIDITY_SECS};

fn issue(sub: &str, role: Role, now: u64) -> Vec<u8> {
    let token = create_jwt(sub, &role, now).expect("token issuance");
    token.into_bytes()
}

#[test]
fn round_trip_user() {
    let now: u64 = 1_000_000;
    let t = issue("alice", Role::User, now);
    let (sub, role) = verify_jwt(&t, now + 1).expect("verification");
    assert_eq!(sub, "alice");
    assert_eq!(role, Role::User);
}

#[test]
fn round_trip_admin() {
    let now: u64 = 42;
    let t = issue("2", Role::Admin, now);
    let (sub, role) = verify_jwt(&t, now).expect("verification");
    assert_eq!(sub, "2");
    assert_eq!(role, Role::Admin);
}

#[test]
fn round_trip_unicode_subject() {
    let now: u64 = 7;
    let t = issue("bérez-žnev", Role::User, now);
    let (sub, _) = verify_jwt(&t, now + 10).expect("verification");
    assert_eq!(sub, "bérez-žnev");
}

#[test]
fn round_trip_empty_subject() {
    let now: u64 = 0;
    let t = issue("", Role::User, now);
    let (sub, role) = verify_jwt(&t, 59).expect("verification");
    assert_eq!(sub, "");
    assert_eq!(role, Role::User);
}

#[test]
fn verify_just_before_expiry_succeeds() {
    let now: u64 = 5_000;
    let t = issue("alice", Role::User, now);
    assert!(verify_jwt(&t, now + VALIDITY_SECS - 1).is_ok());
}

#[test]
fn verify_at_expiry_fails() {
    let now: u64 = 5_000;
    let t = issue("alice", Role::User, now);
    assert_eq!(verify_jwt(&t, now + VALIDITY_SECS), Err(Error::JWTTokenError));
}

#[test]
fn verify_after_expiry_fails() {
    let now: u64 = 5_000;
    let t = issue("alice", Role::User, now);
    assert_eq!(verify_jwt(&t, now + VALIDITY_SECS + 1), Err(Error::JWTTokenError));
}

#[test]
fn tampering_any_bit_fails() {
    let now: u64 = 123_456;
    let t = issue("2", Role::Admin, now);
    for i in 0..t.len() {
        for bit in 0..8u8 {
            let mut flipped = t.clone();
            flipped[i] ^= 1 << bit;
            assert_eq!(
                verify_jwt(&flipped, now + 1),
                Err(Error::JWTTokenError),
                "flipping bit {} of byte {} must fail verification",
                bit,
                i
            );
        }
    }
}

#[test]
fn tampering_never_changes_claims() {
    // Byte-level corruption across a longer subject: every single-byte
    // change must fail, never decode to other claims.
    let now: u64 = 9_999;
    let t = issue("some-longer-subject-id", Role::User, now);
    for i in 0..t.len() {
        for delta in [1u8, 0x55, 0xff] {
            let mut changed = t.clone();
            changed[i] = changed[i].wrapping_add(delta);
            if changed[i] == t[i] {
                continue;
            }
            assert_eq!(verify_jwt(&changed, now + 1), Err(Error::JWTTokenError));
        }
    }
}

#[test]
fn truncated_token_fails() {
    let now: u64 = 10;
    let t = issue("alice", Role::User, now);
    let short = t[..t.len() - 4].to_vec();
    assert_eq!(verify_jwt(&short, now), Err(Error::JWTTokenError));
    assert_eq!(verify_jwt(&Vec::new(), now), Err(Error::JWTTokenError));
    assert_eq!(verify_jwt(&t[..3].to_vec(), now), Err(Error::JWTTokenError));
}

#[test]
fn garbage_token_fails() {
    let now: u64 = 10;
    assert_eq!(
        verify_jwt(&b"not-a-token-at-all-not-a-token-at-all-00".to_vec(), now),
        Err(Error::JWTTokenError)
    );
}

#[test]
fn issuance_overflow_fails() {
    assert_eq!(
        create_jwt("alice", &Role::User, u64::MAX),
        Err(Error::JWTTokenCreationError)
    );
    assert_eq!(
        create_jwt("alice", &Role::User, u64::MAX - VALIDITY_SECS + 1),
        Err(Error::JWTTokenCreationError)
    );
    assert!(create_jwt("alice", &Role::User, u64::MAX - VALIDITY_SECS).is_ok());
}

#[test]
fn token_is_lowercase_hex() {
    let t = issue("alice", Role::Admin, 77);
    assert!(!t.is_empty());
    assert!(t.iter().all(|b| (b'0'..=b'9').contains(b) || (b'a'..=b'f').contains(b)));
}

#[test]
fn idempotent_verification() {
    let now: u64 = 1_000;
    let t = issue("alice", Role::Admin, now);
    let first = verify_jwt(&t, now + 5).expect("first verification");
    let second = verify_jwt(&t, now + 5).expect("second verification");
    assert_eq!(first, second);
    // Also at a different instant inside the validity window.
    let third = verify_jwt(&t, now + 59).expect("third verification");
    assert_eq!(first, third);
}

#[test]
fn tokens_differ_by_role() {
    // The codec really encodes the claims: same subject, different role
    // or different expiry give different tokens.
    let a = issue("alice", Role::User, 1_000);
    let b = issue("alice", Role::Admin, 1_000);
    let c = issue("alice", Role::User, 1_001);
    assert_ne!(a, b);
    assert_ne!(a, c);
}
