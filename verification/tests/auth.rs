use bookmark::domain::user::error::{AuthError, UserError};
use bookmark::domain::user::models::UserInfo;
use bookmark::domain::user::services::{api_token_holder, change_password_hash, check_password, finish_authentication};
use bookmark::infra::auth_provider::local::{LocalAuthProvider, TokenPlayload};

fn user(name: &str, role: &str) -> UserInfo {
    UserInfo { username: name.to_string(), role: role.to_string() }
}

#[test]
fn lifetime_from_configuration() {
    assert_eq!(LocalAuthProvider::new("k".to_string(), "2h").expire_time, 7200);
    assert_eq!(LocalAuthProvider::new("k".to_string(), "1day 30min").expire_time, 88200);
    assert_eq!(LocalAuthProvider::new("k".to_string(), "1500ms").expire_time, 1);
}

#[test]
fn unreadable_lifetime_is_zero() {
    assert_eq!(LocalAuthProvider::new("k".to_string(), "soon").expire_time, 0);
    assert_eq!(LocalAuthProvider::new("k".to_string(), "").expire_time, 0);
}

#[test]
fn lifetime_beyond_chrono_is_two_days() {
    let p = LocalAuthProvider::new("k".to_string(), "1000000000years");
    assert_eq!(p.expire_time, 172800);
    assert_eq!(p.secret_key, "k");
}

#[test]
fn default_provider() {
    let p = LocalAuthProvider::default();
    assert_eq!(p.expire_time, 0);
    assert_eq!(p.secret_key, "");
}

#[test]
fn hashed_password_verifies() {
    let p = LocalAuthProvider::default();
    let hash = p.encrypt_password("s3cret!").unwrap();
    assert!(hash.starts_with("$argon2id$v=19$m=15000,t=2,p=1$"));
    assert!(p.verify_password(&hash, "s3cret!").is_ok());
    let other = p.encrypt_password("s3cret!").unwrap();
    assert_ne!(hash, other);
    assert!(p.verify_password(&other, "s3cret!").is_ok());
}

#[test]
fn wrong_password_is_refused() {
    let p = LocalAuthProvider::default();
    let hash = p.encrypt_password("right").unwrap();
    match p.verify_password(&hash, "wrong") {
        Err(AuthError::InvalidCredentials(m)) => assert_eq!(m, "Invalid password."),
        other => panic!("unexpected {:?}", other),
    }
}

#[test]
fn malformed_hash_is_an_unexpected_error() {
    let p = LocalAuthProvider::default();
    match p.verify_password("not a hash", "x") {
        Err(AuthError::UnexpectedError(m)) => assert_eq!(m, "Failed to parse hash in PHC string format."),
        other => panic!("unexpected {:?}", other),
    }
}

#[test]
fn token_claims_and_token() {
    let p = LocalAuthProvider::new("secret".to_string(), "2h");
    let claims = p.token_claims("alice", 1_700_000_000);
    assert_eq!(claims.sub, "alice");
    assert_eq!(claims.exp, 1_700_007_200);
    let t = p.issued_token("alice", "abc.def.ghi".to_string());
    assert_eq!(t.username, "alice");
    assert_eq!(t.token, "abc.def.ghi");
    assert_eq!(t.expire_time, 7_200_000);
    let back = p.token_from_claims("abc.def.ghi", TokenPlayload { sub: "bob".to_string(), exp: 99 });
    assert_eq!(back.username, "bob");
    assert_eq!(back.token, "abc.def.ghi");
    assert_eq!(back.expire_time, 99);
}

#[test]
fn token_claims_before_the_epoch_wrap() {
    let p = LocalAuthProvider::default();
    let claims = p.token_claims("a", -1);
    assert_eq!(claims.exp, u64::MAX);
}

#[test]
fn password_check_of_missing_user() {
    let p = LocalAuthProvider::default();
    match check_password(&p, Err(UserError::NotFound), "pw") {
        Err(AuthError::InvalidCredentials(m)) => assert_eq!(m, "User not found"),
        other => panic!("unexpected {:?}", other),
    }
}

#[test]
fn password_check_against_store() {
    let p = LocalAuthProvider::default();
    let hash = p.encrypt_password("pw").unwrap();
    assert!(check_password(&p, Ok(hash.clone()), "pw").is_ok());
    match check_password(&p, Ok(hash), "nope") {
        Err(AuthError::InvalidCredentials(m)) => assert_eq!(m, "Invalid password."),
        other => panic!("unexpected {:?}", other),
    }
    match check_password(&p, Ok("garbage".to_string()), "pw") {
        Err(AuthError::InvalidCredentials(m)) => assert_eq!(m, "Invalid password."),
        other => panic!("unexpected {:?}", other),
    }
}

#[test]
fn authentication_finishes_with_the_user() {
    let u = finish_authentication(Ok(user("alice", "admin"))).unwrap();
    assert_eq!(u.username, "alice");
    match finish_authentication(Err(UserError::Unkown("db down".to_string()))) {
        Err(AuthError::UnexpectedError(m)) => assert_eq!(m, "db down"),
        other => panic!("unexpected {:?}", other),
    }
}

#[test]
fn password_change_needs_authentication() {
    let p = LocalAuthProvider::default();
    let failed = change_password_hash(&p, Err(AuthError::InvalidCredentials("x".to_string())), "new");
    assert!(matches!(failed, Err(UserError::InvalidPassword)));
    let (name, hash) = change_password_hash(&p, Ok(user("alice", "user")), "new").unwrap();
    assert_eq!(name, "alice");
    assert!(p.verify_password(&hash, "new").is_ok());
    assert!(p.verify_password(&hash, "old").is_err());
}

#[test]
fn tokens_only_for_admins() {
    let ok = api_token_holder(Ok(user("root", "admin"))).unwrap();
    assert_eq!(ok.username, "root");
    match api_token_holder(Ok(user("joe", "user"))) {
        Err(AuthError::InvalidPermission(m)) => assert_eq!(m, "Invalid permission"),
        other => panic!("unexpected {:?}", other),
    }
    match api_token_holder(Err(AuthError::UnexpectedError("x".to_string()))) {
        Err(AuthError::InvalidCredentials(m)) => assert_eq!(m, "Invalid credentials"),
        other => panic!("unexpected {:?}", other),
    }
}

#[test]
fn error_texts() {
    assert_eq!(AuthError::InvalidPermission("a".to_string()).message(), "Invalid permission.");
    assert_eq!(AuthError::InvalidCredentials("a".to_string()).message(), "Invalid credentials.");
    assert_eq!(AuthError::UnexpectedError("boom".to_string()).message(), "boom");
    assert_eq!(UserError::NotFound.message(), "User not found");
    assert_eq!(UserError::Exists.message(), "User already exists");
    assert_eq!(UserError::InvalidPassword.message(), "Invalid password");
    assert_eq!(UserError::Unkown("x".to_string()).message(), "x");
}

#[test]
fn new_hashes_carry_the_configured_costs() {
    let p = LocalAuthProvider::default();
    let long = "x".repeat(10_000);
    let hash = p.encrypt_password(&long).unwrap();
    assert!(hash.starts_with("$argon2id$v=19$m=15000,t=2,p=1$"));
    assert!(p.verify_password(&hash, &long).is_ok());
    let (_, hash) = change_password_hash(&p, Ok(user("a", "user")), "pw2").unwrap();
    assert!(hash.starts_with("$argon2id$v=19$m=15000,t=2,p=1$"));
}
