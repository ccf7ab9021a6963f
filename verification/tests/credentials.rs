use axum_template::{hash_password, verify_password, AppError};

#[test]
fn hash_and_verify_password_test() {
    let input = "password";
    let hashed_password = hash_password(input).unwrap();
    assert_ne!(input, hashed_password);
    assert!(verify_password(input, &hashed_password).unwrap());
}

#[test]
fn digest_rejects_other_password() {
    let digest = hash_password("secret").unwrap();
    assert_eq!(verify_password("wrong", &digest), Ok(false));
    assert_eq!(verify_password("secret", &digest), Ok(true));
}

#[test]
fn digests_of_one_password_differ_and_both_accept() {
    let first = hash_password("secret").unwrap();
    let second = hash_password("secret").unwrap();
    assert_ne!(first, second);
    assert_eq!(verify_password("secret", &second), Ok(true));
}

#[test]
fn digest_is_a_phc_string() {
    let digest = hash_password("secret").unwrap();
    assert!(digest.starts_with("$argon2id$"));
}

#[test]
fn malformed_digest_is_a_hash_error() {
    let r = verify_password("secret", "not a digest");
    assert!(matches!(r, Err(AppError::PasswordHashError(_))));
    let r = verify_password("secret", "");
    assert!(matches!(r, Err(AppError::PasswordHashError(_))));
}
