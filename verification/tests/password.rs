use auth_core::error::AuthError;
use auth_core::password::{accepts, hash_password, verify_password};

#[test]
fn hashed_password_verifies() {
    let credential = hash_password("pw1", 4).unwrap();
    assert!(verify_password("pw1", &credential));
}

#[test]
fn other_password_does_not_verify() {
    let credential = hash_password("pw1", 4).unwrap();
    assert!(!verify_password("pw2", &credential));
    assert!(!verify_password("", &credential));
    assert!(!verify_password("pw1 ", &credential));
}

#[test]
fn credential_is_not_the_password() {
    let credential = hash_password("correct horse", 4).unwrap();
    assert_ne!(credential, "correct horse");
    assert_eq!(credential.len(), 60);
    assert!(credential.starts_with("$2b$04$"));
}

#[test]
fn hashing_is_salted() {
    let first = hash_password("same", 4).unwrap();
    let second = hash_password("same", 4).unwrap();
    assert_ne!(first, second);
    assert!(verify_password("same", &first));
    assert!(verify_password("same", &second));
}

#[test]
fn cost_out_of_range_is_internal() {
    assert_eq!(hash_password("pw", 3), Err(AuthError::Internal));
    assert_eq!(hash_password("pw", 32), Err(AuthError::Internal));
    assert_eq!(hash_password("pw", 0), Err(AuthError::Internal));
}

#[test]
fn malformed_credential_is_false_not_an_error() {
    assert!(!verify_password("pw", ""));
    assert!(!verify_password("pw", "pw"));
    assert!(!verify_password("pw", "$2b$04$short"));
    assert!(!verify_password("pw", "$9z$04$L6Bc/AlTQHyd9liGgGEZyOFLPHNgyxeEPfgYfBCVxJ7JIlwxyVU3u"));
}

#[test]
fn known_credential_verifies() {
    // A credential made elsewhere, with cost 4, from this password.
    let credential = "$2b$04$EGdrhbKUv8Oc9vGiXX0HQOxSg445d458Muh7DAHskb6QbtCvdxcie";
    assert!(verify_password("correctbatteryhorsestapler", credential));
    assert!(!verify_password("wrong", credential));
}

#[test]
fn empty_password_round_trips() {
    let credential = hash_password("", 4).unwrap();
    assert!(verify_password("", &credential));
    assert!(!verify_password("x", &credential));
}

#[test]
fn unicode_password_round_trips() {
    let credential = hash_password("pässwörd✓", 4).unwrap();
    assert!(verify_password("pässwörd✓", &credential));
    assert!(!verify_password("password", &credential));
}

#[test]
fn accepts_reads_the_outcome() {
    assert!(accepts(Some(true)));
    assert!(!accepts(Some(false)));
    assert!(!accepts(None));
}
