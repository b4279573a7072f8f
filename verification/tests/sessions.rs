use auth_core::error::AuthError;
use auth_core::sessions::TokenTable;

#[test]
fn issued_token_validates_to_its_user() {
    let mut table = TokenTable::new();
    let token = table.issue("user-1".into()).unwrap();
    assert_eq!(table.validate(&token), Some("user-1".to_string()));
}

#[test]
fn issued_token_is_fresh_text() {
    let mut table = TokenTable::new();
    let token = table.issue("user-1".into()).unwrap();
    assert_ne!(token, "user-1");
    assert_eq!(token.len(), 36);
    let again = table.issue("user-1".into()).unwrap();
    assert_ne!(token, again);
    assert_eq!(table.validate(&token), Some("user-1".to_string()));
    assert_eq!(table.validate(&again), Some("user-1".to_string()));
}

#[test]
fn unknown_token_validates_to_nobody() {
    let mut table = TokenTable::new();
    assert_eq!(table.validate("anything"), None);
    table.issue("user-1".into()).unwrap();
    assert_eq!(table.validate("anything"), None);
    assert_eq!(table.validate(""), None);
}

#[test]
fn revoked_token_is_gone_for_good() {
    let mut table = TokenTable::new();
    let token = table.issue("user-1".into()).unwrap();
    assert_eq!(table.revoke(&token), Ok(()));
    assert_eq!(table.validate(&token), None);
    assert_eq!(table.revoke(&token), Err(AuthError::NotFound));
    assert_eq!(table.validate(&token), None);
}

#[test]
fn revoking_an_unknown_token_is_not_found() {
    let mut table = TokenTable::new();
    assert_eq!(table.revoke("never-issued"), Err(AuthError::NotFound));
}

#[test]
fn revoking_one_token_leaves_the_others() {
    let mut table = TokenTable::new();
    let first = table.issue("user-1".into()).unwrap();
    let second = table.issue("user-2".into()).unwrap();
    let third = table.issue("user-1".into()).unwrap();
    assert_eq!(table.revoke(&second), Ok(()));
    assert_eq!(table.validate(&first), Some("user-1".to_string()));
    assert_eq!(table.validate(&second), None);
    assert_eq!(table.validate(&third), Some("user-1".to_string()));
    assert_eq!(table.revoke(&first), Ok(()));
    assert_eq!(table.validate(&third), Some("user-1".to_string()));
}

#[test]
fn insert_refuses_an_active_token() {
    let mut table = TokenTable::new();
    assert_eq!(table.insert("t".into(), "user-1".into()), Ok(()));
    assert_eq!(table.insert("t".into(), "user-2".into()), Err(AuthError::Conflict));
    assert_eq!(table.validate("t"), Some("user-1".to_string()));
    assert_eq!(table.revoke("t"), Ok(()));
    assert_eq!(table.insert("t".into(), "user-2".into()), Ok(()));
    assert_eq!(table.validate("t"), Some("user-2".to_string()));
}
