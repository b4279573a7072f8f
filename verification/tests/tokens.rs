use auth_core::error::AuthError;
use auth_core::tokens::{
    create_token, create_token_at, expiry_at, subject_if_current, verify_token, verify_token_at,
    Payload,
};

const SECRET: &str = "server-secret";

fn claims_of(token: &str, secret: &str) -> serde_json::Value {
    let mut validation = jsonwebtoken::Validation::new(jsonwebtoken::Algorithm::HS256);
    validation.validate_exp = false;
    let key = jsonwebtoken::DecodingKey::from_secret(secret.as_bytes());
    jsonwebtoken::decode::<serde_json::Value>(token, &key, &validation).unwrap().claims
}

fn sign(claims: serde_json::Value, secret: &str) -> String {
    let key = jsonwebtoken::EncodingKey::from_secret(secret.as_bytes());
    jsonwebtoken::encode(&jsonwebtoken::Header::default(), &claims, &key).unwrap()
}

fn object(entries: Vec<(&str, serde_json::Value)>) -> serde_json::Value {
    let mut map = serde_json::Map::new();
    for (key, value) in entries {
        map.insert(key.to_string(), value);
    }
    serde_json::Value::Object(map)
}

#[test]
fn expiry_is_now_plus_duration() {
    assert_eq!(expiry_at(1_000, 3_600), Some(4_600));
    assert_eq!(expiry_at(0, 0), Some(0));
    assert_eq!(expiry_at(-5, 5), Some(0));
    assert_eq!(expiry_at(1_700_000_000, 86_400), Some(1_700_086_400));
}

#[test]
fn expiry_before_the_epoch_is_refused() {
    assert_eq!(expiry_at(-1, 0), None);
    assert_eq!(expiry_at(10, -11), None);
    assert_eq!(expiry_at(i64::MIN, i64::MIN), None);
}

#[test]
fn expiry_beyond_i64_is_still_computed() {
    if usize::BITS == 64 {
        assert_eq!(expiry_at(i64::MAX, 1), Some(i64::MAX as usize + 1));
        assert_eq!(expiry_at(i64::MAX, i64::MAX), Some(2 * (i64::MAX as usize)));
    }
}

#[test]
fn token_carries_subject_and_expiry() {
    let token = create_token_at("user-1".into(), SECRET, 3_600, 1_000).unwrap();
    let claims = claims_of(&token, SECRET);
    assert_eq!(claims.get("sub").and_then(|v| v.as_str()), Some("user-1"));
    assert_eq!(claims.get("exp").and_then(|v| v.as_u64()), Some(4_600));
    assert_eq!(token.split('.').count(), 3);
    let header = jsonwebtoken::decode_header(&token).unwrap();
    assert_eq!(header.alg, jsonwebtoken::Algorithm::HS256);
}

#[test]
fn token_is_valid_strictly_before_its_expiry() {
    let token = create_token_at("user-1".into(), SECRET, 3_600, 1_000).unwrap();
    assert_eq!(verify_token_at(&token, SECRET, 1_000), Some("user-1".to_string()));
    assert_eq!(verify_token_at(&token, SECRET, 4_599), Some("user-1".to_string()));
    assert_eq!(verify_token_at(&token, SECRET, 4_600), None);
    assert_eq!(verify_token_at(&token, SECRET, 4_601), None);
    assert_eq!(verify_token_at(&token, SECRET, i64::MAX), None);
    assert_eq!(verify_token_at(&token, SECRET, 0), Some("user-1".to_string()));
    assert_eq!(verify_token_at(&token, SECRET, -1), Some("user-1".to_string()));
}

#[test]
fn sixty_seconds_late_is_too_late() {
    let token = create_token_at("user-1".into(), SECRET, 10, 1_000).unwrap();
    assert_eq!(verify_token_at(&token, SECRET, 1_009), Some("user-1".to_string()));
    assert_eq!(verify_token_at(&token, SECRET, 1_010), None);
    assert_eq!(verify_token_at(&token, SECRET, 1_069), None);
}

#[test]
fn zero_duration_is_never_valid_from_issue_on() {
    let token = create_token_at("user-1".into(), SECRET, 0, 1_000).unwrap();
    assert_eq!(verify_token_at(&token, SECRET, 1_000), None);
    assert_eq!(verify_token_at(&token, SECRET, 999), Some("user-1".to_string()));
}

#[test]
fn unrepresentable_expiry_is_internal() {
    assert_eq!(create_token_at("user-1".into(), SECRET, -2_000, 1_000), Err(AuthError::Internal));
    assert_eq!(create_token_at("user-1".into(), SECRET, 0, -1), Err(AuthError::Internal));
}

#[test]
fn same_input_gives_the_same_token() {
    let first = create_token_at("user-1".into(), SECRET, 60, 1_000).unwrap();
    let second = create_token_at("user-1".into(), SECRET, 60, 1_000).unwrap();
    assert_eq!(first, second);
    let later = create_token_at("user-1".into(), SECRET, 60, 1_001).unwrap();
    assert_ne!(first, later);
    let other = create_token_at("user-2".into(), SECRET, 60, 1_000).unwrap();
    assert_ne!(first, other);
}

#[test]
fn wrong_secret_does_not_verify() {
    let token = create_token_at("user-1".into(), SECRET, 3_600, 1_000).unwrap();
    assert_eq!(verify_token_at(&token, "other-secret", 1_000), None);
    assert_eq!(verify_token_at(&token, "", 1_000), None);
}

#[test]
fn tampered_token_does_not_verify() {
    let token = create_token_at("user-1".into(), SECRET, 3_600, 1_000).unwrap();
    let bytes = token.as_bytes();
    for i in 0..bytes.len() {
        let replacement = if bytes[i] == b'A' { b'B' } else { b'A' };
        let mut changed = bytes.to_vec();
        changed[i] = replacement;
        let changed = String::from_utf8(changed).unwrap();
        assert_eq!(verify_token_at(&changed, SECRET, 1_000), None, "byte {}", i);
    }
}

#[test]
fn claims_of_another_user_cannot_be_spliced_in() {
    let mine = create_token_at("user-1".into(), SECRET, 3_600, 1_000).unwrap();
    let theirs = create_token_at("user-2".into(), SECRET, 3_600, 1_000).unwrap();
    let mine: Vec<&str> = mine.split('.').collect();
    let theirs: Vec<&str> = theirs.split('.').collect();
    let spliced = format!("{}.{}.{}", mine[0], theirs[1], mine[2]);
    assert_eq!(verify_token_at(&spliced, SECRET, 1_000), None);
}

#[test]
fn malformed_tokens_do_not_verify() {
    for token in ["", "a", "a.b", "a.b.c", "a.b.c.d", "..", "Bearer x"] {
        assert_eq!(verify_token_at(token, SECRET, 0), None, "{:?}", token);
    }
}

#[test]
fn unsigned_token_does_not_verify() {
    let token = create_token_at("user-1".into(), SECRET, 3_600, 1_000).unwrap();
    let parts: Vec<&str> = token.split('.').collect();
    let unsigned = format!("{}.{}.", parts[0], parts[1]);
    assert_eq!(verify_token_at(&unsigned, SECRET, 1_000), None);
}

#[test]
fn signed_claims_without_subject_or_expiry_do_not_verify() {
    let no_sub = sign(object(vec![("exp", serde_json::Value::from(5_000u64))]), SECRET);
    assert_eq!(verify_token_at(&no_sub, SECRET, 1_000), None);
    let no_exp = sign(object(vec![("sub", serde_json::Value::from("user-1"))]), SECRET);
    assert_eq!(verify_token_at(&no_exp, SECRET, 1_000), None);
    let numeric_sub = sign(
        object(vec![
            ("sub", serde_json::Value::from(7u64)),
            ("exp", serde_json::Value::from(5_000u64)),
        ]),
        SECRET,
    );
    assert_eq!(verify_token_at(&numeric_sub, SECRET, 1_000), None);
    let text_exp = sign(
        object(vec![
            ("sub", serde_json::Value::from("user-1")),
            ("exp", serde_json::Value::from("5000")),
        ]),
        SECRET,
    );
    assert_eq!(verify_token_at(&text_exp, SECRET, 1_000), None);
}

#[test]
fn signed_claims_from_elsewhere_verify() {
    let token = sign(
        object(vec![
            ("sub", serde_json::Value::from("user-9")),
            ("exp", serde_json::Value::from(5_000u64)),
            ("extra", serde_json::Value::from(true)),
        ]),
        SECRET,
    );
    assert_eq!(verify_token_at(&token, SECRET, 4_999), Some("user-9".to_string()));
    assert_eq!(verify_token_at(&token, SECRET, 5_000), None);
}

#[test]
fn token_for_another_algorithm_does_not_verify() {
    let key = jsonwebtoken::EncodingKey::from_secret(SECRET.as_bytes());
    let claims = object(vec![
        ("sub", serde_json::Value::from("user-1")),
        ("exp", serde_json::Value::from(5_000u64)),
    ]);
    let header = jsonwebtoken::Header::new(jsonwebtoken::Algorithm::HS512);
    let token = jsonwebtoken::encode(&header, &claims, &key).unwrap();
    assert_eq!(verify_token_at(&token, SECRET, 1_000), None);
}

#[test]
fn subjects_of_any_text_round_trip() {
    for id in ["", "user-1", "ünï\"cødé\\", "a.b.c", "{\"sub\":1}", "line\nbreak"] {
        let token = create_token_at(id.to_string(), SECRET, 10, 100).unwrap();
        assert_eq!(verify_token_at(&token, SECRET, 105), Some(id.to_string()));
    }
}

#[test]
fn token_issued_now_is_valid_now() {
    let token = create_token("user-1".into(), SECRET, 3_600).unwrap();
    assert_eq!(verify_token(&token, SECRET), Some("user-1".to_string()));
    assert_eq!(verify_token(&token, "other"), None);
}

#[test]
fn token_issued_now_expires_after_its_duration() {
    let before = chrono::Utc::now().timestamp();
    let token = create_token("user-1".into(), SECRET, 3_600).unwrap();
    let after = chrono::Utc::now().timestamp();
    let exp = claims_of(&token, SECRET).get("exp").and_then(|v| v.as_u64()).unwrap() as i64;
    assert!(before + 3_600 <= exp && exp <= after + 3_600);
    assert_eq!(verify_token_at(&token, SECRET, exp - 1), Some("user-1".to_string()));
    assert_eq!(verify_token_at(&token, SECRET, exp), None);
}

#[test]
fn token_that_has_expired_is_refused_now() {
    let token = create_token("user-1".into(), SECRET, -1).unwrap();
    assert_eq!(verify_token(&token, SECRET), None);
    let long_gone = create_token_at("user-1".into(), SECRET, 10, 1_000).unwrap();
    assert_eq!(verify_token(&long_gone, SECRET), None);
}

#[test]
fn claims_are_read_against_the_time() {
    let claims = Payload { sub: "user-1".into(), exp: 100 };
    assert_eq!(subject_if_current(Some(claims.clone()), 99), Some("user-1".to_string()));
    assert_eq!(subject_if_current(Some(claims.clone()), 100), None);
    assert_eq!(subject_if_current(Some(claims.clone()), 101), None);
    assert_eq!(subject_if_current(Some(claims), -1), Some("user-1".to_string()));
    assert_eq!(subject_if_current(None, 0), None);
    let never = Payload { sub: "user-1".into(), exp: 0 };
    assert_eq!(subject_if_current(Some(never.clone()), 0), None);
    assert_eq!(subject_if_current(Some(never), -1), Some("user-1".to_string()));
}
