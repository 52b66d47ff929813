use globchat::err::GlobError;
use globchat::decimal::ParseFault;
use globchat::jwt::RawClaims;
use globchat::routes::auth::{check_claims, generate_jwt, inspect_token, issue_at, verify_at, verify_token, TokenFault, TOKEN_TTL};
use jsonwebtoken::{encode, EncodingKey, Header};
use serde_json::Value;

const SECRET: &str = "a secret for the tests";
const T: i64 = 1_700_000_000;
const U: i64 = 7230000000000000001;

fn sign(body: serde_json::Map<String, Value>, secret: &str) -> String {
    encode(&Header::default(), &body, &EncodingKey::from_secret(secret.as_bytes())).unwrap()
}

fn body(sub: Option<Value>, exp: Option<Value>, iat: Option<Value>) -> serde_json::Map<String, Value> {
    let mut body = serde_json::Map::new();
    if let Some(sub) = sub {
        body.insert(String::from("sub"), sub);
    }
    if let Some(exp) = exp {
        body.insert(String::from("exp"), exp);
    }
    if let Some(iat) = iat {
        body.insert(String::from("iat"), iat);
    }
    body
}

#[test]
fn the_lifetime_is_eight_hours() {
    assert_eq!(TOKEN_TTL, 8 * 60 * 60);
}

#[test]
fn a_token_resolves_to_its_user_one_second_before_expiry() {
    let token = issue_at(U, SECRET, T).unwrap();
    assert_eq!(verify_at(&token, SECRET, T + TOKEN_TTL as i64 - 1), Ok(U));
}

#[test]
fn a_token_resolves_to_an_error_one_second_after_expiry() {
    let token = issue_at(U, SECRET, T).unwrap();
    assert_eq!(verify_at(&token, SECRET, T + TOKEN_TTL as i64 + 1), Err(GlobError::Unauthenticated));
    assert_eq!(inspect_token(&token, SECRET, T + TOKEN_TTL as i64 + 1), Err(TokenFault::Expired));
}

#[test]
fn a_token_holds_at_both_ends_of_its_lifetime() {
    let token = issue_at(U, SECRET, T).unwrap();
    assert_eq!(verify_at(&token, SECRET, T), Ok(U));
    assert_eq!(verify_at(&token, SECRET, T + TOKEN_TTL as i64), Ok(U));
}

#[test]
fn a_token_does_not_hold_before_it_was_issued() {
    let token = issue_at(U, SECRET, T).unwrap();
    assert_eq!(verify_at(&token, SECRET, T - 1), Err(GlobError::Unauthenticated));
    assert_eq!(inspect_token(&token, SECRET, T - 1), Err(TokenFault::NotYetValid));
    assert_eq!(inspect_token(&token, SECRET, -5), Err(TokenFault::NotYetValid));
}

#[test]
fn a_token_carries_the_three_claims() {
    let token = issue_at(-12, SECRET, T).unwrap();
    let key = jsonwebtoken::DecodingKey::from_secret(SECRET.as_bytes());
    let mut rules = jsonwebtoken::Validation::new(jsonwebtoken::Algorithm::HS256);
    rules.validate_exp = false;
    let data = jsonwebtoken::decode::<Value>(&token, &key, &rules).unwrap();
    assert_eq!(data.claims["sub"], Value::from("-12"));
    assert_eq!(data.claims["iat"], Value::from(1_700_000_000u64));
    assert_eq!(data.claims["exp"], Value::from(1_700_028_800u64));
    assert_eq!(data.header.alg, jsonwebtoken::Algorithm::HS256);
}

#[test]
fn a_token_is_three_parts_and_not_its_claims() {
    let token = issue_at(U, SECRET, T).unwrap();
    assert_eq!(token.split('.').count(), 3);
    assert!(!token.contains("7230000000000000001"));
}

#[test]
fn issuing_is_repeatable() {
    assert_eq!(issue_at(U, SECRET, T), issue_at(U, SECRET, T));
    assert_ne!(issue_at(U, SECRET, T), issue_at(U, SECRET, T + 1));
    assert_ne!(issue_at(U, SECRET, T), issue_at(U + 1, SECRET, T));
    assert_ne!(issue_at(U, SECRET, T), issue_at(U, "another secret", T));
}

#[test]
fn a_time_before_the_epoch_issues_nothing() {
    assert!(matches!(issue_at(U, SECRET, -1), Err(GlobError::JwtError(_))));
    assert_eq!(issue_at(U, SECRET, -1).unwrap_err().code(), 401);
}

#[test]
fn another_secret_rejects_the_token() {
    let token = issue_at(U, SECRET, T).unwrap();
    assert_eq!(verify_at(&token, "another secret", T + 1), Err(GlobError::Unauthenticated));
    assert_eq!(inspect_token(&token, "another secret", T + 1), Err(TokenFault::Rejected));
}

#[test]
fn a_tampered_token_is_rejected() {
    let token = issue_at(U, SECRET, T).unwrap();
    let mut parts: Vec<String> = token.split('.').map(String::from).collect();
    let forged = sign(body(Some(Value::from("1")), Some(Value::from(u64::MAX)), Some(Value::from(0u64))), "guess");
    parts[1] = forged.split('.').nth(1).unwrap().to_string();
    assert_eq!(inspect_token(&parts.join("."), SECRET, T + 1), Err(TokenFault::Rejected));
}

#[test]
fn text_that_is_no_token_is_rejected() {
    assert_eq!(inspect_token("", SECRET, T), Err(TokenFault::Rejected));
    assert_eq!(inspect_token("a.b.c", SECRET, T), Err(TokenFault::Rejected));
    assert_eq!(inspect_token("not a token", SECRET, T), Err(TokenFault::Rejected));
    assert_eq!(verify_at("a.b", SECRET, T), Err(GlobError::Unauthenticated));
}

#[test]
fn a_subject_that_is_no_identity_is_a_fault() {
    let token = sign(body(Some(Value::from("alice")), Some(Value::from(T as u64 + 10)), Some(Value::from(T as u64))), SECRET);
    assert_eq!(inspect_token(&token, SECRET, T + 1), Err(TokenFault::BadSubject(ParseFault::InvalidDigit)));
    assert_eq!(verify_at(&token, SECRET, T + 1), Err(GlobError::Unauthenticated));
}

#[test]
fn a_subject_of_the_wrong_type_is_a_missing_claim() {
    let token = sign(body(Some(Value::from(17)), Some(Value::from(T as u64 + 10)), Some(Value::from(T as u64))), SECRET);
    assert_eq!(inspect_token(&token, SECRET, T + 1), Err(TokenFault::MissingClaim));
    assert_eq!(verify_at(&token, SECRET, T + 1), Err(GlobError::Unauthenticated));
}

#[test]
fn a_token_without_issue_time_is_a_missing_claim() {
    let token = sign(body(Some(Value::from("17")), Some(Value::from(T as u64 + 10)), None), SECRET);
    assert_eq!(inspect_token(&token, SECRET, T + 1), Err(TokenFault::MissingClaim));
}

#[test]
fn a_token_without_expiry_is_rejected() {
    let token = sign(body(Some(Value::from("17")), None, Some(Value::from(T as u64))), SECRET);
    assert_eq!(inspect_token(&token, SECRET, T + 1), Err(TokenFault::Rejected));
}

#[test]
fn a_foreign_token_with_all_claims_resolves() {
    let token = sign(body(Some(Value::from("17")), Some(Value::from(T as u64 + 10)), Some(Value::from(T as u64))), SECRET);
    assert_eq!(inspect_token(&token, SECRET, T + 10), Ok(17));
    assert_eq!(inspect_token(&token, SECRET, T + 11), Err(TokenFault::Expired));
}

#[test]
fn claims_are_checked_in_order() {
    let all = RawClaims { sub: Some(String::from("5")), exp: Some(20), iat: Some(10) };
    assert_eq!(check_claims(&all, 10), Ok(5));
    assert_eq!(check_claims(&all, 20), Ok(5));
    assert_eq!(check_claims(&all, 9), Err(TokenFault::NotYetValid));
    assert_eq!(check_claims(&all, 21), Err(TokenFault::Expired));
    let odd = RawClaims { sub: Some(String::from("")), exp: Some(20), iat: Some(10) };
    assert_eq!(check_claims(&odd, 15), Err(TokenFault::BadSubject(ParseFault::Empty)));
    assert_eq!(check_claims(&odd, 25), Err(TokenFault::Expired));
    let huge = RawClaims { sub: Some(String::from("9223372036854775808")), exp: Some(u64::MAX), iat: Some(0) };
    assert_eq!(check_claims(&huge, i64::MAX), Err(TokenFault::BadSubject(ParseFault::PosOverflow)));
    let bare = RawClaims { sub: None, exp: Some(20), iat: Some(10) };
    assert_eq!(check_claims(&bare, 15), Err(TokenFault::MissingClaim));
}

#[test]
fn a_token_issued_now_verifies_now() {
    let token = generate_jwt(U, String::from(SECRET)).unwrap();
    assert_eq!(verify_token(&token, SECRET), Ok(U));
    assert_eq!(verify_token(&token, "another secret"), Err(GlobError::Unauthenticated));
}

#[test]
fn an_old_token_does_not_verify_now() {
    let token = issue_at(U, SECRET, T - 10 * TOKEN_TTL as i64).unwrap();
    assert_eq!(verify_token(&token, SECRET), Err(GlobError::Unauthenticated));
}

#[test]
fn a_token_from_the_future_does_not_verify_now() {
    let token = issue_at(U, SECRET, 32_503_680_000).unwrap();
    assert_eq!(verify_token(&token, SECRET), Err(GlobError::Unauthenticated));
}
