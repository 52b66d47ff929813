use globchat::err::GlobError;
use globchat::extract::{bearer_token, Authenticated};
use globchat::model::UserData;
use globchat::routes::auth::{issue_at, TOKEN_TTL};

const SECRET: &str = "a secret for the tests";
const T: i64 = 1_700_000_000;

fn user(id: i64) -> UserData {
    UserData { username: String::from("alice"), password: String::from("$argon2id$..."), id, timestamp: 1, messages: vec![] }
}

#[test]
fn the_token_follows_the_scheme() {
    assert_eq!(bearer_token("Bearer abc.def.ghi"), Ok(String::from("abc.def.ghi")));
}

#[test]
fn a_bare_token_is_taken_as_it_is() {
    assert_eq!(bearer_token("abc.def.ghi"), Ok(String::from("abc.def.ghi")));
}

#[test]
fn white_space_around_the_token_is_dropped() {
    assert_eq!(bearer_token("  Bearer \t abc  "), Ok(String::from("abc")));
    assert_eq!(bearer_token("Bearer\nabc\r\n"), Ok(String::from("abc")));
    assert_eq!(bearer_token("abc Bearer"), Ok(String::from("abc")));
    assert_eq!(bearer_token("a b"), Ok(String::from("a b")));
}

#[test]
fn the_scheme_is_taken_out_wherever_it_stands() {
    assert_eq!(bearer_token("BearerBearer x"), Ok(String::from("x")));
    assert_eq!(bearer_token("aBearerb"), Ok(String::from("ab")));
    assert_eq!(bearer_token("BeaBearerrer x"), Ok(String::from("Bearer x")));
    assert_eq!(bearer_token("bearer x"), Ok(String::from("bearer x")));
    assert_eq!(bearer_token("Beare"), Ok(String::from("Beare")));
}

#[test]
fn an_empty_token_is_unauthenticated() {
    assert_eq!(bearer_token(""), Err(GlobError::Unauthenticated));
    assert_eq!(bearer_token("Bearer"), Err(GlobError::Unauthenticated));
    assert_eq!(bearer_token("Bearer "), Err(GlobError::Unauthenticated));
    assert_eq!(bearer_token("  \t "), Err(GlobError::Unauthenticated));
    assert_eq!(bearer_token(" Bearer Bearer "), Err(GlobError::Unauthenticated));
}

#[test]
fn a_header_that_is_not_ascii_cannot_be_read() {
    assert!(matches!(bearer_token("Bearer tök"), Err(GlobError::StringError(_))));
    assert!(matches!(bearer_token("é"), Err(GlobError::StringError(_))));
}

#[test]
fn the_token_is_what_replace_and_trim_leave() {
    let samples = vec!["Bearer abc", "abc", "", "Bearer", " Bearer  x y ", "BearerBearer", "xBearer Bearery", "BBearerearer", "\tBearer\ta\t", "Bear er", "rerBearerBea", "Bearer Bearer Bearer z"];
    for header in samples {
        let expected = header.replace("Bearer", "");
        let expected = expected.trim();
        match bearer_token(header) {
            Ok(token) => assert_eq!(token, expected),
            Err(e) => {
                assert_eq!(e, GlobError::Unauthenticated);
                assert!(expected.is_empty());
            }
        }
    }
}

#[test]
fn a_missing_header_is_unauthenticated() {
    assert_eq!(Authenticated::identify_at(None, SECRET, T), Err(GlobError::Unauthenticated));
    assert_eq!(Authenticated::identify(None, SECRET), Err(GlobError::Unauthenticated));
}

#[test]
fn an_empty_header_is_unauthenticated() {
    assert_eq!(Authenticated::identify_at(Some(""), SECRET, T), Err(GlobError::Unauthenticated));
    assert_eq!(Authenticated::identify_at(Some("Bearer "), SECRET, T), Err(GlobError::Unauthenticated));
}

#[test]
fn a_valid_token_names_the_identity_to_look_up() {
    let token = issue_at(77, SECRET, T).unwrap();
    let header = format!("Bearer {}", token);
    assert_eq!(Authenticated::identify_at(Some(&header), SECRET, T + 5), Ok(77));
    assert_eq!(Authenticated::identify_at(Some(&token), SECRET, T + 5), Ok(77));
}

#[test]
fn an_expired_or_forged_token_is_unauthenticated() {
    let token = issue_at(77, SECRET, T).unwrap();
    let header = format!("Bearer {}", token);
    assert_eq!(Authenticated::identify_at(Some(&header), SECRET, T + TOKEN_TTL as i64 + 1), Err(GlobError::Unauthenticated));
    assert_eq!(Authenticated::identify_at(Some(&header), "another secret", T + 5), Err(GlobError::Unauthenticated));
    assert_eq!(Authenticated::identify_at(Some("Bearer a.b.c"), SECRET, T + 5), Err(GlobError::Unauthenticated));
    assert_eq!(Authenticated::identify(Some(&header), SECRET), Err(GlobError::Unauthenticated));
}

#[test]
fn an_unreadable_header_is_a_string_error() {
    assert!(matches!(Authenticated::identify_at(Some("Bearer ü"), SECRET, T), Err(GlobError::StringError(_))));
}

#[test]
fn a_known_user_passes() {
    assert_eq!(Authenticated::from_lookup(Some(user(77))), Ok(Authenticated(user(77))));
}

#[test]
fn a_user_the_store_does_not_know_is_unauthenticated() {
    assert_eq!(Authenticated::from_lookup(None), Err(GlobError::Unauthenticated));
    assert_eq!(GlobError::Unauthenticated.code(), 401);
}
