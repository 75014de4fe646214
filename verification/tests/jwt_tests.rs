use axum_admin::links::rows_for_left;
use axum_admin::jwt::{authorize, authorize_at, claims_outcome, get_bear_token, AuthBody, AuthError, AuthPayload, Claims, JwtFailure};

fn payload(id: &str, name: &str) -> AuthPayload {
    AuthPayload { id: id.to_string(), name: name.to_string() }
}

#[test]
fn fresh_ids_are_canonical() {
    let rows = rows_for_left("u1", &vec!["r1".to_string()], "admin");
    let id = rows[0].id.clone();
    assert_eq!(id.len(), 25);
    assert!(id.chars().all(|c| c.is_ascii_digit() || c.is_ascii_uppercase()));
}

#[test]
fn auth_body_appends_token_id() {
    let b = AuthBody::new("jwt.part.sig".to_string(), 100, 30, "0123456789ABCDEFGHIJKLMNO".to_string());
    assert_eq!(b.token(), "jwt.part.sig0123456789ABCDEFGHIJKLMNO");
    assert_eq!(b.token_type(), "Bearer");
    assert_eq!(b.exp, 100);
    assert_eq!(b.exp_in(), 30);
}

#[test]
fn bearer_token_splits_back() {
    let tid = scru128::new_string();
    let b = AuthBody::new("aaa.bbb.ccc".to_string(), 1, 1, tid.clone());
    let (token_id, jwt) = get_bear_token(b.token());
    assert_eq!(token_id, tid);
    assert_eq!(jwt, "aaa.bbb.ccc");
}

#[test]
fn bearer_of_exactly_an_id() {
    let (token_id, jwt) = get_bear_token("0123456789ABCDEFGHIJKLMNO");
    assert_eq!(token_id, "0123456789ABCDEFGHIJKLMNO");
    assert_eq!(jwt, "");
}

#[test]
fn missing_credentials_are_refused() {
    let r = authorize(payload("", "bob"), "T".to_string(), "secret", 60);
    assert!(matches!(r, Err(AuthError::MissingCredentials)));
    let r = authorize(payload("1", ""), "T".to_string(), "secret", 60);
    assert!(matches!(r, Err(AuthError::MissingCredentials)));
}

#[test]
fn token_issued_at_a_given_time() {
    let tid = "0123456789ABCDEFGHIJKLMNO".to_string();
    let b = match authorize_at(payload("u1", "bob"), tid.clone(), "secret", 30, 1_000_000) {
        Ok(b) => b,
        Err(_) => panic!("expected a token"),
    };
    assert_eq!(b.exp, 1_000_000 + 30 * 60);
    assert_eq!(b.exp_in(), 30);
    assert_eq!(b.token_type(), "Bearer");
    assert!(b.token().ends_with(&tid));
    let jwt = &b.token()[..b.token().len() - 25];
    let mut validation = jsonwebtoken::Validation::default();
    validation.validate_exp = false;
    let data = jsonwebtoken::decode::<serde_json::Value>(jwt, &jsonwebtoken::DecodingKey::from_secret(b"secret"), &validation).unwrap();
    assert_eq!(data.claims["id"], "u1");
    assert_eq!(data.claims["token_id"], "0123456789ABCDEFGHIJKLMNO");
    assert_eq!(data.claims["name"], "bob");
    assert_eq!(data.claims["exp"], 1_000_000 + 30 * 60);
}

#[test]
fn expiry_out_of_range_is_a_creation_error() {
    let r = authorize_at(payload("u1", "bob"), "T".to_string(), "secret", 60, i64::MAX - 10);
    assert!(matches!(r, Err(AuthError::TokenCreation)));
}

#[test]
fn token_issued_now_verifies() {
    let b = match authorize(payload("u1", "bob"), scru128::new_string(), "k", 5) {
        Ok(b) => b,
        Err(_) => panic!("expected a token"),
    };
    let (tid, jwt) = get_bear_token(b.token());
    let data = jsonwebtoken::decode::<serde_json::Value>(&jwt, &jsonwebtoken::DecodingKey::from_secret(b"k"), &jsonwebtoken::Validation::default()).unwrap();
    assert_eq!(data.claims["token_id"], serde_json::Value::from(tid));
    assert_eq!(data.claims["exp"], b.exp);
}

fn claims() -> Claims {
    Claims { id: "1".to_string(), token_id: "t".to_string(), name: "n".to_string(), exp: 5 }
}

#[test]
fn decoded_claims_of_an_online_session_pass() {
    match claims_outcome(Ok(claims()), true) {
        Ok(c) => {
            assert_eq!(c.id, "1");
            assert_eq!(c.exp, 5);
        }
        Err(_) => panic!("expected claims"),
    }
}

#[test]
fn token_failures_map_to_errors() {
    assert!(matches!(claims_outcome(Ok(claims()), false), Err(AuthError::CheckOutToken)));
    assert!(matches!(claims_outcome(Err(JwtFailure::InvalidToken), true), Err(AuthError::InvalidToken)));
    assert!(matches!(claims_outcome(Err(JwtFailure::ExpiredSignature), true), Err(AuthError::MissingCredentials)));
    assert!(matches!(claims_outcome(Err(JwtFailure::Other), true), Err(AuthError::WrongCredentials)));
}

#[test]
fn error_responses() {
    assert_eq!(AuthError::WrongCredentials.response(), (401, "Wrong credentials".to_string()));
    assert_eq!(AuthError::MissingCredentials.response(), (400, "Missing credentials".to_string()));
    assert_eq!(AuthError::TokenCreation.response(), (500, "Token creation error".to_string()));
    assert_eq!(AuthError::InvalidToken.response(), (400, "Invalid token".to_string()));
    assert_eq!(AuthError::CheckOutToken.response(), (401, "该账户已经退出".to_string()));
}

#[test]
fn bearer_with_any_25_byte_id_splits_back() {
    let b = AuthBody::new("h.p.s".to_string(), 1, 1, "abcdefghijklmnopqrstuvwxy".to_string());
    let (token_id, jwt) = get_bear_token(b.token());
    assert_eq!(token_id, "abcdefghijklmnopqrstuvwxy");
    assert_eq!(jwt, "h.p.s");
}

#[test]
fn complete_payload_in_range_gets_a_token() {
    assert!(authorize_at(payload("u1", "bob"), "0123456789ABCDEFGHIJKLMNO".to_string(), "secret", 30, 1_700_000_000).is_ok());
}

#[test]
fn complete_payload_is_always_issued_a_token() {
    assert!(authorize(payload("u1", "bob"), scru128::new_string(), "k", 153_722_867_280_912).is_ok());
    assert!(authorize(payload("u1", "bob"), scru128::new_string(), "k", -153_722_867_280_912).is_ok());
    assert!(authorize(payload("u1", "bob"), scru128::new_string(), "k", 0).is_ok());
}
