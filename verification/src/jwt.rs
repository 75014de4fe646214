//! Login tokens: building the bearer token handed to a client, splitting a
//! presented bearer token back into its parts, and the decisions taken on a
//! decoded token.
use vstd::prelude::*;
use vstd::utf8::*;

use crate::ids::{lemma_scru128_is_ascii, new_id};
use crate::utf8_facts::{lemma_ascii_len, lemma_split_concat};

verus! {

broadcast use group_utf8_lib;

/// Who asks for a token: the user's id and name.
pub struct AuthPayload {
    pub id: String,
    pub name: String,
}

/// What a token carries.
pub struct Claims {
    pub id: String,
    pub token_id: String,
    pub name: String,
    pub exp: i64,
}

/// Why a request is not authorised.
pub enum AuthError {
    WrongCredentials,
    MissingCredentials,
    TokenCreation,
    InvalidToken,
    CheckOutToken,
}

/// The token handed to a client after login: the signed token followed by
/// the session's token id.
pub struct AuthBody {
    token: String,
    token_type: String,
    pub exp: i64,
    exp_in: i64,
}

impl AuthBody {
    /// The token text.
    pub closed spec fn token_view(self) -> Seq<char> {
        self.token@
    }

    /// The token type text.
    pub closed spec fn token_type_view(self) -> Seq<char> {
        self.token_type@
    }

    /// When the token expires, in seconds since the epoch.
    pub closed spec fn exp_view(self) -> i64 {
        self.exp
    }

    /// Minutes the token lives.
    pub closed spec fn exp_in_view(self) -> i64 {
        self.exp_in
    }

    /// Builds the body: the signed token with the token id appended, of type
    /// `Bearer`.
    pub fn new(access_token: String, exp: i64, exp_in: i64, token_id: String) -> (body: Self)
        ensures
            body.token_view() == access_token@ + token_id@,
            body.token_type_view() == "Bearer"@,
            body.exp_view() == exp,
            body.exp_in_view() == exp_in,
    {
        let mut token = access_token;
        token.append(token_id.as_str());
        let token_type = "Bearer".to_owned();
        proof {
            reveal_strlit("Bearer");
        }
        AuthBody { token, token_type, exp, exp_in }
    }

    /// The token text.
    pub fn token(&self) -> (t: &String)
        ensures
            t@ == self.token_view(),
    {
        &self.token
    }

    /// The token type text.
    pub fn token_type(&self) -> (t: &String)
        ensures
            t@ == self.token_type_view(),
    {
        &self.token_type
    }

    /// Minutes the token lives.
    pub fn exp_in(&self) -> (m: i64)
        ensures
            m == self.exp_in_view(),
    {
        self.exp_in
    }
}

/// The byte length of a token id.
pub open spec fn token_id_bytes() -> int {
    25
}

/// Where a presented bearer text is cut: as many bytes from its end as a
/// token id has.
pub open spec fn bearer_cut(bearer: Seq<char>) -> int {
    encode_utf8(bearer).len() - token_id_bytes()
}

/// Whether a bearer text can be cut: it is long enough and the cut falls on
/// a character boundary.
pub open spec fn bearer_splittable(bearer: Seq<char>) -> bool {
    &&& encode_utf8(bearer).len() >= token_id_bytes()
    &&& is_char_boundary(encode_utf8(bearer), bearer_cut(bearer))
}

/// The token id part of a bearer text: its last bytes.
pub open spec fn bearer_token_id(bearer: Seq<char>) -> Seq<char> {
    let bytes = encode_utf8(bearer);
    decode_utf8(bytes.subrange(bearer_cut(bearer), bytes.len() as int))
}

/// The signed-token part of a bearer text: everything before the token id.
pub open spec fn bearer_jwt(bearer: Seq<char>) -> Seq<char> {
    decode_utf8(encode_utf8(bearer).subrange(0, bearer_cut(bearer)))
}

/// Splits a presented bearer text into the token id (its last 25 bytes, the
/// length of a fresh identifier) and the signed token before it.
pub fn get_bear_token(bearer: &str) -> (parts: (String, String))
    requires
        bearer_splittable(bearer@),
        encode_utf8(bearer@).len() <= usize::MAX,
    ensures
        parts.0@ == bearer_token_id(bearer@),
        parts.1@ == bearer_jwt(bearer@),
{
    let id = new_id();
    proof {
        lemma_scru128_is_ascii(id@);
        lemma_ascii_len(id@);
    }
    let id_len = id.as_str().len();
    assert(id_len == 25);
    assert(bearer.len() == encode_utf8(bearer@).len());
    let cut = bearer.len() - id_len;
    let (jwt, token_id) = bearer.split_at(cut);
    proof {
        assert(jwt@ == decode_utf8(encode_utf8(jwt@)));
        assert(token_id@ == decode_utf8(encode_utf8(token_id@)));
    }
    (token_id.to_owned(), jwt.to_owned())
}

/// The token a body carries splits back into the signed token and the token
/// id it was built from, whenever the token id is as long as a fresh
/// identifier (25 bytes), as every fresh identifier is.
pub proof fn law_bearer_round_trip(access_token: Seq<char>, token_id: Seq<char>)
    requires
        encode_utf8(token_id).len() == token_id_bytes(),
    ensures
        bearer_splittable(access_token + token_id),
        bearer_token_id(access_token + token_id) == token_id,
        bearer_jwt(access_token + token_id) == access_token,
{
    lemma_split_concat(access_token, token_id);
    crate::utf8_facts::lemma_encode_concat(access_token, token_id);
}


/// Declares the error type of `jsonwebtoken` so that its results can pass
/// through verified code.
#[verifier::external_type_specification]
#[verifier::external_body]
pub struct ExJwtError(jsonwebtoken::errors::Error);

/// The HS256 token that `jsonwebtoken::encode` produces, with the default
/// header, for the claims `{id, token_id, name, exp}` signed with `secret`.
pub uninterp spec fn jwt_token(
    id: Seq<char>,
    token_id: Seq<char>,
    name: Seq<char>,
    exp: i64,
    secret: Seq<char>,
) -> Seq<char>;

/// Calls `jsonwebtoken::encode` with the default (HS256) header on the
/// claims `{id, token_id, name, exp}` and the HMAC key made from the bytes of
/// `secret`. The crate's source shows a deterministic function of these
/// values, named `jwt_token`. It does not fail here: the key and the
/// default header are both of the HMAC family, a map of texts and an
/// integer always serialises, and HMAC signing always succeeds.
#[verifier::external_body]
fn encode_claims(id: &str, token_id: &str, name: &str, exp: i64, secret: &str) -> (r: Result<
    String,
    jsonwebtoken::errors::Error,
>)
    ensures
        r is Ok,
        r matches Ok(t) ==> t@ == jwt_token(id@, token_id@, name@, exp, secret@),
{
    let mut claims = serde_json::Map::new();
    claims.insert("id".to_owned(), serde_json::Value::from(id));
    claims.insert("token_id".to_owned(), serde_json::Value::from(token_id));
    claims.insert("name".to_owned(), serde_json::Value::from(name));
    claims.insert("exp".to_owned(), serde_json::Value::from(exp));
    let key = jsonwebtoken::EncodingKey::from_secret(secret.as_bytes());
    jsonwebtoken::encode(&jsonwebtoken::Header::default(), &claims, &key)
}

/// The last second (Unix time) of the year 262143, past the last moment
/// `chrono` can represent.
pub open spec fn chrono_max_timestamp() -> i64 {
    8210298412799
}

/// Calls `chrono::Local::now()` and takes its Unix timestamp in seconds.
/// Which value comes back depends on the clock. `Utc::now`, which it reads,
/// takes the time since the Unix epoch (panicking if the system clock reads
/// before 1970) and builds a date-time from it, panicking outside `chrono`'s
/// range; so the timestamp is never negative and never past that range.
#[verifier::external_body]
fn local_now_timestamp() -> (t: i64)
    ensures
        0 <= t <= chrono_max_timestamp(),
{
    chrono::Local::now().timestamp()
}

/// The largest number of minutes a token may live: a longer span is outside
/// the durations the time library represents.
pub open spec fn max_token_minutes() -> i64 {
    153722867280912
}

/// Whether a login payload lacks its id or its name.
pub open spec fn payload_incomplete(payload: AuthPayload) -> bool {
    payload.id@.len() == 0 || payload.name@.len() == 0
}

/// Issues a token for `payload` at time `now` (seconds since the epoch),
/// living `jwt_exp` minutes: a missing id or name is refused; an expiry
/// that does not fit in an `i64` is a token-creation error; otherwise the
/// token is issued.
pub fn authorize_at(payload: AuthPayload, token_id: String, jwt_secret: &str, jwt_exp: i64, now: i64) -> (r: Result<AuthBody, AuthError>)
    requires
        -max_token_minutes() <= jwt_exp <= max_token_minutes(),
    ensures
        payload_incomplete(payload) ==> r matches Err(AuthError::MissingCredentials),
        !payload_incomplete(payload) && !(i64::MIN <= now + jwt_exp * 60 <= i64::MAX)
            ==> r matches Err(AuthError::TokenCreation),
        !payload_incomplete(payload) && i64::MIN <= now + jwt_exp * 60 <= i64::MAX ==> {
            &&& r matches Ok(body)
            &&& body.exp_view() == now + jwt_exp * 60
            &&& body.exp_in_view() == jwt_exp
            &&& body.token_type_view() == "Bearer"@
            &&& body.token_view() == jwt_token(
                payload.id@,
                token_id@,
                payload.name@,
                body.exp_view(),
                jwt_secret@,
            ) + token_id@
        },
{
    if payload.id.as_str().is_empty() || payload.name.as_str().is_empty() {
        return Err(AuthError::MissingCredentials);
    }
    let span = jwt_exp * 60;
    let exp = match now.checked_add(span) {
        Some(t) => t,
        None => return Err(AuthError::TokenCreation),
    };
    let claims = Claims {
        id: payload.id,
        token_id: token_id.clone(),
        name: payload.name,
        exp,
    };
    match encode_claims(claims.id.as_str(), claims.token_id.as_str(), claims.name.as_str(), claims.exp, jwt_secret) {
        Ok(token) => Ok(AuthBody::new(token, claims.exp, jwt_exp, token_id)),
        Err(_) => Err(AuthError::WrongCredentials),
    }
}

/// Issues a token for `payload` that lives `jwt_exp` minutes from now: a
/// missing id or name is refused, and otherwise the token is issued (see
/// `authorize_at`, which takes the time as an argument; within the clock's
/// range the expiry always fits in an `i64`).
pub fn authorize(payload: AuthPayload, token_id: String, jwt_secret: &str, jwt_exp: i64) -> (r: Result<AuthBody, AuthError>)
    requires
        -max_token_minutes() <= jwt_exp <= max_token_minutes(),
    ensures
        payload_incomplete(payload) <==> r matches Err(AuthError::MissingCredentials),
        match r {
            Ok(body) => {
                &&& body.exp_in_view() == jwt_exp
                &&& body.token_type_view() == "Bearer"@
                &&& body.token_view() == jwt_token(
                    payload.id@,
                    token_id@,
                    payload.name@,
                    body.exp_view(),
                    jwt_secret@,
                ) + token_id@
            },
            Err(e) => e is MissingCredentials,
        },
        !payload_incomplete(payload) ==> r is Ok,
{
    let now = local_now_timestamp();
    assert(i64::MIN <= now + jwt_exp * 60 <= i64::MAX) by (nonlinear_arith)
        requires
            0 <= now <= chrono_max_timestamp(),
            -max_token_minutes() <= jwt_exp <= max_token_minutes(),
    ;
    authorize_at(payload, token_id, jwt_secret, jwt_exp, now)
}

/// How decoding a presented token failed.
pub enum JwtFailure {
    /// The text does not have the shape of a token.
    InvalidToken,
    /// The token's expiry has passed.
    ExpiredSignature,
    /// Any other failure (bad signature, bad claims, ...).
    Other,
}

/// The outcome of checking a presented token: the claims when it decoded
/// and its session is still online; otherwise the error each failure maps
/// to.
pub open spec fn spec_claims_outcome(decoded: Result<Claims, JwtFailure>, online: bool) -> Result<Claims, AuthError> {
    match decoded {
        Ok(c) => if online {
            Ok(c)
        } else {
            Err(AuthError::CheckOutToken)
        },
        Err(JwtFailure::InvalidToken) => Err(AuthError::InvalidToken),
        Err(JwtFailure::ExpiredSignature) => Err(AuthError::MissingCredentials),
        Err(JwtFailure::Other) => Err(AuthError::WrongCredentials),
    }
}

/// Decides on a presented token from the result of decoding it and, when it
/// decoded, whether its session is online.
pub fn claims_outcome(decoded: Result<Claims, JwtFailure>, online: bool) -> (r: Result<Claims, AuthError>)
    ensures
        r == spec_claims_outcome(decoded, online),
{
    match decoded {
        Ok(c) => if online {
            Ok(c)
        } else {
            Err(AuthError::CheckOutToken)
        },
        Err(JwtFailure::InvalidToken) => Err(AuthError::InvalidToken),
        Err(JwtFailure::ExpiredSignature) => Err(AuthError::MissingCredentials),
        Err(JwtFailure::Other) => Err(AuthError::WrongCredentials),
    }
}

impl AuthError {
    /// The HTTP status and message of this error's response.
    pub open spec fn spec_response(self) -> (u16, Seq<char>) {
        match self {
            AuthError::WrongCredentials => (401, "Wrong credentials"@),
            AuthError::MissingCredentials => (400, "Missing credentials"@),
            AuthError::TokenCreation => (500, "Token creation error"@),
            AuthError::InvalidToken => (400, "Invalid token"@),
            AuthError::CheckOutToken => (401, "该账户已经退出"@),
        }
    }

    /// The HTTP status and message this error is answered with.
    pub fn response(&self) -> (r: (u16, String))
        ensures
            r.0 == self.spec_response().0,
            r.1@ == self.spec_response().1,
    {
        match self {
            AuthError::WrongCredentials => (401, "Wrong credentials".to_owned()),
            AuthError::MissingCredentials => (400, "Missing credentials".to_owned()),
            AuthError::TokenCreation => (500, "Token creation error".to_owned()),
            AuthError::InvalidToken => (400, "Invalid token".to_owned()),
            AuthError::CheckOutToken => (401, "该账户已经退出".to_owned()),
        }
    }
}

} // verus!
