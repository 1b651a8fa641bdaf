//! Login: the user store, bcrypt password checks, and issuing and checking the
//! JSON Web Tokens that the gateway hands out.

use crate::clock::{now_timestamp, MAX_UTC_TIMESTAMP};
use jsonwebtoken::errors::ErrorKind;
use vstd::prelude::*;

verus! {

/// The key that signs and checks tokens when none is configured (the
/// development default).
pub const DEFAULT_JWT_SECRET: &'static str = "your-secret-key";

/// How long an issued token stays valid: 24 hours, in seconds.
pub const TOKEN_LIFETIME_SECS: i64 = 86400;

/// The one account of the built-in user store.
pub const DEFAULT_USERNAME: &'static str = "alice";

/// The password of the built-in account.
pub const DEFAULT_PASSWORD: &'static str = "password123";

/// The claims a token carries: its subject, and its expiry and issue times in
/// seconds since the epoch.
#[derive(Debug)]
pub struct Claims {
    pub sub: String,
    pub exp: usize,
    pub iat: usize,
}

impl Clone for Claims {
    fn clone(&self) -> (r: Self)
        ensures
            r == *self,
    {
        Claims { sub: self.sub.clone(), exp: self.exp, iat: self.iat }
    }
}

/// Why a token was refused: it has expired, its signature does not match,
/// its claims lack a field, or jsonwebtoken refused it for another reason
/// (with jsonwebtoken's description).
#[derive(Debug)]
pub enum TokenError {
    ExpiredSignature,
    InvalidSignature,
    MalformedClaims,
    Rejected(String),
}

/// The compact JWS text that jsonwebtoken produces for the HS256 token with the
/// default header and the claims `{"sub": sub, "exp": exp, "iat": iat}`, signed
/// with `secret`.
pub uninterp spec fn jwt_encoding(secret: Seq<char>, sub: Seq<char>, exp: usize, iat: usize) -> Seq<char>;

/// Whether `token` carries a valid HS256 signature under `secret`, as
/// jsonwebtoken checks it: the text after the last `.` is the unpadded
/// base64url HMAC-SHA256 under `secret` of the text before it, and the part
/// before that text's last `.` decodes to a header that names HS256.
pub uninterp spec fn jwt_signature_valid(secret: Seq<char>, token: Seq<char>) -> bool;

/// The number of `.` characters in `s`.
pub open spec fn dot_count(s: Seq<char>) -> nat
    decreases s.len(),
{
    if s.len() == 0 {
        0
    } else {
        dot_count(s.drop_last()) + if s.last() == '.' {
            1nat
        } else {
            0nat
        }
    }
}

/// Signs the claims `(sub, exp, iat)` with `secret` into a token.
/// Calls `jsonwebtoken::encode` with `Header::default()` (HS256) on a JSON
/// object whose fields are written in the order sub, exp, iat. Claimed: the
/// token is the named encoding of its arguments and, as the source builds it
/// (`header.claims` joined to the signature by `.`, each part unpadded
/// base64url), a non-empty text with exactly two dots, whose signature
/// jsonwebtoken's check accepts under the same secret. The call cannot fail: an
/// HMAC secret matches HS256, and the JSON serialization of a map of strings
/// and numbers does not fail.
#[verifier::external_body]
fn encode_jwt(secret: &str, sub: &str, exp: usize, iat: usize) -> (token: String)
    ensures
        token@ == jwt_encoding(secret@, sub@, exp, iat),
        token@.len() > 0,
        dot_count(token@) == 2,
        jwt_signature_valid(secret@, token@),
{
    let mut claims = serde_json::Map::new();
    claims.insert("sub".to_owned(), serde_json::Value::from(sub));
    claims.insert("exp".to_owned(), serde_json::Value::from(exp));
    claims.insert("iat".to_owned(), serde_json::Value::from(iat));
    let key = jsonwebtoken::EncodingKey::from_secret(secret.as_bytes());
    jsonwebtoken::encode(&jsonwebtoken::Header::default(), &claims, &key).unwrap()
}

/// The `sub` text, and the `exp` and `iat` numbers, that the claims part of
/// `token` holds (each `None` when missing or of another type): the payload
/// between the token's first and last `.`, decoded from unpadded base64url
/// and read as a JSON object.
pub uninterp spec fn jwt_claim_fields(token: Seq<char>) -> (Option<Seq<char>>, Option<u64>, Option<u64>);

/// The claim fields read from a token, as plain values.
pub open spec fn fields_view(f: (Option<String>, Option<u64>, Option<u64>)) -> (
    Option<Seq<char>>,
    Option<u64>,
    Option<u64>,
) {
    (
        match f.0 {
            Some(t) => Some(t@),
            None => None,
        },
        f.1,
        f.2,
    )
}

/// The claims part of `token` has a text `sub` and numbers `exp` and `iat`
/// that fit a `usize`.
pub open spec fn fields_complete(f: (Option<Seq<char>>, Option<u64>, Option<u64>)) -> bool {
    &&& f.0 is Some
    &&& f.1 matches Some(e) && e <= usize::MAX
    &&& f.2 matches Some(i) && i <= usize::MAX
}

/// `r` is a successful read of the fields `sub`, `exp` and `iat`.
pub open spec fn encoded_fields_read(
    r: Result<(Option<String>, Option<u64>, Option<u64>), TokenError>,
    sub: Seq<char>,
    exp: usize,
    iat: usize,
) -> bool {
    r matches Ok(f) && fields_view(f) == (Some(sub), Some(exp as u64), Some(iat as u64))
}

/// Checks the signature of `token` under `secret` and reads its `sub`, `exp`
/// and `iat` fields, without checking any claim.
/// Calls `jsonwebtoken::decode` into a JSON object with `Validation::default()`
/// (HS256) turned to check no claim (no expiry, no audience, no required
/// claim), then reads the three fields with `Value::as_str` and
/// `Value::as_u64`; a bad signature becomes `InvalidSignature`, any other
/// error `Rejected` with its text. Claimed, as the source shows: a success
/// only for a valid signature, with exactly the fields of the token's claims
/// part; `InvalidSignature` only for an invalid one; and for a token that
/// `encode_jwt` made with the same secret, a success with the encoded fields.
#[verifier::external_body]
fn read_jwt_claims(token: &str, secret: &str) -> (r: Result<(Option<String>, Option<u64>, Option<u64>), TokenError>)
    ensures
        r matches Ok(f) ==> jwt_signature_valid(secret@, token@) && fields_view(f) == jwt_claim_fields(token@),
        r matches Err(TokenError::InvalidSignature) ==> !jwt_signature_valid(secret@, token@),
        !(r matches Err(TokenError::ExpiredSignature)),
        !(r matches Err(TokenError::MalformedClaims)),
        forall|sub: Seq<char>, exp: usize, iat: usize|
            #[trigger] jwt_encoding(secret@, sub, exp, iat) == token@ ==> encoded_fields_read(r, sub, exp, iat),
{
    let key = jsonwebtoken::DecodingKey::from_secret(secret.as_bytes());
    let mut rules = jsonwebtoken::Validation::default();
    rules.validate_exp = false;
    rules.validate_aud = false;
    rules.required_spec_claims.clear();
    match jsonwebtoken::decode::<serde_json::Map<String, serde_json::Value>>(token, &key, &rules) {
        Ok(data) => Ok((
            data.claims.get("sub").and_then(serde_json::Value::as_str).map(str::to_owned),
            data.claims.get("exp").and_then(serde_json::Value::as_u64),
            data.claims.get("iat").and_then(serde_json::Value::as_u64),
        )),
        Err(e) if matches!(e.kind(), ErrorKind::InvalidSignature) => Err(TokenError::InvalidSignature),
        Err(e) => Err(TokenError::Rejected(e.to_string())),
    }
}

/// Checks `token` under `secret` as jsonwebtoken's default validation does.
/// Calls `jsonwebtoken::decode` into a JSON object with `Validation::default()`
/// (HS256, `exp` required and checked against the clock with 60 s of leeway,
/// an `aud` claim refused); its error becomes `ExpiredSignature`,
/// `InvalidSignature`, or `Rejected` with the error's text for any other kind.
/// The outcome depends on the clock, so only this is claimed. The signature is
/// checked before any claim: a success, and an expiry, come only for a token
/// whose signature is valid under `secret`, and `InvalidSignature` only for
/// one whose signature is not (`MalformedClaims` never comes from here). For
/// a token that `encode_jwt` made with the same secret, the only possible
/// failure is the expiry check.
#[verifier::external_body]
fn check_jwt(token: &str, secret: &str) -> (r: Result<(), TokenError>)
    ensures
        forall|sub: Seq<char>, exp: usize, iat: usize|
            #[trigger] jwt_encoding(secret@, sub, exp, iat) == token@ ==> (r is Ok || r matches Err(
                TokenError::ExpiredSignature,
            )),
        r is Ok ==> jwt_signature_valid(secret@, token@),
        r matches Err(TokenError::ExpiredSignature) ==> jwt_signature_valid(secret@, token@),
        r matches Err(TokenError::InvalidSignature) ==> !jwt_signature_valid(secret@, token@),
        !(r matches Err(TokenError::MalformedClaims)),
{
    let key = jsonwebtoken::DecodingKey::from_secret(secret.as_bytes());
    match jsonwebtoken::decode::<serde_json::Map<String, serde_json::Value>>(token, &key, &jsonwebtoken::Validation::default()) {
        Ok(_) => Ok(()),
        Err(e) => match e.kind() {
            ErrorKind::ExpiredSignature => Err(TokenError::ExpiredSignature),
            ErrorKind::InvalidSignature => Err(TokenError::InvalidSignature),
            _ => Err(TokenError::Rejected(e.to_string())),
        },
    }
}

/// The claims issued at `now` for `user_id`.
pub open spec fn spec_issued_claims(user_id: Seq<char>, now: i64) -> (Seq<char>, usize, usize) {
    (user_id, spec_issued_times(now).0, spec_issued_times(now).1)
}

/// The expiry and issue times of a token issued at `now`.
pub open spec fn spec_issued_times(now: i64) -> (usize, usize) {
    ((now + TOKEN_LIFETIME_SECS) as usize, now as usize)
}

/// `token` is a token for `user_id`, signed with `secret`, issued at some
/// moment the clock can show.
pub open spec fn issued_token_for(secret: Seq<char>, token: Seq<char>, user_id: Seq<char>) -> bool {
    &&& exists|now: i64|
        0 <= now <= MAX_UTC_TIMESTAMP && #[trigger] jwt_encoding(
            secret,
            user_id,
            (now + TOKEN_LIFETIME_SECS) as usize,
            now as usize,
        ) == token
    &&& token.len() > 0
    &&& dot_count(token) == 2
    &&& jwt_signature_valid(secret, token)
}

/// The claims for `user_id` issued at `now`: expiring a day later.
pub fn issue_claims(user_id: &str, now: i64) -> (c: Claims)
    requires
        now <= i64::MAX - TOKEN_LIFETIME_SECS,
    ensures
        (c.sub@, c.exp, c.iat) == spec_issued_claims(user_id@, now),
{
    Claims {
        sub: user_id.to_owned(),
        exp: (now + TOKEN_LIFETIME_SECS) as usize,
        iat: now as usize,
    }
}

/// The token for `user_id` issued at `now`, signed with `secret`.
pub fn token_for(user_id: &str, now: i64, secret: &str) -> (token: String)
    requires
        now <= i64::MAX - TOKEN_LIFETIME_SECS,
    ensures
        token@ == jwt_encoding(
            secret@,
            user_id@,
            (now + TOKEN_LIFETIME_SECS) as usize,
            now as usize,
        ),
        token@.len() > 0,
        dot_count(token@) == 2,
        jwt_signature_valid(secret@, token@),
{
    let claims = issue_claims(user_id, now);
    encode_jwt(secret, claims.sub.as_str(), claims.exp, claims.iat)
}

/// Law: a token depends only on the user, the clock second and the key: the
/// tokens that `token_for` gives for the same user, second and key are equal.
pub proof fn lemma_token_determined(
    secret: Seq<char>,
    user_id: Seq<char>,
    now: i64,
    first: Seq<char>,
    second: Seq<char>,
)
    requires
        first == jwt_encoding(secret, user_id, (now + TOKEN_LIFETIME_SECS) as usize, now as usize),
        second == jwt_encoding(secret, user_id, (now + TOKEN_LIFETIME_SECS) as usize, now as usize),
    ensures
        first == second,
{
}

/// A token for `user_id`, issued now, valid for 24 hours, signed with `secret`.
pub fn generate_token_with_secret(user_id: &str, secret: &str) -> (token: String)
    ensures
        issued_token_for(secret@, token@, user_id@),
{
    let now = now_timestamp();
    token_for(user_id, now, secret)
}

/// A token for `user_id`, issued now, valid for 24 hours, signed with the
/// default key.
pub fn generate_token(user_id: &str) -> (token: String)
    ensures
        issued_token_for(DEFAULT_JWT_SECRET@, token@, user_id@),
{
    generate_token_with_secret(user_id, DEFAULT_JWT_SECRET)
}

/// The claims made of the fields read from a checked token: all three must be
/// present, and the times must fit a `usize`; otherwise the claims are
/// malformed.
pub fn claims_from_fields(sub: Option<String>, exp: Option<u64>, iat: Option<u64>) -> (r: Result<
    Claims,
    TokenError,
>)
    ensures
        r is Ok <==> (sub is Some && exp is Some && exp.unwrap() <= usize::MAX && iat is Some
            && iat.unwrap() <= usize::MAX),
        r matches Ok(c) ==> Some(c.sub) == sub && Some(c.exp as u64) == exp && Some(c.iat as u64)
            == iat,
        r matches Err(e) ==> e == TokenError::MalformedClaims,
{
    match (sub, exp, iat) {
        (Some(s), Some(e), Some(i)) => {
            if e <= usize::MAX as u64 && i <= usize::MAX as u64 {
                Ok(Claims { sub: s, exp: e as usize, iat: i as usize })
            } else {
                Err(TokenError::MalformedClaims)
            }
        },
        _ => Err(TokenError::MalformedClaims),
    }
}

/// What checking `token` against `secret` may give. A success, or an expiry,
/// only for a token whose signature is valid under `secret`; a bad signature
/// is reported only for a token whose signature is not; malformed claims only
/// for a validly signed token whose claims part lacks a field. A success gives
/// exactly the fields of the token's claims part. For a token signed
/// with `secret` by this library: the claims it was signed with, or the
/// report that it has expired.
pub open spec fn verification_outcome(secret: Seq<char>, token: Seq<char>, r: Result<Claims, TokenError>) -> bool {
    &&& forall|sub: Seq<char>, exp: usize, iat: usize|
        #[trigger] jwt_encoding(secret, sub, exp, iat) == token ==> match r {
            Ok(c) => c.sub@ == sub && c.exp == exp && c.iat == iat,
            Err(e) => e == TokenError::ExpiredSignature,
        }
    &&& r is Ok ==> jwt_signature_valid(secret, token)
    &&& r matches Err(TokenError::ExpiredSignature) ==> jwt_signature_valid(secret, token)
    &&& r matches Err(TokenError::MalformedClaims) ==> jwt_signature_valid(secret, token)
        && !fields_complete(jwt_claim_fields(token))
    &&& r matches Ok(c) ==> jwt_claim_fields(token) == (Some(c.sub@), Some(c.exp as u64), Some(
        c.iat as u64,
    ))
    &&& r matches Err(TokenError::InvalidSignature) ==> !jwt_signature_valid(secret, token)
}

/// Checks the signature (under `secret`) and expiry of `token` and returns
/// its claims.
pub fn verify_token_with_secret(token: &str, secret: &str) -> (r: Result<Claims, TokenError>)
    ensures
        verification_outcome(secret@, token@, r),
{
    let fields = match read_jwt_claims(token, secret) {
        Ok(f) => f,
        Err(e) => {
            return Err(e);
        },
    };
    let claims = match claims_from_fields(fields.0, fields.1, fields.2) {
        Ok(c) => c,
        Err(e) => {
            return Err(e);
        },
    };
    match check_jwt(token, secret) {
        Ok(()) => Ok(claims),
        Err(e) => Err(e),
    }
}

/// Checks the signature (under the default key) and expiry of `token` and
/// returns its claims.
pub fn verify_token(token: &str) -> (r: Result<Claims, TokenError>)
    ensures
        verification_outcome(DEFAULT_JWT_SECRET@, token@, r),
{
    verify_token_with_secret(token, DEFAULT_JWT_SECRET)
}

/// Law: a token that the gateway issued for `user_id` checks out to claims
/// with that subject, issued at the moment of signing and expiring a day
/// later; the only way it can be refused is by having expired.
pub proof fn lemma_issued_token_verifies(
    secret: Seq<char>,
    user_id: Seq<char>,
    token: Seq<char>,
    r: Result<Claims, TokenError>,
)
    requires
        issued_token_for(secret, token, user_id),
        verification_outcome(secret, token, r),
    ensures
        r matches Ok(c) ==> c.sub@ == user_id && exists|now: i64|
            0 <= now <= MAX_UTC_TIMESTAMP && (c.exp, c.iat) == #[trigger] spec_issued_times(now),
        r matches Err(e) ==> e == TokenError::ExpiredSignature,
{
    let now = choose|now: i64|
        0 <= now <= MAX_UTC_TIMESTAMP && #[trigger] jwt_encoding(
            secret,
            user_id,
            (now + TOKEN_LIFETIME_SECS) as usize,
            now as usize,
        ) == token;
    assert(jwt_encoding(secret, user_id, (now + TOKEN_LIFETIME_SECS) as usize, now as usize)
        == token);
    assert(spec_issued_times(now) == ((now + TOKEN_LIFETIME_SECS) as usize, now as usize));
}

/// An account of the user store: a name and the bcrypt hash of its password.
pub struct UserRecord {
    pub username: String,
    pub password_hash: String,
}

/// Whether bcrypt accepts `password` against the stored `hash`.
pub uninterp spec fn bcrypt_accepts(password: Seq<char>, hash: Seq<char>) -> bool;

/// Checks `password` against a stored bcrypt `hash`.
/// Calls `bcrypt::verify`, reading an error (a malformed hash) as a refusal,
/// as the store does. The answer is a function of the two texts: the salt and
/// cost come from the hash.
#[verifier::external_body]
fn bcrypt_verify(password: &str, hash: &str) -> (ok: bool)
    ensures
        ok == bcrypt_accepts(password@, hash@),
{
    bcrypt::verify(password, hash).unwrap_or(false)
}

/// Hashes `password` with bcrypt's default cost and a fresh random salt;
/// `None` when the operating system gives no randomness.
/// Calls `bcrypt::hash(password, bcrypt::DEFAULT_COST)`. The hash depends on
/// the salt, so it gets no name; claimed is what the source shows: `verify`
/// accepts the password against the hash that `hash` made of it.
#[verifier::external_body]
fn bcrypt_hash(password: &str) -> (r: Option<String>)
    ensures
        r matches Some(h) ==> bcrypt_accepts(password@, h@),
{
    bcrypt::hash(password, bcrypt::DEFAULT_COST).ok()
}

/// `users` is the built-in store made of the outcome `hash` of hashing the
/// default password: the default account with that hash when one was drawn,
/// no account otherwise.
pub open spec fn store_of_hash(users: Seq<UserRecord>, hash: Option<String>) -> bool {
    match hash {
        Some(h) => {
            &&& users.len() == 1
            &&& users[0].username@ == DEFAULT_USERNAME@
            &&& users[0].password_hash == h
        },
        None => users.len() == 0,
    }
}

/// The built-in user store for a drawn hash of the default password: the
/// default account with that hash; no account when none was drawn.
pub fn store_from_hash(hash: Option<String>) -> (users: Vec<UserRecord>)
    ensures
        store_of_hash(users@, hash),
{
    let mut users: Vec<UserRecord> = Vec::new();
    match hash {
        Some(h) => {
            users.push(UserRecord { username: DEFAULT_USERNAME.to_owned(), password_hash: h });
        },
        None => {},
    }
    users
}

/// The built-in user store as hashing the default password can leave it: the
/// default account, with a hash that accepts the default password, or (when
/// no salt could be drawn) no account.
pub open spec fn default_store(users: Seq<UserRecord>) -> bool {
    exists|hash: Option<String>|
        #[trigger] store_of_hash(users, hash) && (hash matches Some(h) ==> bcrypt_accepts(
            DEFAULT_PASSWORD@,
            h@,
        ))
}

/// The built-in user store: the default account with a freshly salted hash of
/// its password; empty only when no salt could be drawn.
pub fn default_users() -> (users: Vec<UserRecord>)
    ensures
        default_store(users@),
{
    let hash = bcrypt_hash(DEFAULT_PASSWORD);
    let ghost h = hash;
    let users = store_from_hash(hash);
    assert(store_of_hash(users@, h));
    users
}

/// `username` and `password` match the account at position `k` of `users`.
pub open spec fn credentials_match(
    users: Seq<UserRecord>,
    k: int,
    username: Seq<char>,
    password: Seq<char>,
) -> bool {
    0 <= k < users.len() && users[k].username@ == username && bcrypt_accepts(
        password,
        users[k].password_hash@,
    )
}

/// What logging in against `users` gives: a token for the user exactly when
/// some account has that name and accepts the password.
pub open spec fn authentication_outcome(
    secret: Seq<char>,
    users: Seq<UserRecord>,
    username: Seq<char>,
    password: Seq<char>,
    r: Option<String>,
) -> bool {
    &&& r is Some <==> exists|k: int| #[trigger] credentials_match(users, k, username, password)
    &&& r matches Some(t) ==> issued_token_for(secret, t@, username)
}

/// Logs `username` in against `users`: a fresh token signed with `secret`
/// when an account of that name accepts `password`, `None` otherwise.
pub fn authenticate_against(
    users: &Vec<UserRecord>,
    username: &str,
    password: &str,
    secret: &str,
) -> (r: Option<String>)
    ensures
        authentication_outcome(secret@, users@, username@, password@, r),
{
    let name = username.to_owned();
    let n = users.len();
    for k in 0..n
        invariant
            n == users@.len(),
            name@ == username@,
            forall|j: int| 0 <= j < k ==> !#[trigger] credentials_match(users@, j, username@, password@),
    {
        let user = &users[k];
        if user.username == name && bcrypt_verify(password, user.password_hash.as_str()) {
            assert(credentials_match(users@, k as int, username@, password@));
            return Some(generate_token_with_secret(username, secret));
        }
    }
    None
}

/// Logs `username` in against a freshly built built-in user store, with a
/// token signed with the default key.
pub fn authenticate(username: &str, password: &str) -> (r: Option<String>)
    ensures
        exists|users: Seq<UserRecord>|
            default_store(users) && #[trigger] authentication_outcome(
                DEFAULT_JWT_SECRET@,
                users,
                username@,
                password@,
                r,
            ),
{
    let users = default_users();
    let r = authenticate_against(&users, username, password, DEFAULT_JWT_SECRET);
    assert(default_store(users@) && authentication_outcome(
        DEFAULT_JWT_SECRET@,
        users@,
        username@,
        password@,
        r,
    ));
    r
}

/// Law: the built-in store logs in only the default user, and logs in the
/// default user with the default password whenever a hash was drawn for its
/// account; a successful login hands out a token issued for that user.
pub proof fn lemma_default_login(
    secret: Seq<char>,
    users: Seq<UserRecord>,
    hash: Option<String>,
    username: Seq<char>,
    password: Seq<char>,
    r: Option<String>,
)
    requires
        store_of_hash(users, hash),
        hash matches Some(h) ==> bcrypt_accepts(DEFAULT_PASSWORD@, h@),
        authentication_outcome(secret, users, username, password, r),
    ensures
        r is Some ==> username == DEFAULT_USERNAME@,
        r matches Some(t) ==> issued_token_for(secret, t@, username),
        hash is Some && username == DEFAULT_USERNAME@ && password == DEFAULT_PASSWORD@ ==> r is Some,
{
    if r is Some {
        let k = choose|k: int| #[trigger] credentials_match(users, k, username, password);
        assert(users[k].username@ == DEFAULT_USERNAME@);
    }
    if hash is Some && username == DEFAULT_USERNAME@ && password == DEFAULT_PASSWORD@ {
        assert(credentials_match(users, 0, username, password));
    }
}

} // verus!
