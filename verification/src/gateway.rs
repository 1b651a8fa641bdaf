//! The gateway's request handling around its parts: logging in, the events
//! each request publishes, and the cached users listing.

use crate::auth::{
    authenticate_against, authentication_outcome, jwt_signature_valid, verification_outcome,
    verify_token_with_secret, Claims, UserRecord,
};
use crate::cache::{Cache, lookup_at};
use crate::clock::{now_rfc3339, MAX_UTC_TIMESTAMP};
use crate::message_queue::{Message, MessageQueue, API_CALLED, USER_LOGGED_IN};
use vstd::prelude::*;

verus! {

/// The protected endpoint that lists users.
pub const USERS_ENDPOINT: &'static str = "/api/users";

/// The backend that serves the users listing.
pub const USERS_BACKEND_URL: &'static str = "http://localhost:8001/users";

/// The cache key of the users listing.
pub const USERS_CACHE_KEY: &'static str = "users:all";

/// How long a fetched users listing is served from the cache, in seconds.
pub const USERS_CACHE_TTL_SECS: u64 = 60;

/// The status of a refused login (Unauthorized).
pub const UNAUTHORIZED: u16 = 401;

/// The status when the users backend cannot be reached (Service Unavailable).
pub const SERVICE_UNAVAILABLE: u16 = 503;

/// The status when the users backend answers with a body that is not JSON
/// (Internal Server Error).
pub const INTERNAL_SERVER_ERROR: u16 = 500;

/// The queue after publishing one event named `event` whose payload is
/// exactly the field `key` with `value`, then a `timestamp` field.
pub open spec fn published_stamped(
    before: Seq<Message>,
    after: Seq<Message>,
    event: Seq<char>,
    key: Seq<char>,
    value: Seq<char>,
) -> bool {
    &&& after.len() == before.len() + 1
    &&& after.drop_last() == before
    &&& after.last().event@ == event
    &&& after.last().data@.len() == 2
    &&& after.last().data@[0].0@ == key
    &&& after.last().data@[0].1@ == value
    &&& after.last().data@[1].0@ == "timestamp"@
}

/// The payload `[(key, value), ("timestamp", <now>)]`.
fn stamped_payload(key: &str, value: &str) -> (data: Vec<(String, String)>)
    ensures
        data@.len() == 2,
        data@[0].0@ == key@,
        data@[0].1@ == value@,
        data@[1].0@ == "timestamp"@,
{
    let mut data: Vec<(String, String)> = Vec::new();
    data.push((key.to_owned(), value.to_owned()));
    data.push(("timestamp".to_owned(), now_rfc3339()));
    data
}

/// The token of a login answer, if it carries one.
pub open spec fn token_of(r: Result<String, u16>) -> Option<String> {
    match r {
        Ok(t) => Some(t),
        Err(_) => None,
    }
}

/// Logs `username` in against the user store `users`, with a token signed
/// with `secret`. On success, returns the token and publishes a
/// `user_logged_in` event naming the user and the time; on failure, returns
/// `Err(401)` and publishes nothing.
pub fn login(
    queue: &mut MessageQueue,
    users: &Vec<UserRecord>,
    username: &str,
    password: &str,
    secret: &str,
) -> (r: Result<String, u16>)
    ensures
        authentication_outcome(secret@, users@, username@, password@, token_of(r)),
        r is Ok ==> published_stamped(
            old(queue)@,
            final(queue)@,
            USER_LOGGED_IN@,
            "username"@,
            username@,
        ),
        r matches Err(s) ==> s == UNAUTHORIZED && final(queue)@ == old(queue)@,
{
    let outcome = authenticate_against(users, username, password, secret);
    match outcome {
        Some(token) => {
            let data = stamped_payload("username", username);
            queue.publish(USER_LOGGED_IN, data);
            Ok(token)
        },
        None => Err(UNAUTHORIZED),
    }
}

/// Publishes an `api_called` event naming `endpoint` and the time.
pub fn record_api_call(queue: &mut MessageQueue, endpoint: &str)
    ensures
        published_stamped(old(queue)@, final(queue)@, API_CALLED@, "endpoint"@, endpoint@),
{
    let data = stamped_payload("endpoint", endpoint);
    queue.publish(API_CALLED, data);
}

/// The users listing from the cache, if a fetched listing has not expired.
pub fn cached_users<V>(cache: &Cache<V>) -> (r: Option<&V>)
    ensures
        exists|now: i64|
            0 <= now <= MAX_UTC_TIMESTAMP && (r is Some <==> lookup_at(cache@, USERS_CACHE_KEY@, now) is Some)
                && (r matches Some(v) ==> #[trigger] lookup_at(cache@, USERS_CACHE_KEY@, now) == Some(*v)),
{
    cache.get(USERS_CACHE_KEY)
}

/// Caches a freshly fetched users listing for `USERS_CACHE_TTL_SECS` seconds.
pub fn remember_users<V>(cache: &mut Cache<V>, listing: V)
    ensures
        exists|now: i64|
            0 <= now <= MAX_UTC_TIMESTAMP && final(cache)@ == #[trigger] old(cache)@.insert(
                USERS_CACHE_KEY@,
                (listing, (now + (USERS_CACHE_TTL_SECS as i64)) as i64),
            ),
{
    let stored = cache.set(USERS_CACHE_KEY, listing, USERS_CACHE_TTL_SECS);
    assert(stored);
}

/// Why the users backend gave no listing.
pub enum BackendFailure {
    /// The request did not get an answer.
    Unreachable,
    /// The answer's body was not JSON.
    BadBody,
}

/// The status the gateway answers with when the users backend fails.
pub fn backend_failure_status(f: BackendFailure) -> (s: u16)
    ensures
        s == match f {
            BackendFailure::Unreachable => SERVICE_UNAVAILABLE,
            BackendFailure::BadBody => INTERNAL_SERVER_ERROR,
        },
{
    match f {
        BackendFailure::Unreachable => SERVICE_UNAVAILABLE,
        BackendFailure::BadBody => INTERNAL_SERVER_ERROR,
    }
}

/// The scheme prefix of an `Authorization` header that carries a token.
pub const BEARER_PREFIX: &'static str = "Bearer ";

/// The token of an `Authorization: Bearer <token>` header; `None` when the
/// header does not start with the bearer prefix.
pub fn bearer_token(header: &str) -> (r: Option<&str>)
    ensures
        match r {
            Some(t) => header@ == BEARER_PREFIX@ + t@,
            None => !BEARER_PREFIX@.is_prefix_of(header@),
        },
{
    let n = header.unicode_len();
    let m = BEARER_PREFIX.unicode_len();
    if n < m {
        return None;
    }
    for i in 0..m
        invariant
            n == header@.len(),
            m == BEARER_PREFIX@.len(),
            m <= n,
            forall|j: int| 0 <= j < i ==> header@[j] == BEARER_PREFIX@[j],
    {
        if header.get_char(i) != BEARER_PREFIX.get_char(i) {
            assert(header@[i as int] != BEARER_PREFIX@[i as int]);
            return None;
        }
    }
    let t = header.substring_char(m, n);
    assert(header@ =~= BEARER_PREFIX@ + t@);
    Some(t)
}

/// `header` is a bearer header whose token checks out, under `secret`, to the
/// claims `c`; in particular its signature is valid under `secret`.
pub open spec fn bearer_claims(secret: Seq<char>, header: Seq<char>, c: Claims) -> bool {
    exists|t: Seq<char>|
        header == BEARER_PREFIX@ + t && #[trigger] verification_outcome(secret, t, Ok(c))
            && jwt_signature_valid(secret, t)
}

/// Lets a request to a protected endpoint through with the claims of its
/// bearer token, checked under `secret`, or refuses it with Unauthorized when
/// the header is missing, is not a bearer header, or carries a token that does
/// not check out (a bad signature, an expired token, malformed claims).
pub fn authorize(header: Option<&str>, secret: &str) -> (r: Result<Claims, u16>)
    ensures
        header is None ==> r == Err::<Claims, u16>(UNAUTHORIZED),
        header matches Some(h) && !BEARER_PREFIX@.is_prefix_of(h@) ==> r == Err::<Claims, u16>(
            UNAUTHORIZED,
        ),
        r matches Err(s) ==> s == UNAUTHORIZED,
        r matches Ok(c) ==> header is Some && bearer_claims(secret@, header.unwrap()@, c),
{
    match header {
        None => Err(UNAUTHORIZED),
        Some(h) => match bearer_token(h) {
            None => Err(UNAUTHORIZED),
            Some(t) => match verify_token_with_secret(t, secret) {
                Ok(c) => {
                    assert(h@ == BEARER_PREFIX@ + t@ && verification_outcome(secret@, t@, Ok(c))
                        && jwt_signature_valid(secret@, t@));
                    Ok(c)
                },
                Err(_) => Err(UNAUTHORIZED),
            },
        },
    }
}

/// Starts a request for the users listing: publishes an `api_called` event
/// for the users endpoint, then looks the listing up in the cache.
pub fn begin_users_request<'a, V>(queue: &mut MessageQueue, cache: &'a Cache<V>) -> (r: Option<&'a V>)
    ensures
        published_stamped(old(queue)@, final(queue)@, API_CALLED@, "endpoint"@, USERS_ENDPOINT@),
        exists|now: i64|
            0 <= now <= MAX_UTC_TIMESTAMP && (r is Some <==> lookup_at(cache@, USERS_CACHE_KEY@, now) is Some)
                && (r matches Some(v) ==> #[trigger] lookup_at(cache@, USERS_CACHE_KEY@, now) == Some(*v)),
{
    record_api_call(queue, USERS_ENDPOINT);
    cached_users(cache)
}

/// The status for a failed fetch of the users listing.
pub open spec fn spec_failure_status(f: BackendFailure) -> u16 {
    match f {
        BackendFailure::Unreachable => SERVICE_UNAVAILABLE,
        BackendFailure::BadBody => INTERNAL_SERVER_ERROR,
    }
}

/// Finishes a users request that missed the cache with what the backend gave:
/// a listing is cached for `USERS_CACHE_TTL_SECS` seconds and the request
/// succeeds; a failure leaves the cache alone and gives its status.
pub fn complete_users_fetch<V>(cache: &mut Cache<V>, fetched: Result<V, BackendFailure>) -> (r: Result<
    (),
    u16,
>)
    ensures
        match fetched {
            Ok(listing) => r is Ok && exists|now: i64|
                0 <= now <= MAX_UTC_TIMESTAMP && final(cache)@ == #[trigger] old(cache)@.insert(
                    USERS_CACHE_KEY@,
                    (listing, (now + (USERS_CACHE_TTL_SECS as i64)) as i64),
                ),
            Err(f) => r == Err::<(), u16>(spec_failure_status(f)) && final(cache)@ == old(cache)@,
        },
{
    match fetched {
        Ok(listing) => {
            remember_users(cache, listing);
            Ok(())
        },
        Err(f) => Err(backend_failure_status(f)),
    }
}

} // verus!
