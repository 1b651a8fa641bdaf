//! Per-client request limiting: which client a request counts against, and
//! whether that client may make another request now.

use vstd::prelude::*;

verus! {

/// Requests that one client may make per minute.
pub const REQUESTS_PER_MINUTE: u32 = 10;

/// The status a refused request is answered with (Too Many Requests).
pub const TOO_MANY_REQUESTS: u16 = 429;

/// The client a request counts against when it names none.
pub const FALLBACK_CLIENT: &'static str = "127.0.0.1";

/// A governor rate limiter keyed by client text, with the `DashMap` state
/// store and the quanta clock, held in a private field.
#[verifier::external_body]
pub struct KeyedLimiter {
    inner: governor::DefaultKeyedRateLimiter<String>,
}

/// The number of cells per minute that `l` was made with.
pub uninterp spec fn limiter_per_minute(l: KeyedLimiter) -> nat;

/// The keys that have an entry in the state store of `l`.
pub uninterp spec fn limiter_keys(l: KeyedLimiter) -> Set<Seq<char>>;

/// The checks made on `l` so far, in order: each key asked about, with the
/// limiter's verdict (`true` when the cell was let through).
pub uninterp spec fn limiter_checks(l: KeyedLimiter) -> Seq<(Seq<char>, bool)>;

/// A keyed limiter allowing each key `per_minute` requests per minute, as a
/// burst that refills one cell at a time, with no key in its store and no
/// check made yet.
/// Calls `governor::RateLimiter::keyed(Quota::per_minute(n))`; claimed are the
/// quota it was made with and that its `DashMap` store starts empty.
#[verifier::external_body]
fn keyed_per_minute(per_minute: u32) -> (l: KeyedLimiter)
    requires
        per_minute > 0,
    ensures
        limiter_per_minute(l) == per_minute,
        limiter_keys(l) == Set::<Seq<char>>::empty(),
        limiter_checks(l) == Seq::<(Seq<char>, bool)>::empty(),
{
    let quota = governor::Quota::per_minute(std::num::NonZeroU32::new(per_minute).unwrap());
    KeyedLimiter { inner: governor::RateLimiter::keyed(quota) }
}

/// Whether `key` may make one more request now, taking a cell when it may.
/// Calls `RateLimiter::check_key`. The verdict depends on the clock and on the
/// earlier requests of `key`, so it is not named; claimed is what the call
/// does to the limiter: the check of `key` with this verdict is recorded, the
/// store holds an entry for `key` afterwards (`measure_and_replace` makes one
/// when it is missing), and the quota stays.
#[verifier::external_body]
fn limiter_allows(l: &mut KeyedLimiter, key: &String) -> (allowed: bool)
    ensures
        limiter_checks(*final(l)) == limiter_checks(*old(l)).push((key@, allowed)),
        limiter_keys(*final(l)) == limiter_keys(*old(l)).insert(key@),
        limiter_per_minute(*final(l)) == limiter_per_minute(*old(l)),
{
    l.inner.check_key(key).is_ok()
}

/// The answer to a request that the limiter did (`allowed`) or did not let
/// through: go on, or refuse with Too Many Requests.
pub open spec fn spec_rate_limit_response(allowed: bool) -> Result<(), u16> {
    if allowed {
        Ok(())
    } else {
        Err(TOO_MANY_REQUESTS)
    }
}

/// The answer to a request that the limiter did (`allowed`) or did not let
/// through: go on, or refuse with Too Many Requests.
pub fn rate_limit_response(allowed: bool) -> (r: Result<(), u16>)
    ensures
        r == spec_rate_limit_response(allowed),
{
    if allowed {
        Ok(())
    } else {
        Err(TOO_MANY_REQUESTS)
    }
}

/// The gateway's request gate: ten requests per minute for each client.
pub struct RateLimitGate {
    limiter: KeyedLimiter,
}

impl RateLimitGate {
    /// The per-minute quota of this gate.
    pub closed spec fn per_minute(&self) -> nat {
        limiter_per_minute(self.limiter)
    }

    /// The clients that have a bucket in this gate.
    pub closed spec fn clients(&self) -> Set<Seq<char>> {
        limiter_keys(self.limiter)
    }

    /// The checks this gate has made, in order, with the limiter's verdicts.
    pub closed spec fn checks(&self) -> Seq<(Seq<char>, bool)> {
        limiter_checks(self.limiter)
    }

    /// A gate allowing each client `REQUESTS_PER_MINUTE` requests per minute,
    /// with no client seen yet.
    pub fn new() -> (g: Self)
        ensures
            g.per_minute() == REQUESTS_PER_MINUTE,
            g.clients() == Set::<Seq<char>>::empty(),
            g.checks() == Seq::<(Seq<char>, bool)>::empty(),
    {
        RateLimitGate { limiter: keyed_per_minute(REQUESTS_PER_MINUTE) }
    }

    /// Checks `client` with the limiter, one time: `Ok` when the limiter lets
    /// the request through, Too Many Requests when the client's quota is spent.
    pub fn check(&mut self, client: &String) -> (r: Result<(), u16>)
        ensures
            final(self).checks().len() == old(self).checks().len() + 1,
            final(self).checks().drop_last() == old(self).checks(),
            final(self).checks().last().0 == client@,
            r == spec_rate_limit_response(final(self).checks().last().1),
            final(self).clients() == old(self).clients().insert(client@),
            final(self).per_minute() == old(self).per_minute(),
    {
        let allowed = limiter_allows(&mut self.limiter, client);
        assert(self.checks().drop_last() =~= old(self).checks());
        rate_limit_response(allowed)
    }
}

/// `r` is the text of `s` before its first comma (all of `s` when it has none).
pub open spec fn first_segment(s: Seq<char>, r: Seq<char>) -> bool {
    &&& r.len() <= s.len()
    &&& r == s.take(r.len() as int)
    &&& forall|k: int| 0 <= k < r.len() ==> r[k] != ','
    &&& r.len() < s.len() ==> s[r.len() as int] == ','
}

/// The first entry of an `X-Forwarded-For` header: its text before the first
/// comma.
pub fn first_forwarded_entry(header: &str) -> (r: &str)
    ensures
        first_segment(header@, r@),
{
    let n = header.unicode_len();
    let mut k: usize = 0;
    while k < n
        invariant
            n == header@.len(),
            k <= n,
            forall|j: int| 0 <= j < k ==> header@[j] != ',',
        ensures
            k <= n,
            forall|j: int| 0 <= j < k ==> header@[j] != ',',
            k < n ==> header@[k as int] == ',',
        decreases n - k,
    {
        if header.get_char(k) == ',' {
            break;
        }
        k = k + 1;
    }
    let r = header.substring_char(0, k);
    assert(r@ =~= header@.take(k as int));
    r
}

/// The client a request counts against: the connection's peer address when
/// known, else the first forwarded address, else the local fallback.
pub open spec fn spec_client_key(peer: Option<String>, forwarded: Option<String>) -> Seq<char> {
    match peer {
        Some(p) => p@,
        None => match forwarded {
            Some(f) => f@,
            None => FALLBACK_CLIENT@,
        },
    }
}

/// The client a request counts against: the connection's peer address when
/// known, else the first forwarded address, else the local fallback.
pub fn client_key(peer: Option<String>, forwarded: Option<String>) -> (key: String)
    ensures
        key@ == spec_client_key(peer, forwarded),
        peer is Some ==> key@ == peer.unwrap()@,
        peer is None && forwarded is Some ==> key@ == forwarded.unwrap()@,
        peer is None && forwarded is None ==> key@ == FALLBACK_CLIENT@,
{
    match peer {
        Some(p) => p,
        None => match forwarded {
            Some(f) => f,
            None => FALLBACK_CLIENT.to_owned(),
        },
    }
}

/// Rate limiting of one request, keyed by its client: the peer address, else
/// the first forwarded address, else the fallback; one check of that client.
pub fn admit_request(gate: &mut RateLimitGate, peer: Option<String>, forwarded: Option<String>) -> (r:
    Result<(), u16>)
    ensures
        final(gate).checks().len() == old(gate).checks().len() + 1,
        final(gate).checks().drop_last() == old(gate).checks(),
        final(gate).checks().last().0 == spec_client_key(peer, forwarded),
        peer is Some ==> final(gate).checks().last().0 == peer.unwrap()@,
        r == spec_rate_limit_response(final(gate).checks().last().1),
        final(gate).clients() == old(gate).clients().insert(spec_client_key(peer, forwarded)),
        final(gate).per_minute() == old(gate).per_minute(),
{
    let key = client_key(peer, forwarded);
    gate.check(&key)
}

} // verus!

verus! {

/// Law: a request with a known peer address counts against that address,
/// whatever its forwarded header says; without a peer address it counts
/// against the forwarded address, and without either against the fallback.
/// So two requests from one peer share a bucket, and requests from two
/// different peers never do.
pub proof fn lemma_client_key_prefers_peer(
    peer: Option<String>,
    forwarded: Option<String>,
    other_forwarded: Option<String>,
)
    ensures
        peer matches Some(p) ==> spec_client_key(peer, forwarded) == p@,
        peer matches Some(p) ==> spec_client_key(peer, forwarded) == spec_client_key(
            peer,
            other_forwarded,
        ),
        peer is None && forwarded is Some ==> spec_client_key(peer, forwarded) == forwarded.unwrap()@,
        peer is None && forwarded is None ==> spec_client_key(peer, forwarded) == FALLBACK_CLIENT@,
{
}

/// Law: two requests with different peer addresses count against different
/// clients.
pub proof fn lemma_distinct_peers_distinct_clients(
    p: String,
    q: String,
    forwarded: Option<String>,
    other_forwarded: Option<String>,
)
    requires
        p@ != q@,
    ensures
        spec_client_key(Some(p), forwarded) != spec_client_key(Some(q), other_forwarded),
{
}

} // verus!
