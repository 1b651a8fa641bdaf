//! A response cache whose entries expire a given number of seconds after they
//! are stored.

use crate::clock::{now_timestamp, MAX_UTC_TIMESTAMP};
use vstd::hash_map::StringHashMap;
use vstd::prelude::*;

verus! {

/// Entries by key: the cached value and the second at which it expires.
#[verifier::reject_recursive_types(V)]
pub struct Cache<V> {
    data: StringHashMap<(V, i64)>,
}

impl<V> View for Cache<V> {
    type V = Map<Seq<char>, (V, i64)>;

    closed spec fn view(&self) -> Map<Seq<char>, (V, i64)> {
        self.data@
    }
}

/// What a lookup of `key` at second `now` finds: the value, while it has not expired.
pub open spec fn lookup_at<V>(m: Map<Seq<char>, (V, i64)>, key: Seq<char>, now: i64) -> Option<V> {
    if m.contains_key(key) && now < m[key].1 {
        Some(m[key].0)
    } else {
        None
    }
}

/// What `set` did when the clock read `now`: stored the entry exactly when
/// its expiry second fits an `i64`, and otherwise left the cache as it was.
pub open spec fn stored_at<V>(
    before: Map<Seq<char>, (V, i64)>,
    after: Map<Seq<char>, (V, i64)>,
    key: Seq<char>,
    value: V,
    ttl_secs: u64,
    now: i64,
    stored: bool,
) -> bool {
    &&& stored <==> (ttl_secs as i64) <= i64::MAX - now
    &&& stored ==> after == before.insert(key, (value, (now + (ttl_secs as i64)) as i64))
    &&& !stored ==> after == before
}

impl<V> Cache<V> {
    /// An empty cache.
    pub fn new() -> (r: Self)
        ensures
            r@ == Map::<Seq<char>, (V, i64)>::empty(),
    {
        Cache { data: StringHashMap::new() }
    }

    /// The value cached under `key`, if it has not expired at second `now`.
    pub fn get_at(&self, key: &str, now: i64) -> (r: Option<&V>)
        ensures
            r is Some <==> lookup_at(self@, key@, now) is Some,
            r matches Some(v) ==> lookup_at(self@, key@, now) == Some(*v),
    {
        match self.data.get(key) {
            Some(entry) => {
                if now < entry.1 {
                    Some(&entry.0)
                } else {
                    None
                }
            },
            None => None,
        }
    }

    /// The value cached under `key`, if it has not expired by now.
    pub fn get(&self, key: &str) -> (r: Option<&V>)
        ensures
            exists|now: i64|
                0 <= now <= MAX_UTC_TIMESTAMP && (r is Some <==> lookup_at(self@, key@, now) is Some)
                    && (r matches Some(v) ==> #[trigger] lookup_at(self@, key@, now) == Some(*v)),
    {
        let now = now_timestamp();
        self.get_at(key, now)
    }

    /// Caches `value` under `key` from second `now` for `ttl_secs` seconds,
    /// replacing any earlier entry. The time to live is read as an `i64`, as
    /// a cast does (wrapping above `i64::MAX`).
    pub fn set_at(&mut self, key: &str, value: V, ttl_secs: u64, now: i64)
        requires
            i64::MIN <= now + (ttl_secs as i64) <= i64::MAX,
        ensures
            final(self)@ == old(self)@.insert(key@, (value, (now + (ttl_secs as i64)) as i64)),
    {
        let expires_at = now + ttl_secs as i64;
        self.data.insert(key.to_owned(), (value, expires_at));
    }

    /// Caches `value` under `key` for `ttl_secs` seconds from now. Returns
    /// `false`, and leaves the cache as it was, when the expiry second would
    /// not fit an `i64`.
    pub fn set(&mut self, key: &str, value: V, ttl_secs: u64) -> (stored: bool)
        ensures
            exists|now: i64|
                0 <= now <= MAX_UTC_TIMESTAMP && #[trigger] stored_at(
                    old(self)@,
                    final(self)@,
                    key@,
                    value,
                    ttl_secs,
                    now,
                    stored,
                ),
    {
        let ghost before = self@;
        let ghost v = value;
        let now = now_timestamp();
        let ttl = ttl_secs as i64;
        if ttl <= i64::MAX - now {
            self.set_at(key, value, ttl_secs, now);
            assert(stored_at(before, self@, key@, v, ttl_secs, now, true));
            true
        } else {
            assert(stored_at(before, self@, key@, v, ttl_secs, now, false));
            false
        }
    }
}

/// Law: an entry stored to expire at second `expires_at` is found exactly
/// before that second, and storing it changes what no other key finds.
pub proof fn lemma_entry_lives_until_expiry<V>(
    m: Map<Seq<char>, (V, i64)>,
    key: Seq<char>,
    value: V,
    expires_at: i64,
    other: Seq<char>,
    t: i64,
)
    ensures
        lookup_at(m.insert(key, (value, expires_at)), key, t) == if t < expires_at {
            Some(value)
        } else {
            None
        },
        other != key ==> lookup_at(m.insert(key, (value, expires_at)), other, t) == lookup_at(
            m,
            other,
            t,
        ),
{
}

} // verus!
