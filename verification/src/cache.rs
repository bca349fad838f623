//! A memoizing cache for a two-argument computation.
//!
//! `Cacher` owns a computation from two `u64` inputs to one `u64`
//! output together with a store of previously computed results, keyed
//! by a collision-free composite of the two inputs. A request for a
//! pair that is already in the store returns the stored value without
//! invoking the computation again; a request for a fresh pair invokes
//! the computation once and records its result. Entries are never
//! removed or overwritten, so a pair's value is fixed by its first
//! request for the whole lifetime of the cache.

use std::collections::HashMap;
use vstd::prelude::*;

verus! {

broadcast use vstd::std_specs::hash::group_hash_axioms;

/// One past the largest `u64`, as a `u128`: the radix of the
/// composite key.
pub const KEY_RADIX: u128 = 0x1_0000_0000_0000_0000;

/// The composite lookup key for the input pair `(n, k)`: `n` in the
/// high 64 bits, `k` in the low 64 bits. Fixed-width packing makes
/// the key collision-free: distinct pairs give distinct keys (see
/// `lemma_cache_key_injective`).
pub open spec fn cache_key(n: u64, k: u64) -> u128 {
    ((n as u128) * KEY_RADIX + (k as u128)) as u128
}

/// Law (key distinctness): two input pairs share a composite key
/// exactly when they are the same pair.
pub proof fn lemma_cache_key_injective(a: u64, b: u64, c: u64, d: u64)
    ensures
        cache_key(a, b) == cache_key(c, d) <==> (a == c && b == d),
{
}

/// The store after a request for `key` whose freshly computed value,
/// had the computation been invoked, would be `v`: a hit leaves the
/// store unchanged, a miss inserts `v` under `key`.
pub open spec fn store_after(store: Map<u128, u64>, key: u128, v: u64) -> Map<u128, u64> {
    if store.contains_key(key) {
        store
    } else {
        store.insert(key, v)
    }
}

/// The store after a sequence of requests, each a composite key paired
/// with the value the computation would produce for it on a miss,
/// handled first to last.
pub open spec fn store_after_all(store: Map<u128, u64>, requests: Seq<(u128, u64)>) -> Map<
    u128,
    u64,
>
    decreases requests.len(),
{
    if requests.len() == 0 {
        store
    } else {
        store_after_all(store_after(store, requests[0].0, requests[0].1), requests.drop_first())
    }
}

/// The set of keys that a sequence of requests asks for.
pub open spec fn requested_keys(requests: Seq<(u128, u64)>) -> Set<u128> {
    Set::new(|key: u128| exists|i: int| 0 <= i < requests.len() && requests[i].0 == key)
}

/// Law (idempotent observation): the first request for a key caches a
/// value for it, and every later request for the same key returns the
/// stored value and leaves the store unchanged — so the computation is
/// invoked at most once per key, and all requests for one key observe
/// one value.
pub proof fn lemma_idempotent_observation(store: Map<u128, u64>, key: u128, v: u64, w: u64)
    ensures
        store_after(store, key, v).contains_key(key),
        !store.contains_key(key) ==> store_after(store, key, v)[key] == v,
        store.contains_key(key) ==> store_after(store, key, v) == store && store_after(
            store,
            key,
            v,
        )[key] == store[key],
        store_after(store_after(store, key, v), key, w) == store_after(store, key, v),
        store_after(store_after(store, key, v), key, w)[key] == store_after(store, key, v)[key],
{
}

/// Law (distinct pairs are cached independently): caching two distinct
/// input pairs stores each pair's own value, whatever the order of the
/// two insertions did to the rest of the store.
pub proof fn lemma_distinct_pairs_cached_independently(
    store: Map<u128, u64>,
    a: u64,
    b: u64,
    c: u64,
    d: u64,
    v1: u64,
    v2: u64,
)
    requires
        !(a == c && b == d),
        !store.contains_key(cache_key(a, b)),
        !store.contains_key(cache_key(c, d)),
    ensures
        ({
            let both = store_after(store_after(store, cache_key(a, b), v1), cache_key(c, d), v2);
            both[cache_key(a, b)] == v1 && both[cache_key(c, d)] == v2
        }),
{
    lemma_cache_key_injective(a, b, c, d);
}

/// Law (an empty cache always computes): no key is in a fresh store,
/// so the first request for any pair misses and records the freshly
/// computed value.
pub proof fn lemma_first_call_computes(key: u128, v: u64)
    ensures
        !Map::<u128, u64>::empty().contains_key(key),
        store_after(Map::<u128, u64>::empty(), key, v) == Map::<u128, u64>::empty().insert(key, v),
{
}

/// Law (order independence across keys): requests for two distinct
/// keys leave the same store whichever comes first.
pub proof fn lemma_order_independent(store: Map<u128, u64>, k1: u128, k2: u128, v1: u64, v2: u64)
    requires
        k1 != k2,
    ensures
        store_after(store_after(store, k1, v1), k2, v2) == store_after(
            store_after(store, k2, v2),
            k1,
            v1,
        ),
{
    assert(store_after(store_after(store, k1, v1), k2, v2) =~= store_after(
        store_after(store, k2, v2),
        k1,
        v1,
    ));
}

/// A request for one key adds exactly that key to the store's domain
/// (a hit adds nothing new).
proof fn lemma_store_after_dom(store: Map<u128, u64>, key: u128, v: u64)
    ensures
        store_after(store, key, v).dom() =~= store.dom().insert(key),
{
}

/// Law (growth bound): starting from a given store, any sequence of
/// requests grows the domain by exactly the set of requested keys — in
/// particular, from an empty store, M requests over K distinct pairs
/// leave exactly K entries.
pub proof fn lemma_growth_bound(store: Map<u128, u64>, requests: Seq<(u128, u64)>)
    ensures
        store_after_all(store, requests).dom() =~= store.dom() + requested_keys(requests),
    decreases requests.len(),
{
    if requests.len() == 0 {
        assert(requested_keys(requests) =~= Set::<u128>::empty());
    } else {
        let first = requests[0];
        let rest = requests.drop_first();
        lemma_store_after_dom(store, first.0, first.1);
        lemma_growth_bound(store_after(store, first.0, first.1), rest);
        assert forall|key: u128| requested_keys(requests).contains(key) implies store.dom().insert(
            first.0,
        ).contains(key) || requested_keys(rest).contains(key) by {
            let i = choose|i: int| 0 <= i < requests.len() && requests[i].0 == key;
            if i > 0 {
                assert(rest[i - 1].0 == key);
            }
        }
        assert forall|key: u128| requested_keys(rest).contains(key) implies requested_keys(
            requests,
        ).contains(key) by {
            let i = choose|i: int| 0 <= i < rest.len() && rest[i].0 == key;
            assert(requests[i + 1].0 == key);
        }
    }
}

/// Law (growth bound, from empty): after any sequence of requests on a
/// fresh cache the store holds exactly one entry per distinct
/// requested key.
pub proof fn lemma_growth_bound_from_empty(requests: Seq<(u128, u64)>)
    ensures
        store_after_all(Map::<u128, u64>::empty(), requests).dom() =~= requested_keys(requests),
        store_after_all(Map::<u128, u64>::empty(), requests).len() == requested_keys(
            requests,
        ).len(),
{
    lemma_growth_bound(Map::<u128, u64>::empty(), requests);
    assert(store_after_all(Map::<u128, u64>::empty(), requests).dom() =~= requested_keys(
        requests,
    ));
    assert(store_after_all(Map::<u128, u64>::empty(), requests).dom() == requested_keys(requests));
}

/// Memoizes a two-`u64`-argument computation: results are cached by
/// input pair, and the computation runs at most once per distinct
/// pair.
///
/// The view of a `Cacher` is its store, a map from composite key
/// (see [`cache_key`]) to the output recorded for that input pair.
pub struct Cacher<T> where T: Fn(u64, u64) -> u64 {
    calculation: T,
    values: HashMap<u128, u64>,
}

impl<T> View for Cacher<T> where T: Fn(u64, u64) -> u64 {
    type V = Map<u128, u64>;

    closed spec fn view(&self) -> Map<u128, u64> {
        self.values@
    }
}

impl<T> Cacher<T> where T: Fn(u64, u64) -> u64 {
    /// The computation this cacher wraps, for use in contracts.
    pub closed spec fn calculation(&self) -> T {
        self.calculation
    }

    /// Returns a `Cacher<T>` that caches results of the provided
    /// computation, with an empty store.
    pub fn new(calculation: T) -> (result: Self)
        ensures
            result@ == Map::<u128, u64>::empty(),
            result.calculation() == calculation,
    {
        let values = HashMap::new();
        Cacher { calculation, values }
    }

    /// The number of input pairs whose results are stored.
    pub fn len(&self) -> (n: usize)
        ensures
            n == self@.len(),
    {
        self.values.len()
    }

    /// Returns the computation's value for the inputs `n` and `k`,
    /// from the store when the pair has been requested before, and by
    /// invoking the computation (then recording its result) when it
    /// has not.
    pub fn value(&mut self, n: u64, k: u64) -> (result: u64)
        requires
            call_requires(old(self).calculation(), (n, k)),
        ensures
            final(self).calculation() == old(self).calculation(),
            final(self)@ == store_after(old(self)@, cache_key(n, k), result),
            old(self)@.contains_key(cache_key(n, k)) ==> final(self)@ == old(self)@,
            !old(self)@.contains_key(cache_key(n, k)) ==> final(self)@ == old(self)@.insert(
                cache_key(n, k),
                result,
            ),
            result == final(self)@[cache_key(n, k)],
            old(self)@.contains_key(cache_key(n, k)) ==> result == old(self)@[cache_key(n, k)],
            !old(self)@.contains_key(cache_key(n, k)) ==> call_ensures(
                old(self).calculation(),
                (n, k),
                result,
            ),
    {
        let key: u128 = (n as u128) * KEY_RADIX + (k as u128);
        let cached_result = self.values.get(&key);
        if let Some(value) = cached_result {
            *value
        } else {
            let v = (self.calculation)(n, k);
            self.values.insert(key, v);
            v
        }
    }
}

} // verus!
