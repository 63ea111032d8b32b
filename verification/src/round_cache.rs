//! Memoized rounding of per-tick position deltas.
//!
//! Advancing a position by one tick moves it by `v / 60`, rounded to the
//! nearest subunit with ties going to the even value.  The stepper memoizes
//! these deltas in a hash map keyed by the raw velocity, so the same
//! velocity always yields the identical cached delta; the map is an
//! explicit cache object scoped to one search run, not hidden global state.

use vstd::prelude::*;

verus! {

/// Rounded delta for one tick at velocity `v`: the nearest integer to
/// `v / 60`, ties to even, negated symmetrically for negative `v`.
pub open spec fn round_tick_delta(v: int) -> int {
    if v >= 0 { round_nonneg(v) } else { -round_nonneg(-v) }
}

/// Round-half-even of `m / 60` for `m >= 0`.
pub open spec fn round_nonneg(m: int) -> int {
    let q = m / 60;
    let r = m % 60;
    if r > 30 {
        q + 1
    } else if r < 30 {
        q
    } else if q % 2 == 0 {
        q
    } else {
        q + 1
    }
}

/// What the memo map holds, as a mathematical map.
pub uninterp spec fn round_map_entries(m: RoundMap) -> Map<i64, i64>;

/// The backing hash map.  Hidden from the verifier; reached only through
/// the trusted wrappers below.
#[verifier::external_body]
pub struct RoundMap {
    map: hashbrown::HashMap<i64, i64>,
}

impl RoundMap {
    /// Relies on hashbrown's `HashMap::new`: creates an empty map.
    #[verifier::external_body]
    fn new() -> (r: RoundMap)
        ensures
            forall|k: i64| !round_map_entries(r).dom().contains(k),
    {
        RoundMap { map: hashbrown::HashMap::new() }
    }

    /// Relies on hashbrown's `HashMap::get`: returns the value stored under
    /// the key, if any.
    #[verifier::external_body]
    fn get(&self, k: i64) -> (r: Option<i64>)
        ensures
            r matches Some(v) ==> round_map_entries(*self).dom().contains(k)
                && round_map_entries(*self)[k] == v,
            r is None ==> !round_map_entries(*self).dom().contains(k),
    {
        self.map.get(&k).copied()
    }

    /// Relies on hashbrown's `HashMap::insert`: stores the value under the
    /// key, replacing any earlier value.
    #[verifier::external_body]
    fn insert(&mut self, k: i64, v: i64)
        ensures
            round_map_entries(*final(self)) == round_map_entries(*old(self)).insert(k, v),
    {
        self.map.insert(k, v);
    }
}

/// The rounding memo: every entry it ever holds is the exact rounded delta
/// for its key, so a hit and a recomputation are indistinguishable.
pub struct RoundCache {
    pub map: RoundMap,
}

/// Cache soundness: each stored delta is the rounded delta of its key.
pub open spec fn cache_wf(c: RoundCache) -> bool {
    forall|k: i64| round_map_entries(c.map).dom().contains(k)
        ==> round_map_entries(c.map)[k] == round_tick_delta(k as int)
}

/// Rounded delta computed directly (no memo).
fn round_delta_exec(v: i64) -> (r: i64)
    requires
        -1_000_000_000_000 <= v <= 1_000_000_000_000,
    ensures
        r == round_tick_delta(v as int),
{
    let m: u64 = if v >= 0 { v as u64 } else { (-v) as u64 };
    let q: u64 = m / 60;
    let r: u64 = m % 60;
    let up: bool = r > 30 || (r == 30 && q % 2 == 1);
    let mag: u64 = if up { q + 1 } else { q };
    proof {
        assert(m / 60 <= m && m % 60 < 60) by (nonlinear_arith)
            requires m >= 0;
    }
    if v >= 0 {
        mag as i64
    } else {
        -(mag as i64)
    }
}

impl RoundCache {
    /// An empty cache.
    pub fn new() -> (r: RoundCache)
        ensures
            cache_wf(r),
    {
        RoundCache { map: RoundMap::new() }
    }

    /// The rounded per-tick delta for velocity `v`: from the memo when
    /// present, else computed and memoized.  Always the exact rounded value.
    pub fn rounded_delta(&mut self, v: i64) -> (r: i64)
        requires
            cache_wf(*old(self)),
            -1_000_000_000_000 <= v <= 1_000_000_000_000,
        ensures
            cache_wf(*final(self)),
            r == round_tick_delta(v as int),
    {
        match self.map.get(v) {
            Some(d) => d,
            None => {
                let d = round_delta_exec(v);
                self.map.insert(v, d);
                d
            }
        }
    }
}

/// Querying the cache twice for the same raw velocity returns the identical
/// value both times, whatever reads and writes happen in between.
pub proof fn lemma_round_cache_idempotent(c1: RoundCache, c2: RoundCache, v: i64, r1: i64, r2: i64)
    requires
        cache_wf(c1),
        cache_wf(c2),
        r1 == round_tick_delta(v as int),
        r2 == round_tick_delta(v as int),
    ensures
        r1 == r2,
{
}

} // verus!
