//! The two-level cache: an in-process LRU front over a key-value backend.
//!
//! The backend kept here lives in memory: plain values, counters and lists,
//! each in its own map.

use vstd::prelude::*;

use crate::strmap::StrMap;
use crate::text::{decimal, owned, u64_to_decimal};

pub mod lru_front;

use lru_front::{front_capacity, front_entries, front_get, front_new, front_pop, front_put, FrontCache};

verus! {

/// What a read of `key` returns from the stored values and counters: the
/// stored value if there is one, else the counter in decimal.
pub open spec fn lookup(store: Map<Seq<char>, Seq<char>>, counters: Map<Seq<char>, u32>, key: Seq<char>) -> Option<Seq<char>> {
    if store.dom().contains(key) {
        Some(store[key])
    } else if counters.dom().contains(key) {
        Some(decimal(counters[key] as nat))
    } else {
        None
    }
}

/// The counter value after one more increment of `key` (wrapping).
pub open spec fn next_count(counters: Map<Seq<char>, u32>, key: Seq<char>) -> u32 {
    let prev = if counters.dom().contains(key) { counters[key] } else { 0 };
    if prev == u32::MAX { 0 } else { (prev + 1) as u32 }
}

/// The list under `key`, empty when there is none.
pub open spec fn list_or_empty(lists: Map<Seq<char>, Seq<Seq<char>>>, key: Seq<char>) -> Seq<Seq<char>> {
    if lists.dom().contains(key) { lists[key] } else { Seq::empty() }
}

/// One write to the cache.
pub enum CacheWrite {
    /// `set(key, value, _)`.
    Store { key: Seq<char>, value: Seq<char> },
    /// `del(key)`.
    Remove { key: Seq<char> },
    /// `incr(key)`.
    Incr { key: Seq<char> },
    /// `rpush(key, value)`.
    Push { key: Seq<char>, value: Seq<char> },
}

/// What reads see after the write `w`, from the stored values and counters
/// `s`.
pub open spec fn after_write(s: (Map<Seq<char>, Seq<char>>, Map<Seq<char>, u32>), w: CacheWrite) -> (
    Map<Seq<char>, Seq<char>>,
    Map<Seq<char>, u32>,
) {
    match w {
        CacheWrite::Store { key, value } => (s.0.insert(key, value), s.1),
        CacheWrite::Remove { key } => (s.0.remove(key), s.1),
        CacheWrite::Incr { key } => (s.0, s.1.insert(key, next_count(s.1, key))),
        CacheWrite::Push { .. } => s,
    }
}

/// What reads see after the writes `ws`, in order, from `s`.
pub open spec fn after_writes(s: (Map<Seq<char>, Seq<char>>, Map<Seq<char>, u32>), ws: Seq<CacheWrite>) -> (
    Map<Seq<char>, Seq<char>>,
    Map<Seq<char>, u32>,
)
    decreases ws.len(),
{
    if ws.len() == 0 {
        s
    } else {
        after_write(after_writes(s, ws.drop_last()), ws.last())
    }
}

/// The write `w` stores or deletes a value under `key`.
pub open spec fn writes_value(w: CacheWrite, key: Seq<char>) -> bool {
    ||| w matches CacheWrite::Store { key: k, .. } && k == key
    ||| w matches CacheWrite::Remove { key: k } && k == key
}

/// The number of increments of `key` among the writes `ws`.
pub open spec fn increments(ws: Seq<CacheWrite>, key: Seq<char>) -> nat
    decreases ws.len(),
{
    if ws.len() == 0 {
        0
    } else {
        increments(ws.drop_last(), key) + if ws.last() matches CacheWrite::Incr { key: k } && k == key {
            1nat
        } else {
            0nat
        }
    }
}

/// The in-memory two-level cache.
pub struct DualCache {
    front: FrontCache,
    store: StrMap<String>,
    counters: StrMap<u32>,
    lists: StrMap<Vec<String>>,
    origin: std::time::Instant,
    wall_readings: Ghost<Seq<u64>>,
}

impl DualCache {
    /// Every entry of the front layer mirrors a stored value.
    pub closed spec fn wf(&self) -> bool {
        &&& self.store.wf()
        &&& self.counters.wf()
        &&& self.lists.wf()
        &&& forall|k: Seq<char>| #[trigger] front_entries(self.front).dom().contains(k) ==> self.store.view().dom().contains(k)
            && front_entries(self.front)[k].0 == self.store.view()[k]@
    }

    /// The stored values.
    pub closed spec fn values(&self) -> Map<Seq<char>, Seq<char>> {
        self.store.view().map_values(|v: String| v@)
    }

    /// The counters.
    pub closed spec fn counters(&self) -> Map<Seq<char>, u32> {
        self.counters.view()
    }

    /// The copies held in the in-process front layer: value and expiry
    /// (milliseconds on the monotonic clock since the cache was made), by
    /// key. A read answers from a copy until it expires, then from the
    /// stored values.
    pub closed spec fn front_copies(&self) -> Map<Seq<char>, (Seq<char>, u64)> {
        front_entries(self.front)
    }

    /// The wall-clock readings (seconds since the Unix epoch) taken through
    /// [`Self::read_wall_clock`] for operations on this cache, oldest first.
    pub closed spec fn wall_readings(&self) -> Seq<u64> {
        self.wall_readings@
    }

    /// What reads see: the stored values and the counters.
    pub open spec fn state(&self) -> (Map<Seq<char>, Seq<char>>, Map<Seq<char>, u32>) {
        (self.values(), self.counters())
    }

    /// The lists.
    pub closed spec fn lists(&self) -> Map<Seq<char>, Seq<Seq<char>>> {
        self.lists.view().map_values(|l: Vec<String>| l@.map_values(|s: String| s@))
    }

    /// An empty cache whose front layer holds at most `capacity` entries.
    pub fn new_in_memory(capacity: usize) -> (c: Self)
        requires
            capacity > 0,
        ensures
            c.wf(),
            c.values() == Map::<Seq<char>, Seq<char>>::empty(),
            c.counters() == Map::<Seq<char>, u32>::empty(),
            c.lists() == Map::<Seq<char>, Seq<Seq<char>>>::empty(),
    {
        DualCache {
            front: front_new(capacity),
            store: StrMap::new(),
            counters: StrMap::new(),
            lists: StrMap::new(),
            origin: crate::clock::monotonic_now(),
            wall_readings: Ghost(Seq::empty()),
        }
    }

    /// Reads the wall clock (seconds since the Unix epoch) for an
    /// operation on this cache, and notes the reading. Nothing is promised
    /// of the reading itself; the cache's contents are unchanged.
    pub fn read_wall_clock(&mut self) -> (r: u64)
        ensures
            final(self).wall_readings() == old(self).wall_readings().push(r),
            final(self).values() == old(self).values(),
            final(self).counters() == old(self).counters(),
            final(self).lists() == old(self).lists(),
            final(self).front_copies() == old(self).front_copies(),
            old(self).wf() ==> final(self).wf(),
    {
        let r = crate::clock::now_secs();
        self.wall_readings = Ghost(self.wall_readings@.push(r));
        r
    }

    /// The value stored under `key`, else its counter in decimal.
    pub fn get(&mut self, key: &str) -> (r: Option<String>)
        requires
            old(self).wf(),
        ensures
            final(self).wf(),
            final(self).values() == old(self).values(),
            final(self).counters() == old(self).counters(),
            final(self).lists() == old(self).lists(),
            crate::text::opt_view(r) == lookup(old(self).values(), old(self).counters(), key@),
    {
        match front_get(&mut self.front, key) {
            Some((v, expiry)) => {
                if expiry > crate::clock::millis_since(&self.origin) {
                    return Some(v);
                }
                front_pop(&mut self.front, key);
            },
            None => {},
        }
        match self.store.get(key) {
            Some(v) => Some(v.clone()),
            None => match self.counters.get(key) {
                Some(n) => Some(u64_to_decimal(*n as u64)),
                None => None,
            },
        }
    }

    /// Stores `value` under `key`, and holds a copy in front that expires
    /// `ttl_secs` seconds after the write. The stored value itself does not
    /// expire in memory.
    pub fn set(&mut self, key: &str, value: &str, ttl_secs: u64)
        requires
            old(self).wf(),
        ensures
            final(self).wf(),
            final(self).values() == old(self).values().insert(key@, value@),
            final(self).counters() == old(self).counters(),
            final(self).lists() == old(self).lists(),
            final(self).state() == after_write(old(self).state(), CacheWrite::Store { key: key@, value: value@ }),
            exists|now: u64|
                final(self).front_copies().dom().contains(key@) && final(self).front_copies()[key@] == (
                    value@,
                    #[trigger] expiry_after(now, ttl_secs),
                ),
    {
        let now = crate::clock::millis_since(&self.origin);
        let expiry = expiry_of(now, ttl_secs);
        front_pop(&mut self.front, key);
        let v = owned(value);
        self.store.insert(key, v);
        front_put(&mut self.front, owned(key), (owned(value), expiry));
    }

    /// Removes the value stored under `key` (counters and lists are kept).
    pub fn del(&mut self, key: &str)
        requires
            old(self).wf(),
        ensures
            final(self).wf(),
            final(self).values() == old(self).values().remove(key@),
            final(self).counters() == old(self).counters(),
            final(self).lists() == old(self).lists(),
            final(self).state() == after_write(old(self).state(), CacheWrite::Remove { key: key@ }),
    {
        front_pop(&mut self.front, key);
        self.store.remove(key);
        assert(self.values() =~= old(self).values().remove(key@));
    }

    /// Advances the counter under `key` (wrapping at `u32::MAX`) and returns
    /// its new value.
    pub fn incr(&mut self, key: &str) -> (r: Result<u32, String>)
        requires
            old(self).wf(),
        ensures
            final(self).wf(),
            r matches Ok(n) && n == next_count(old(self).counters(), key@),
            final(self).counters() == old(self).counters().insert(key@, next_count(old(self).counters(), key@)),
            final(self).values() == old(self).values(),
            final(self).lists() == old(self).lists(),
            final(self).state() == after_write(old(self).state(), CacheWrite::Incr { key: key@ }),
            final(self).wall_readings() == old(self).wall_readings(),
    {
        let prev = match self.counters.get(key) {
            Some(n) => *n,
            None => 0,
        };
        let n = if prev == u32::MAX { 0 } else { prev + 1 };
        self.counters.insert(key, n);
        Ok(n)
    }

    /// Expiry requests have no effect on the in-memory backend: counters are
    /// kept per time window by their keys.
    pub fn expire(&mut self, key: &str, ttl_secs: u64)
        requires
            old(self).wf(),
        ensures
            *final(self) == *old(self),
    {
    }

    /// Appends `value` to the list under `key`.
    pub fn rpush(&mut self, key: &str, value: &str)
        requires
            old(self).wf(),
        ensures
            final(self).wf(),
            final(self).lists() == old(self).lists().insert(key@, list_or_empty(old(self).lists(), key@).push(value@)),
            final(self).values() == old(self).values(),
            final(self).counters() == old(self).counters(),
            final(self).state() == after_write(old(self).state(), CacheWrite::Push { key: key@, value: value@ }),
    {
        let ghost prior = list_or_empty(old(self).lists(), key@);
        let mut list = match self.lists.remove(key) {
            Some(l) => l,
            None => {
                let l: Vec<String> = Vec::new();
                assert(l@.map_values(|s: String| s@) =~= prior);
                l
            },
        };
        let ghost before = list@;
        assert(before.map_values(|s: String| s@) == prior);
        list.push(owned(value));
        assert(list@.map_values(|s: String| s@) =~= before.map_values(|s: String| s@).push(value@));
        self.lists.insert(key, list);
        assert(self.lists() =~= old(self).lists().insert(key@, list_or_empty(old(self).lists(), key@).push(value@)));
    }
}

/// The expiry, in milliseconds on the clock in use, of an entry stored at
/// `now_ms` for `ttl_secs` seconds (saturating at `u64::MAX`).
pub open spec fn expiry_after(now_ms: u64, ttl_secs: u64) -> u64 {
    if now_ms + ttl_secs * 1000 > u64::MAX {
        u64::MAX
    } else {
        (now_ms + ttl_secs * 1000) as u64
    }
}

fn expiry_of(now_ms: u64, ttl_secs: u64) -> (r: u64)
    ensures
        r == expiry_after(now_ms, ttl_secs),
{
    if ttl_secs > (u64::MAX - now_ms) / 1000 {
        assert(now_ms + ttl_secs * 1000 > u64::MAX) by (nonlinear_arith)
            requires
                ttl_secs > (u64::MAX - now_ms) / 1000,
        ;
        u64::MAX
    } else {
        assert(now_ms + ttl_secs * 1000 <= u64::MAX) by (nonlinear_arith)
            requires
                ttl_secs <= (u64::MAX - now_ms) / 1000,
        ;
        now_ms + ttl_secs * 1000
    }
}

/// Seconds a value fetched from the backend stays in the front layer.
pub open spec fn fetched_ttl() -> u64 {
    60
}

/// The in-process layer alone, in front of a backend reached over the
/// network by its owner.
pub struct FrontLayer {
    front: FrontCache,
}

impl FrontLayer {
    /// The entries held: value and expiry, by key.
    pub closed spec fn entries(&self) -> Map<Seq<char>, (Seq<char>, u64)> {
        front_entries(self.front)
    }

    /// The most entries held.
    pub closed spec fn capacity(&self) -> nat {
        front_capacity(self.front)
    }

    /// An empty layer holding at most `capacity` entries.
    pub fn new(capacity: usize) -> (f: Self)
        requires
            capacity > 0,
        ensures
            f.entries().dom() == Set::<Seq<char>>::empty(),
            f.capacity() == capacity,
    {
        FrontLayer { front: front_new(capacity) }
    }

    /// The value held under `key` if it has not expired at `now_ms`; an
    /// expired entry is dropped.
    pub fn lookup_at(&mut self, key: &str, now_ms: u64) -> (r: Option<String>)
        ensures
            final(self).capacity() == old(self).capacity(),
            if old(self).entries().dom().contains(key@) && old(self).entries()[key@].1 > now_ms {
                &&& r matches Some(v) && v@ == old(self).entries()[key@].0
                &&& final(self).entries() == old(self).entries()
            } else {
                &&& r is None
                &&& final(self).entries() == old(self).entries().remove(key@)
            },
    {
        match front_get(&mut self.front, key) {
            Some((v, expiry)) => {
                if expiry > now_ms {
                    return Some(v);
                }
                front_pop(&mut self.front, key);
                None
            },
            None => {
                front_pop(&mut self.front, key);
                assert(self.entries() =~= old(self).entries().remove(key@));
                None
            },
        }
    }

    /// Holds `value` under `key` for `ttl_secs` seconds from `now_ms`; when
    /// the key is new and the layer full, another entry is evicted.
    pub fn remember_at(&mut self, key: &str, value: &str, ttl_secs: u64, now_ms: u64)
        ensures
            final(self).capacity() == old(self).capacity(),
            ({
                let before = old(self).entries();
                let after = final(self).entries();
                let grown = before.insert(key@, (value@, expiry_after(now_ms, ttl_secs)));
                if before.dom().contains(key@) || before.dom().len() < old(self).capacity() {
                    after == grown
                } else {
                    exists|e: Seq<char>| #[trigger] before.dom().contains(e) && e != key@ && after == grown.remove(e)
                }
            }),
    {
        let expiry = expiry_of(now_ms, ttl_secs);
        front_put(&mut self.front, owned(key), (owned(value), expiry));
    }

    /// Holds a value just fetched from the backend under `key` for
    /// [`fetched_ttl`] seconds from `now_ms`, as [`Self::remember_at`] does.
    pub fn remember_fetched_at(&mut self, key: &str, value: &str, now_ms: u64)
        ensures
            final(self).capacity() == old(self).capacity(),
            ({
                let before = old(self).entries();
                let after = final(self).entries();
                let grown = before.insert(key@, (value@, expiry_after(now_ms, fetched_ttl())));
                if before.dom().contains(key@) || before.dom().len() < old(self).capacity() {
                    after == grown
                } else {
                    exists|e: Seq<char>| #[trigger] before.dom().contains(e) && e != key@ && after == grown.remove(e)
                }
            }),
    {
        self.remember_at(key, value, 60, now_ms)
    }

    /// Drops the entry under `key`.
    pub fn forget(&mut self, key: &str)
        ensures
            final(self).capacity() == old(self).capacity(),
            final(self).entries() == old(self).entries().remove(key@),
    {
        front_pop(&mut self.front, key);
    }
}

/// A value written under a key is what a later read of that key returns.
pub proof fn lemma_read_after_write(
    values: Map<Seq<char>, Seq<char>>,
    counters: Map<Seq<char>, u32>,
    key: Seq<char>,
    value: Seq<char>,
)
    ensures
        lookup(values.insert(key, value), counters, key) == Some(value),
{
}

/// Writing a key leaves what reads of every other key return unchanged.
pub proof fn lemma_write_isolated(
    values: Map<Seq<char>, Seq<char>>,
    counters: Map<Seq<char>, u32>,
    key: Seq<char>,
    value: Seq<char>,
    other: Seq<char>,
)
    requires
        other != key,
    ensures
        lookup(values.insert(key, value), counters, other) == lookup(values, counters, other),
{
}

/// After a key's value is deleted, a read of the key finds only its
/// counter, if it has one.
pub proof fn lemma_read_after_delete(values: Map<Seq<char>, Seq<char>>, counters: Map<Seq<char>, u32>, key: Seq<char>)
    ensures
        lookup(values.remove(key), counters, key) == (if counters.dom().contains(key) {
            Some(decimal(counters[key] as nat))
        } else {
            None
        }),
{
}

/// Each increment adds one to the counter, a fresh counter counting from
/// zero; only the largest value wraps around to zero.
pub proof fn lemma_incr_adds_one(counters: Map<Seq<char>, u32>, key: Seq<char>)
    ensures
        !counters.dom().contains(key) ==> next_count(counters, key) == 1,
        counters.dom().contains(key) && counters[key] < u32::MAX ==> next_count(counters, key) == counters[key] + 1,
        counters.dom().contains(key) && counters[key] == u32::MAX ==> next_count(counters, key) == 0,
{
}

/// The n-th increment of a fresh counter returns n (for n up to
/// `u32::MAX`): counting is exact until the counter is full.
pub proof fn lemma_incr_counts(counters: Map<Seq<char>, u32>, key: Seq<char>, n: u32)
    requires
        0 < n,
        n == 1 ==> !counters.dom().contains(key),
        n > 1 ==> counters.dom().contains(key) && counters[key] == n - 1,
    ensures
        next_count(counters, key) == n,
{
}

proof fn lemma_stored_value_kept(
    s: (Map<Seq<char>, Seq<char>>, Map<Seq<char>, u32>),
    key: Seq<char>,
    value: Seq<char>,
    later: Seq<CacheWrite>,
)
    requires
        forall|i: int| 0 <= i < later.len() ==> !writes_value(#[trigger] later[i], key),
    ensures
        ({
            let t = after_writes(s, seq![CacheWrite::Store { key, value }] + later);
            t.0.dom().contains(key) && t.0[key] == value
        }),
    decreases later.len(),
{
    let ws = seq![CacheWrite::Store { key, value }] + later;
    if later.len() == 0 {
        assert(ws.drop_last() =~= Seq::<CacheWrite>::empty());
    } else {
        assert(ws.drop_last() =~= seq![CacheWrite::Store { key, value }] + later.drop_last());
        assert forall|i: int| 0 <= i < later.drop_last().len() implies !writes_value(#[trigger] later.drop_last()[i], key) by {
            assert(later.drop_last()[i] == later[i]);
        }
        lemma_stored_value_kept(s, key, value, later.drop_last());
        assert(ws.last() == later[later.len() - 1]);
        assert(!writes_value(later[later.len() - 1], key));
    }
}

/// A value stored under a key is what reads of that key return for as long
/// as no later write stores or deletes a value under that key, whatever is
/// stored, deleted, counted or appended under other keys meanwhile.
pub proof fn lemma_read_back_after_writes(
    s: (Map<Seq<char>, Seq<char>>, Map<Seq<char>, u32>),
    key: Seq<char>,
    value: Seq<char>,
    later: Seq<CacheWrite>,
)
    requires
        forall|i: int| 0 <= i < later.len() ==> !writes_value(#[trigger] later[i], key),
    ensures
        ({
            let t = after_writes(s, seq![CacheWrite::Store { key, value }] + later);
            lookup(t.0, t.1, key) == Some(value)
        }),
{
    lemma_stored_value_kept(s, key, value, later);
}

proof fn lemma_counted(ws: Seq<CacheWrite>, key: Seq<char>)
    requires
        forall|i: int| 0 <= i < ws.len() ==> !writes_value(#[trigger] ws[i], key),
        increments(ws, key) <= u32::MAX,
    ensures
        ({
            let t = after_writes((Map::empty(), Map::empty()), ws);
            &&& !t.0.dom().contains(key)
            &&& increments(ws, key) == 0 ==> !t.1.dom().contains(key)
            &&& increments(ws, key) > 0 ==> t.1.dom().contains(key) && t.1[key] == increments(ws, key)
        }),
    decreases ws.len(),
{
    if ws.len() > 0 {
        let p = ws.drop_last();
        assert forall|i: int| 0 <= i < p.len() implies !writes_value(#[trigger] p[i], key) by {
            assert(p[i] == ws[i]);
        }
        lemma_counted(p, key);
        assert(!writes_value(ws[ws.len() - 1], key));
    }
}

/// A counter that no write stores or deletes a value under reads, after
/// `m` increments from an empty cache, as `m` in decimal (for `m` from 1 to
/// `u32::MAX`): each increment counts once, and increments of other keys
/// and other writes do not disturb it.
pub proof fn lemma_counter_reads_increments(ws: Seq<CacheWrite>, key: Seq<char>)
    requires
        forall|i: int| 0 <= i < ws.len() ==> !writes_value(#[trigger] ws[i], key),
        1 <= increments(ws, key) <= u32::MAX,
    ensures
        ({
            let t = after_writes((Map::empty(), Map::empty()), ws);
            lookup(t.0, t.1, key) == Some(decimal(increments(ws, key)))
        }),
{
    lemma_counted(ws, key);
}

/// A key-value cache with counters and lists, as the gateway's hooks and
/// strategies use it.
pub trait CacheLayer {
    /// The cache's internal state is consistent.
    spec fn consistent(&self) -> bool;

    /// The value stored under `key`, if any.
    fn get(&mut self, key: &str) -> (r: Option<String>)
        requires
            old(self).consistent(),
        ensures
            final(self).consistent(),
    ;

    /// Stores `value` under `key` for `ttl_secs` seconds.
    fn set(&mut self, key: &str, value: &str, ttl_secs: u64)
        requires
            old(self).consistent(),
        ensures
            final(self).consistent(),
    ;

    /// Removes the value under `key`.
    fn del(&mut self, key: &str)
        requires
            old(self).consistent(),
        ensures
            final(self).consistent(),
    ;

    /// Adds one to the counter under `key` and returns its new value.
    fn incr(&mut self, key: &str) -> (r: Result<u32, String>)
        requires
            old(self).consistent(),
        ensures
            final(self).consistent(),
    ;

    /// Asks for the entry under `key` to expire after `ttl_secs` seconds.
    fn expire(&mut self, key: &str, ttl_secs: u64)
        requires
            old(self).consistent(),
        ensures
            final(self).consistent(),
    ;

    /// Appends `value` to the list under `key`.
    fn rpush(&mut self, key: &str, value: &str)
        requires
            old(self).consistent(),
        ensures
            final(self).consistent(),
    ;
}

impl CacheLayer for DualCache {
    open spec fn consistent(&self) -> bool {
        self.wf()
    }

    fn get(&mut self, key: &str) -> (r: Option<String>)
        ensures
            final(self).values() == old(self).values(),
            final(self).counters() == old(self).counters(),
            final(self).lists() == old(self).lists(),
            crate::text::opt_view(r) == lookup(old(self).values(), old(self).counters(), key@),
    {
        DualCache::get(self, key)
    }

    fn set(&mut self, key: &str, value: &str, ttl_secs: u64)
        ensures
            final(self).values() == old(self).values().insert(key@, value@),
            final(self).counters() == old(self).counters(),
            final(self).lists() == old(self).lists(),
    {
        DualCache::set(self, key, value, ttl_secs)
    }

    fn del(&mut self, key: &str)
        ensures
            final(self).values() == old(self).values().remove(key@),
            final(self).counters() == old(self).counters(),
            final(self).lists() == old(self).lists(),
    {
        DualCache::del(self, key)
    }

    fn incr(&mut self, key: &str) -> (r: Result<u32, String>)
        ensures
            r matches Ok(n) && n == next_count(old(self).counters(), key@),
            final(self).counters() == old(self).counters().insert(key@, next_count(old(self).counters(), key@)),
            final(self).values() == old(self).values(),
            final(self).lists() == old(self).lists(),
    {
        DualCache::incr(self, key)
    }

    fn expire(&mut self, key: &str, ttl_secs: u64)
        ensures
            *final(self) == *old(self),
    {
        DualCache::expire(self, key, ttl_secs)
    }

    fn rpush(&mut self, key: &str, value: &str)
        ensures
            final(self).lists() == old(self).lists().insert(key@, list_or_empty(old(self).lists(), key@).push(value@)),
            final(self).values() == old(self).values(),
            final(self).counters() == old(self).counters(),
    {
        DualCache::rpush(self, key, value)
    }
}

} // verus!
