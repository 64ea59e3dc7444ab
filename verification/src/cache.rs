//! In-memory cache with least-recently-used eviction and expiration policies.
use vstd::prelude::*;
use vstd::laws_eq::obeys_concrete_eq;
use crate::calendar::{Date, TimeDelta, first_date, last_date};

verus! {

/// A moment in time: nanoseconds since the Unix epoch.
#[derive(Clone, Copy, PartialEq, Eq, Structural, Debug)]
pub struct Instant {
    pub nanos: i128,
}

/// Reads the system clock with `chrono::Local::now` and gives its `timestamp_micros`:
/// microseconds since the Unix epoch. Nothing is claimed of the reading.
#[verifier::external_body]
fn clock_micros() -> i64 {
    chrono::Local::now().timestamp_micros()
}

/// The current moment, as the system clock gives it: a whole number of microseconds that
/// fits in an `i64`, in nanoseconds. Which moment it is rests on the clock alone.
pub fn now() -> (r: Instant)
    ensures
        r.nanos % 1000 == 0,
        i64::MIN as int * 1000 <= r.nanos <= i64::MAX as int * 1000,
{
    let micros = clock_micros();
    Instant { nanos: micros as i128 * 1000 }
}

/// The first moment a date and time can hold, -262143-01-01T00:00:00 UTC, in nanoseconds
/// since the Unix epoch.
pub const FIRST_INSTANT_NANOS: i128 = -8334601228800000000000;

/// The last moment a date and time can hold, 262142-12-31T23:59:59.999999999 UTC, in
/// nanoseconds since the Unix epoch.
pub const LAST_INSTANT_NANOS: i128 = 8210266876799999999999;

/// The two bounds are the first moment of the first supported date and the last moment of
/// the last one, counted from 1970-01-01.
pub proof fn lemma_instant_range()
    ensures
        FIRST_INSTANT_NANOS == (first_date().day_number() - (Date { year: 1970, month: 1, day: 1 }).day_number())
            * 86400 * 1_000_000_000,
        LAST_INSTANT_NANOS == (last_date().day_number() + 1 - (Date { year: 1970, month: 1, day: 1 }).day_number())
            * 86400 * 1_000_000_000 - 1,
{
    assert(first_date().day_number() == -95746130);
    assert(last_date().day_number() == 95745398);
    assert((Date { year: 1970, month: 1, day: 1 }).day_number() == 719162);
}

/// `start + duration` is a moment a date and time can hold; beyond that range the sum does
/// not exist.
pub open spec fn end_exists(start: Instant, duration: TimeDelta) -> bool {
    FIRST_INSTANT_NANOS <= start.nanos + duration.nanos <= LAST_INSTANT_NANOS
}

/// A value is expired at `now` when `start + duration` is less than `now`; a sum beyond the
/// range of dates and times never expires.
pub open spec fn is_expired_spec(start: Instant, duration: TimeDelta, now: Instant) -> bool {
    end_exists(start, duration) && start.nanos + duration.nanos < now.nanos
}

/// Whether `start + duration` is less than `now`.
pub fn is_expired(start: Instant, duration: TimeDelta, now: Instant) -> (r: bool)
    ensures
        r == is_expired_spec(start, duration, now),
{
    match start.nanos.checked_add(duration.nanos) {
        Some(end) => FIRST_INSTANT_NANOS <= end && end <= LAST_INSTANT_NANOS && end < now.nanos,
        None => false,
    }
}

/// A cached value with its creation time, last access time and number of hits.
#[derive(Debug, Clone)]
pub struct Entry<V> {
    pub value: V,
    pub created_at: Instant,
    pub accessed_at: Instant,
    pub hits: u32,
}

impl<V> Entry<V> {
    /// A fresh entry created and accessed at `now`, with no hits.
    pub fn new(value: V, now: Instant) -> (r: Entry<V>)
        ensures
            r == (Entry { value, created_at: now, accessed_at: now, hits: 0 }),
    {
        Entry { value, created_at: now, accessed_at: now, hits: 0 }
    }
}

/// Abstract state of a cache: entries from the most to the least recently used, the
/// capacity and the expiration policies.
pub struct CacheView<K, V> {
    pub entries: Seq<(K, Entry<V>)>,
    pub capacity: nat,
    pub expires_after_creation: Option<TimeDelta>,
    pub expires_after_access: Option<TimeDelta>,
    pub max_hits: Option<u32>,
}

/// Position of key `k` among the entries.
pub open spec fn key_index<K, V>(s: Seq<(K, Entry<V>)>, k: K) -> Option<int> {
    if exists|i: int| 0 <= i < s.len() && s[i].0 == k {
        Some(choose|i: int| 0 <= i < s.len() && s[i].0 == k)
    } else {
        None
    }
}

/// No key occurs twice.
pub open spec fn keys_unique<K, V>(s: Seq<(K, Entry<V>)>) -> bool {
    forall|i: int, j: int| #![trigger s[i], s[j]] 0 <= i < s.len() && 0 <= j < s.len() && i != j ==> s[i].0 != s[j].0
}

impl<K, V> CacheView<K, V> {
    pub open spec fn wf(self) -> bool {
        &&& self.capacity >= 1
        &&& self.entries.len() <= self.capacity
        &&& keys_unique(self.entries)
    }

    /// Whether an entry counts as expired at `now` under this cache's policies.
    pub open spec fn expired(self, e: Entry<V>, now: Instant) -> bool {
        ||| (self.expires_after_creation matches Some(d) && is_expired_spec(e.created_at, d, now))
        ||| (self.expires_after_access matches Some(d) && is_expired_spec(e.accessed_at, d, now))
        ||| (self.max_hits matches Some(m) && m <= e.hits)
    }

    pub open spec fn with_entries(self, entries: Seq<(K, Entry<V>)>) -> CacheView<K, V> {
        CacheView { entries, ..self }
    }

    /// State after pushing `(k, e)` and the displaced entry: the old entry of the same key,
    /// or the least recently used one when the cache is full.
    pub open spec fn push_spec(self, k: K, e: Entry<V>) -> (CacheView<K, V>, Option<(K, Entry<V>)>) {
        match key_index(self.entries, k) {
            Some(i) => (self.with_entries(seq![(k, e)] + self.entries.remove(i)), Some((k, self.entries[i].1))),
            None => if self.entries.len() == self.capacity {
                (self.with_entries(seq![(k, e)] + self.entries.drop_last()), Some(self.entries.last()))
            } else {
                (self.with_entries(seq![(k, e)] + self.entries), None)
            },
        }
    }

    /// State after reading key `k` at `now`, and the value with its expiration flag. An
    /// expired entry is dropped unless `keep_expired`; a returned entry becomes the most
    /// recently used, with its access time set to `now` and one more hit.
    pub open spec fn get_spec(self, k: K, keep_expired: bool, now: Instant) -> (CacheView<K, V>, Option<(V, bool)>) {
        match key_index(self.entries, k) {
            None => (self, None),
            Some(i) => {
                let e = self.entries[i].1;
                let expired = self.expired(e, now);
                if expired && !keep_expired {
                    (self.with_entries(self.entries.remove(i)), None)
                } else {
                    let hits = if e.hits == u32::MAX { u32::MAX } else { (e.hits + 1) as u32 };
                    let touched = Entry { value: e.value, created_at: e.created_at, accessed_at: now, hits };
                    (self.with_entries(seq![(self.entries[i].0, touched)] + self.entries.remove(i)), Some((e.value, expired)))
                }
            },
        }
    }
}

/// An in-memory cache that keeps at most `capacity` entries and evicts the least recently
/// used one. Entries may expire by creation time, by last access time and by number of hits.
pub struct InMemoryCache<K, V> {
    entries: Vec<(K, Entry<V>)>,
    capacity: usize,
    expires_after_creation: Option<TimeDelta>,
    expires_after_access: Option<TimeDelta>,
    max_hits: Option<u32>,
}

impl<K, V> View for InMemoryCache<K, V> {
    type V = CacheView<K, V>;

    closed spec fn view(&self) -> CacheView<K, V> {
        CacheView {
            entries: self.entries@,
            capacity: self.capacity as nat,
            expires_after_creation: self.expires_after_creation,
            expires_after_access: self.expires_after_access,
            max_hits: self.max_hits,
        }
    }
}

fn keys_equal<K: PartialEq>(a: &K, b: &K) -> (r: bool)
    requires
        obeys_concrete_eq::<K>(),
    ensures
        r == (*a == *b),
{
    proof {
        reveal(obeys_concrete_eq);
    }
    a.eq(b)
}

impl<K: PartialEq, V> InMemoryCache<K, V> {
    /// An empty cache holding at most `capacity` entries, without expiration policies.
    pub fn with_capacity(capacity: usize) -> (r: Self)
        requires
            capacity > 0,
        ensures
            r@.wf(),
            r@.entries.len() == 0,
            r@.capacity == capacity,
            r@.expires_after_creation is None,
            r@.expires_after_access is None,
            r@.max_hits is None,
    {
        InMemoryCache {
            entries: Vec::new(),
            capacity,
            expires_after_creation: None,
            expires_after_access: None,
            max_hits: None,
        }
    }

    /// Values expire once their creation time plus `duration` is less than the current time.
    pub fn expires_after_creation(self, duration: TimeDelta) -> (r: Self)
        ensures
            r@ == (CacheView { expires_after_creation: Some(duration), ..self@ }),
    {
        InMemoryCache { expires_after_creation: Some(duration), ..self }
    }

    /// Values expire once their last access time plus `duration` is less than the current time.
    pub fn expires_after_access(self, duration: TimeDelta) -> (r: Self)
        ensures
            r@ == (CacheView { expires_after_access: Some(duration), ..self@ }),
    {
        InMemoryCache { expires_after_access: Some(duration), ..self }
    }

    /// Values expire once they have been read `max_hits` times.
    pub fn max_hits(self, max_hits: u32) -> (r: Self)
        ensures
            r@ == (CacheView { max_hits: Some(max_hits), ..self@ }),
    {
        InMemoryCache { max_hits: Some(max_hits), ..self }
    }

    fn find(&self, key: &K) -> (r: Option<usize>)
        requires
            obeys_concrete_eq::<K>(),
            keys_unique(self@.entries),
        ensures
            r matches Some(i) ==> key_index(self@.entries, *key) == Some(i as int),
            r is None ==> key_index(self@.entries, *key) is None,
    {
        let n = self.entries.len();
        let mut i: usize = 0;
        while i < n
            invariant
                n == self.entries@.len(),
                i <= n,
                obeys_concrete_eq::<K>(),
                keys_unique(self@.entries),
                forall|j: int| 0 <= j < i ==> self.entries@[j].0 != *key,
            decreases n - i,
        {
            if keys_equal(&self.entries[i].0, key) {
                proof {
                    let c = choose|c: int| 0 <= c < self@.entries.len() && self@.entries[c].0 == *key;
                    assert(c == i) by {
                        if c != i {
                            assert(self@.entries[c].0 != self@.entries[i as int].0);
                        }
                    }
                }
                return Some(i);
            }
            i = i + 1;
        }
        None
    }

    /// Inserts a complete entry. Returns the old entry of the same key (with the given key),
    /// or the least recently used entry if the cache was full, or `None`.
    pub fn insert_entry(&mut self, key: K, entry: Entry<V>) -> (r: Option<(K, Entry<V>)>)
        requires
            obeys_concrete_eq::<K>(),
            old(self)@.wf(),
        ensures
            final(self)@.wf(),
            (final(self)@, r) == old(self)@.push_spec(key, entry),
    {
        match self.find(&key) {
            Some(i) => {
                let (old_key, old_entry) = self.entries.remove(i);
                self.entries.insert(0, (old_key, entry));
                proof {
                    lemma_front_unique(old(self)@.entries.remove(i as int), self.entries@[0]);
                    assert(self.entries@ =~= seq![self.entries@[0]] + old(self)@.entries.remove(i as int));
                }
                Some((key, old_entry))
            },
            None => {
                let ghost before = self.entries@;
                if self.entries.len() == self.capacity {
                    let last = self.entries.pop().unwrap();
                    self.entries.insert(0, (key, entry));
                    proof {
                        assert(before.drop_last() =~= self.entries@.drop_first());
                        lemma_front_unique_fresh(before.drop_last(), self.entries@[0], before);
                        assert(self.entries@ =~= seq![self.entries@[0]] + before.drop_last());
                    }
                    Some(last)
                } else {
                    self.entries.insert(0, (key, entry));
                    proof {
                        lemma_front_unique_fresh(before, self.entries@[0], before);
                        assert(self.entries@ =~= seq![self.entries@[0]] + before);
                    }
                    None
                }
            },
        }
    }

    /// Inserts a value created at `now`; see [InMemoryCache::insert_entry] for the result.
    pub fn insert(&mut self, key: K, value: V, now: Instant) -> (r: Option<(K, Entry<V>)>)
        requires
            obeys_concrete_eq::<K>(),
            old(self)@.wf(),
        ensures
            final(self)@.wf(),
            (final(self)@, r) == old(self)@.push_spec(key, Entry { value, created_at: now, accessed_at: now, hits: 0 }),
    {
        self.insert_entry(key, Entry::new(value, now))
    }

    /// Whether the key is cached; no expiration check and no change to the recency order.
    pub fn contains(&self, key: &K) -> (r: bool)
        requires
            obeys_concrete_eq::<K>(),
            self@.wf(),
        ensures
            r == (key_index(self@.entries, *key) is Some),
    {
        self.find(key).is_some()
    }

    fn expired_now(&self, e: &Entry<V>, now: Instant) -> (r: bool)
        ensures
            r == self@.expired(*e, now),
    {
        let a = match self.expires_after_creation {
            Some(d) => is_expired(e.created_at, d, now),
            None => false,
        };
        let b = match self.expires_after_access {
            Some(d) => is_expired(e.accessed_at, d, now),
            None => false,
        };
        let c = match self.max_hits {
            Some(m) => m <= e.hits,
            None => false,
        };
        a || b || c
    }

    /// Reads `key` at `now`; see [CacheView::get_spec]. Returns the index of the entry (the
    /// front) and whether it is expired.
    fn get_entry(&mut self, key: &K, keep_expired_value: bool, now: Instant) -> (r: Option<bool>)
        requires
            obeys_concrete_eq::<K>(),
            old(self)@.wf(),
        ensures
            final(self)@.wf(),
            final(self)@ == old(self)@.get_spec(*key, keep_expired_value, now).0,
            r matches Some(x) ==> old(self)@.get_spec(*key, keep_expired_value, now).1 == Some((final(self)@.entries[0].1.value, x)),
            r is None <==> old(self)@.get_spec(*key, keep_expired_value, now).1 is None,
            r is Some ==> final(self)@.entries.len() > 0,
    {
        match self.find(key) {
            None => None,
            Some(i) => {
                let expired = self.expired_now(&self.entries[i].1, now);
                let (k, e) = self.entries.remove(i);
                if expired && !keep_expired_value {
                    proof {
                        lemma_remove_unique(old(self)@.entries, i as int);
                    }
                    return None;
                }
                let hits = e.hits.saturating_add(1);
                let touched = Entry { value: e.value, created_at: e.created_at, accessed_at: now, hits };
                self.entries.insert(0, (k, touched));
                proof {
                    lemma_front_unique(old(self)@.entries.remove(i as int), self.entries@[0]);
                    assert(self.entries@ =~= seq![self.entries@[0]] + old(self)@.entries.remove(i as int));
                }
                Some(expired)
            },
        }
    }

    /// The value of `key` if it is cached and not expired at `now`; an expired value is removed.
    pub fn get(&mut self, key: &K, now: Instant) -> (r: Option<&V>)
        requires
            obeys_concrete_eq::<K>(),
            old(self)@.wf(),
        ensures
            final(self)@.wf(),
            final(self)@ == old(self)@.get_spec(*key, false, now).0,
            r matches Some(v) ==> old(self)@.get_spec(*key, false, now).1 == Some((*v, false)),
            r is None <==> old(self)@.get_spec(*key, false, now).1 is None,
    {
        match self.get_entry(key, false, now) {
            None => None,
            Some(_) => Some(&self.entries[0].1.value),
        }
    }

    /// The value of `key` if it is cached, with whether it is expired at `now`; expired
    /// values are kept.
    pub fn peek(&mut self, key: &K, now: Instant) -> (r: Option<(&V, bool)>)
        requires
            obeys_concrete_eq::<K>(),
            old(self)@.wf(),
        ensures
            final(self)@.wf(),
            final(self)@ == old(self)@.get_spec(*key, true, now).0,
            r matches Some((v, x)) ==> old(self)@.get_spec(*key, true, now).1 == Some((*v, x)),
            r is None <==> old(self)@.get_spec(*key, true, now).1 is None,
    {
        match self.get_entry(key, true, now) {
            None => None,
            Some(x) => Some((&self.entries[0].1.value, x)),
        }
    }
}

proof fn lemma_remove_unique<K, V>(s: Seq<(K, Entry<V>)>, i: int)
    requires
        keys_unique(s),
        0 <= i < s.len(),
    ensures
        keys_unique(s.remove(i)),
{
    let r = s.remove(i);
    assert forall|a: int, b: int| 0 <= a < r.len() && 0 <= b < r.len() && a != b implies r[a].0 != r[b].0 by {
        let sa = if a < i { a } else { a + 1 };
        let sb = if b < i { b } else { b + 1 };
        assert(r[a] == s[sa] && r[b] == s[sb]);
    }
}

proof fn lemma_front_unique<K, V>(rest: Seq<(K, Entry<V>)>, front: (K, Entry<V>))
    requires
        keys_unique(rest),
        forall|j: int| 0 <= j < rest.len() ==> rest[j].0 != front.0,
    ensures
        keys_unique(seq![front] + rest),
{
    let s = seq![front] + rest;
    assert forall|a: int, b: int| 0 <= a < s.len() && 0 <= b < s.len() && a != b implies s[a].0 != s[b].0 by {
        if a > 0 && b > 0 {
            assert(s[a] == rest[a - 1] && s[b] == rest[b - 1]);
        } else if a == 0 {
            assert(s[b] == rest[b - 1]);
        } else {
            assert(s[a] == rest[a - 1]);
        }
    }
}

proof fn lemma_front_unique_fresh<K, V>(rest: Seq<(K, Entry<V>)>, front: (K, Entry<V>), all: Seq<(K, Entry<V>)>)
    requires
        keys_unique(all),
        rest.len() <= all.len(),
        forall|j: int| 0 <= j < rest.len() ==> rest[j] == all[j],
        key_index(all, front.0) is None,
    ensures
        keys_unique(seq![front] + rest),
{
    assert forall|a: int, b: int| 0 <= a < rest.len() && 0 <= b < rest.len() && a != b implies rest[a].0 != rest[b].0 by {
        assert(rest[a] == all[a] && rest[b] == all[b]);
    }
    assert forall|j: int| 0 <= j < rest.len() implies rest[j].0 != front.0 by {
        assert(rest[j] == all[j]);
    }
    lemma_front_unique(rest, front);
}


/// Pushing keeps the cache well formed: keys stay unique and the size never exceeds the
/// capacity.
pub proof fn lemma_push_keeps_capacity<K, V>(c: CacheView<K, V>, k: K, e: Entry<V>)
    requires
        c.wf(),
    ensures
        c.push_spec(k, e).0.wf(),
        c.push_spec(k, e).0.entries.len() <= c.capacity,
{
    match key_index(c.entries, k) {
        Some(i) => {
            lemma_remove_unique(c.entries, i);
            assert forall|j: int| 0 <= j < c.entries.remove(i).len() implies c.entries.remove(i)[j].0 != k by {
                let sj = if j < i { j } else { j + 1 };
                assert(c.entries.remove(i)[j] == c.entries[sj]);
            }
            lemma_front_unique(c.entries.remove(i), (k, e));
        },
        None => {
            if c.entries.len() == c.capacity {
                lemma_front_unique_fresh(c.entries.drop_last(), (k, e), c.entries);
            } else {
                lemma_front_unique_fresh(c.entries, (k, e), c.entries);
            }
        },
    }
}

/// A value just written is read back: after pushing `(k, e)`, reading `k` at `now` gives
/// `e`'s value, flagged expired exactly when `e` is expired at `now`.
pub proof fn lemma_read_after_write<K, V>(c: CacheView<K, V>, k: K, e: Entry<V>, keep_expired: bool, now: Instant)
    requires
        c.wf(),
    ensures
        !c.expired(e, now) || keep_expired ==> c.push_spec(k, e).0.get_spec(k, keep_expired, now).1
            == Some((e.value, c.expired(e, now))),
        c.expired(e, now) && !keep_expired ==> c.push_spec(k, e).0.get_spec(k, keep_expired, now).1 is None,
{
    lemma_push_keeps_capacity(c, k, e);
    let c2 = c.push_spec(k, e).0;
    assert(c2.entries[0] == (k, e));
    let i = choose|i: int| 0 <= i < c2.entries.len() && c2.entries[i].0 == k;
    assert(i == 0) by {
        if i != 0 {
            assert(c2.entries[i].0 != c2.entries[0].0);
        }
    }
}

/// Pushing a new key into a full cache evicts exactly the least recently used entry and
/// keeps all others, in order, behind the new one.
pub proof fn lemma_evicts_least_recently_used<K, V>(c: CacheView<K, V>, k: K, e: Entry<V>)
    requires
        c.wf(),
        c.entries.len() == c.capacity,
        key_index(c.entries, k) is None,
    ensures
        c.push_spec(k, e).1 == Some(c.entries.last()),
        c.push_spec(k, e).0.entries == seq![(k, e)] + c.entries.drop_last(),
{
}

/// Pushing a new key into a cache that is not full keeps every entry.
pub proof fn lemma_no_eviction_below_capacity<K, V>(c: CacheView<K, V>, k: K, e: Entry<V>)
    requires
        c.wf(),
        c.entries.len() < c.capacity,
        key_index(c.entries, k) is None,
    ensures
        c.push_spec(k, e).1 is None,
        c.push_spec(k, e).0.entries == seq![(k, e)] + c.entries,
{
}

/// A successful read makes the entry the most recently used one.
pub proof fn lemma_read_promotes<K, V>(c: CacheView<K, V>, k: K, keep_expired: bool, now: Instant)
    requires
        c.wf(),
        c.get_spec(k, keep_expired, now).1 is Some,
    ensures
        c.get_spec(k, keep_expired, now).0.entries[0].0 == k,
        c.get_spec(k, keep_expired, now).0.entries.len() == c.entries.len(),
{
}

/// Reading a key that is not cached changes nothing and gives nothing.
pub proof fn lemma_read_missing<K, V>(c: CacheView<K, V>, k: K, keep_expired: bool, now: Instant)
    requires
        key_index(c.entries, k) is None,
    ensures
        c.get_spec(k, keep_expired, now) == (c, Option::<(V, bool)>::None),
{
}

/// The text before the first `[` (all of it where there is none): a time zone name in
/// brackets after a timestamp is dropped.
pub open spec fn before_bracket(s: Seq<char>) -> Seq<char> {
    if exists|i: int| 0 <= i < s.len() && s[i] == '[' {
        s.take(choose|i: int| 0 <= i < s.len() && s[i] == '[' && forall|j: int| 0 <= j < i ==> s[j] != '[')
    } else {
        s
    }
}

/// Drops a bracketed time zone name (and all after it) from a stored timestamp.
pub fn strip_zone_suffix(s: &str) -> (r: String)
    ensures
        r@ == before_bracket(s@),
{
    let v = crate::text::chars_of(s);
    let mut i: usize = 0;
    while i < v.len() && v[i] != '['
        invariant
            i <= v@.len(),
            forall|j: int| 0 <= j < i ==> v@[j] != '[',
        decreases v@.len() - i,
    {
        i = i + 1;
    }
    proof {
        if i < v@.len() {
            let c = choose|c: int| 0 <= c < v@.len() && v@[c] == '[' && forall|j: int| 0 <= j < c ==> v@[j] != '[';
            assert(v@[i as int] == '[');
            if c < i {
                assert(v@[c] != '[');
            }
            if c > i {
                assert(v@[i as int] != '[');
            }
        }
    }
    let head = v.as_slice().split_at(i).0;
    assert(head@ =~= v@.take(i as int));
    crate::text::string_from_chars(head)
}

/// Format of the timestamps of stored cache entries.
pub const STORED_TIMESTAMP_FORMAT: &'static str = "%Y-%m-%dT%H:%M:%S%.f%z";

/// The local date and time of a stored timestamp, with any bracketed zone name dropped.
pub fn stored_timestamp(s: &str) -> (r: Option<(crate::calendar::Date, crate::calendar::Time)>)
    ensures
        r == (match crate::calendar::chrono_parse_date_time(before_bracket(s@), STORED_TIMESTAMP_FORMAT@) {
            Some((y, m, d, secs, nano)) => Some((crate::calendar::Date { year: y, month: m, day: d }, crate::calendar::Time { secs, nano })),
            None => None,
        }),
{
    let stripped = strip_zone_suffix(s);
    crate::calendar::parse_date_time(stripped.as_str(), STORED_TIMESTAMP_FORMAT)
}

impl<V> Entry<V> {
    /// An entry read back from storage; a missing creation or access time counts as `now`.
    pub fn from_stored(value: V, created_at: Option<Instant>, accessed_at: Option<Instant>, hits: u32, now: Instant) -> (r: Entry<V>)
        ensures
            r.value == value,
            r.created_at == (match created_at { Some(t) => t, None => now }),
            r.accessed_at == (match accessed_at { Some(t) => t, None => now }),
            r.hits == hits,
    {
        let created_at = match created_at { Some(t) => t, None => now };
        let accessed_at = match accessed_at { Some(t) => t, None => now };
        Entry { value, created_at, accessed_at, hits }
    }
}

} // verus!
