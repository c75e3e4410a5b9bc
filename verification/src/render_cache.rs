//! Least-recently-used cache for rendered page bitmaps.
//!
//! Keyed by `(page index, scale in thousandths)`, bounded by a byte budget.
//! Quantising the scale to integer thousandths prevents float-keyed cache
//! misses and stops near-identical zoom levels from piling up distinct
//! entries.

use vstd::prelude::*;

verus! {

/// A rendered page: `width` by `height` pixels, four bytes each, in `data`.
#[derive(Debug, Clone, PartialEq, Eq)]
pub struct Bitmap {
    pub width: u32,
    pub height: u32,
    pub data: Vec<u8>,
}

/// Where a cached bitmap is filed: the page and the scale it was rendered at.
#[derive(Debug, Clone, Copy, PartialEq, Eq, Structural)]
struct CacheKey {
    page: usize,
    scale_milli: u32,
}

/// One cached bitmap and the tick at which it was last asked for.
#[derive(Debug)]
struct Entry {
    key: CacheKey,
    bitmap: Bitmap,
    last_used: u64,
}

/// Byte-bounded LRU cache of rendered pages.
#[derive(Debug)]
pub struct RenderCache {
    entries: Vec<Entry>,
    budget_bytes: usize,
    used_bytes: usize,
    tick: u64,
}

/// The number of bytes the bitmaps of `s` hold together.
spec fn total_bytes(s: Seq<Entry>) -> nat
    decreases s.len(),
{
    if s.len() == 0 {
        0
    } else {
        total_bytes(s.drop_last()) + s.last().bitmap.data@.len()
    }
}

/// The key of an entry, as a pair.
spec fn key_pair(e: Entry) -> (usize, u32) {
    (e.key.page, e.key.scale_milli)
}

/// Whether some bitmap cached in `before` is gone in `after`.
pub open spec fn evicted_one(
    before: Map<(usize, u32), Bitmap>,
    after: Map<(usize, u32), Bitmap>,
) -> bool {
    exists|q: (usize, u32)| #[trigger] before.contains_key(q) && !after.contains_key(q)
}

/// The most recently used bitmap that went from `before` to `after` was
/// needed: with it back beside `used` bytes, the cache would be over
/// `budget`. So eviction stops as soon as what stays fits.
pub open spec fn last_eviction_needed(
    before: Map<(usize, u32), Bitmap>,
    stamps: Map<(usize, u32), u64>,
    after: Map<(usize, u32), Bitmap>,
    used: int,
    budget: nat,
) -> bool {
    exists|q: (usize, u32)|
        #![trigger before.contains_key(q)]
        before.contains_key(q) && !after.contains_key(q) && used + before[q].data@.len() > budget
            && forall|q2: (usize, u32)|
            #[trigger] before.contains_key(q2) && !after.contains_key(q2) ==> stamps[q2]
                <= stamps[q]
}

/// Removing the entry at `i` takes its bytes out of the total.
proof fn lemma_total_remove(s: Seq<Entry>, i: int)
    requires
        0 <= i < s.len(),
    ensures
        total_bytes(s.remove(i)) + s[i].bitmap.data@.len() == total_bytes(s),
    decreases s.len(),
{
    if i < s.len() - 1 {
        lemma_total_remove(s.drop_last(), i);
        assert(s.remove(i).drop_last() =~= s.drop_last().remove(i));
        assert(s.remove(i).last() == s.last());
    } else {
        assert(s.remove(i) =~= s.drop_last());
    }
}

/// Two tables whose entries hold bitmaps of the same sizes, position by
/// position, hold the same number of bytes.
proof fn lemma_total_same_sizes(s: Seq<Entry>, t: Seq<Entry>)
    requires
        s.len() == t.len(),
        forall|a: int| 0 <= a < s.len() ==> (#[trigger] s[a]).bitmap == t[a].bitmap,
    ensures
        total_bytes(s) == total_bytes(t),
    decreases s.len(),
{
    if s.len() > 0 {
        lemma_total_same_sizes(s.drop_last(), t.drop_last());
        assert(s.last().bitmap == t.last().bitmap);
    }
}

/// No two entries of `s` share a key.
spec fn distinct_keys(s: Seq<Entry>) -> bool {
    forall|i: int, j: int|
        0 <= i < s.len() && 0 <= j < s.len() && i != j ==> key_pair(#[trigger] s[i]) != key_pair(
            #[trigger] s[j],
        )
}

/// Whether some entry of `s` is filed under `k`.
spec fn has_key(s: Seq<Entry>, k: (usize, u32)) -> bool {
    exists|i: int| 0 <= i < s.len() && key_pair(#[trigger] s[i]) == k
}

/// The position of the entry of `s` filed under `k`.
spec fn index_of(s: Seq<Entry>, k: (usize, u32)) -> int {
    choose|i: int| 0 <= i < s.len() && key_pair(#[trigger] s[i]) == k
}

/// The bitmaps of `s` by key.
spec fn cached_of(s: Seq<Entry>) -> Map<(usize, u32), Bitmap> {
    Map::new(|k: (usize, u32)| has_key(s, k), |k: (usize, u32)| s[index_of(s, k)].bitmap)
}

/// The last-use ticks of `s` by key.
spec fn stamps_of(s: Seq<Entry>) -> Map<(usize, u32), u64> {
    Map::new(|k: (usize, u32)| has_key(s, k), |k: (usize, u32)| s[index_of(s, k)].last_used)
}

/// In a table without repeated keys, the entry filed under a key is the one
/// at the position found for it.
proof fn lemma_index_of(s: Seq<Entry>, i: int)
    requires
        distinct_keys(s),
        0 <= i < s.len(),
    ensures
        has_key(s, key_pair(s[i])),
        index_of(s, key_pair(s[i])) == i,
        cached_of(s).contains_key(key_pair(s[i])),
        cached_of(s)[key_pair(s[i])] == s[i].bitmap,
        stamps_of(s)[key_pair(s[i])] == s[i].last_used,
{
    let k = key_pair(s[i]);
    assert(has_key(s, k));
    let j = index_of(s, k);
    if j != i {
        assert(key_pair(s[j]) != key_pair(s[i]));
    }
}

/// Removing the entry at `i` forgets exactly its key.
proof fn lemma_remove_entry(s: Seq<Entry>, i: int)
    requires
        distinct_keys(s),
        0 <= i < s.len(),
    ensures
        distinct_keys(s.remove(i)),
        cached_of(s.remove(i)) == cached_of(s).remove(key_pair(s[i])),
        stamps_of(s.remove(i)) == stamps_of(s).remove(key_pair(s[i])),
{
    let t = s.remove(i);
    let k = key_pair(s[i]);
    assert forall|a: int, b: int|
        0 <= a < t.len() && 0 <= b < t.len() && a != b implies key_pair(#[trigger] t[a])
        != key_pair(#[trigger] t[b]) by {
        let a2 = if a < i {
            a
        } else {
            a + 1
        };
        let b2 = if b < i {
            b
        } else {
            b + 1
        };
        assert(t[a] == s[a2] && t[b] == s[b2]);
    }
    assert forall|q: (usize, u32)| #[trigger] has_key(t, q) <==> has_key(s, q) && q != k by {
        if has_key(t, q) {
            let a = choose|a: int| 0 <= a < t.len() && key_pair(#[trigger] t[a]) == q;
            let a2 = if a < i {
                a
            } else {
                a + 1
            };
            assert(t[a] == s[a2]);
            assert(key_pair(s[a2]) == q);
            assert(a2 != i);
        }
        if has_key(s, q) && q != k {
            let a = choose|a: int| 0 <= a < s.len() && key_pair(#[trigger] s[a]) == q;
            assert(a != i);
            let a2 = if a < i {
                a
            } else {
                a - 1
            };
            assert(t[a2] == s[a]);
            assert(key_pair(t[a2]) == q);
        }
    }
    assert forall|q: (usize, u32)| has_key(t, q) implies t[index_of(t, q)] == s[index_of(s, q)] by {
        let a = index_of(t, q);
        let a2 = if a < i {
            a
        } else {
            a + 1
        };
        assert(t[a] == s[a2]);
        lemma_index_of(s, a2);
    }
    assert(cached_of(t) =~= cached_of(s).remove(k));
    assert(stamps_of(t) =~= stamps_of(s).remove(k));
}

/// Appending an entry under a new key files it and leaves the rest alone.
proof fn lemma_push_entry(s: Seq<Entry>, e: Entry)
    requires
        distinct_keys(s),
        !has_key(s, key_pair(e)),
    ensures
        distinct_keys(s.push(e)),
        cached_of(s.push(e)) == cached_of(s).insert(key_pair(e), e.bitmap),
        stamps_of(s.push(e)) == stamps_of(s).insert(key_pair(e), e.last_used),
{
    let t = s.push(e);
    let k = key_pair(e);
    assert forall|a: int, b: int|
        0 <= a < t.len() && 0 <= b < t.len() && a != b implies key_pair(#[trigger] t[a])
        != key_pair(#[trigger] t[b]) by {
        if a == s.len() {
            assert(key_pair(s[b]) != k);
        } else if b == s.len() {
            assert(key_pair(s[a]) != k);
        }
    }
    assert forall|q: (usize, u32)| #[trigger] has_key(t, q) <==> has_key(s, q) || q == k by {
        if has_key(t, q) {
            let a = choose|a: int| 0 <= a < t.len() && key_pair(#[trigger] t[a]) == q;
            if a < s.len() {
                assert(t[a] == s[a]);
            }
        }
        if has_key(s, q) {
            let a = choose|a: int| 0 <= a < s.len() && key_pair(#[trigger] s[a]) == q;
            assert(t[a] == s[a]);
        }
        if q == k {
            assert(key_pair(t[s.len() as int]) == k);
        }
    }
    assert forall|q: (usize, u32)| has_key(t, q) implies t[index_of(t, q)] == (if q == k {
        e
    } else {
        s[index_of(s, q)]
    }) by {
        let a = index_of(t, q);
        lemma_index_of(t, a);
        if q != k {
            let b = index_of(s, q);
            lemma_index_of(s, b);
            assert(t[b] == s[b]);
            lemma_index_of(t, b);
        } else {
            lemma_index_of(t, s.len() as int);
        }
    }
    assert(cached_of(t) =~= cached_of(s).insert(k, e.bitmap));
    assert(stamps_of(t) =~= stamps_of(s).insert(k, e.last_used));
}

impl RenderCache {
    /// The cache is consistent: no key is filed twice, and `used_bytes` is
    /// what the cached bitmaps hold together.
    pub closed spec fn wf(&self) -> bool {
        &&& distinct_keys(self.entries@)
        &&& self.used_bytes == total_bytes(self.entries@)
        &&& forall|i: int| 0 <= i < self.entries@.len() ==> #[trigger] self.entries@[i].last_used <= self.tick
        &&& self.used_bytes <= self.budget_bytes || self.entries@.len() <= 1
    }

    /// The cache keeps to its budget, with one exception: a single bitmap
    /// larger than the whole budget is still kept, alone.
    pub proof fn lemma_within_budget(&self)
        requires
            self.wf(),
        ensures
            self.used() <= self.budget() || self.cached().len() <= 1,
    {
        self.lemma_cached_len();
    }

    /// The cached bitmaps by key.
    pub closed spec fn cached(&self) -> Map<(usize, u32), Bitmap> {
        cached_of(self.entries@)
    }

    /// When each cached bitmap was last asked for, in ticks of the cache's
    /// own clock, which advances once per request.
    pub closed spec fn last_used(&self) -> Map<(usize, u32), u64> {
        stamps_of(self.entries@)
    }

    /// The byte budget the cache keeps to, one oversized bitmap excepted.
    pub closed spec fn budget(&self) -> nat {
        self.budget_bytes as nat
    }

    /// The bytes the cached bitmaps hold together.
    pub closed spec fn used(&self) -> nat {
        self.used_bytes as nat
    }

    /// The default byte budget: 256 MiB.
    pub const DEFAULT_BUDGET_BYTES: usize = 268435456;

    /// An empty cache keeping to `budget_bytes`.
    pub fn new(budget_bytes: usize) -> (c: Self)
        ensures
            c.wf(),
            c.cached() == Map::<(usize, u32), Bitmap>::empty(),
            c.budget() == budget_bytes,
            c.used() == 0,
    {
        let c = RenderCache { entries: Vec::new(), budget_bytes, used_bytes: 0, tick: 0 };
        assert(c.cached() =~= Map::<(usize, u32), Bitmap>::empty());
        c
    }

    /// The number of cached bitmaps.
    pub fn len(&self) -> (n: usize)
        requires
            self.wf(),
        ensures
            n == self.cached().len(),
    {
        proof {
            self.lemma_cached_len();
        }
        self.entries.len()
    }

    /// Whether nothing is cached.
    pub fn is_empty(&self) -> (b: bool)
        requires
            self.wf(),
        ensures
            b == (self.cached().len() == 0),
    {
        proof {
            self.lemma_cached_len();
        }
        self.entries.len() == 0
    }

    /// The bytes the cached bitmaps hold together.
    pub fn used_bytes(&self) -> (n: usize)
        ensures
            n == self.used(),
    {
        self.used_bytes
    }

    /// Drop everything (e.g. when a new document is opened).
    pub fn clear(&mut self)
        ensures
            final(self).wf(),
            final(self).cached() == Map::<(usize, u32), Bitmap>::empty(),
            final(self).used() == 0,
            final(self).budget() == old(self).budget(),
    {
        self.entries = Vec::new();
        self.used_bytes = 0;
        assert(self.cached() =~= Map::<(usize, u32), Bitmap>::empty());
    }

    /// The position of a least recently used entry.
    fn least_recent(&self) -> (i: usize)
        requires
            self.entries@.len() > 0,
        ensures
            i < self.entries@.len(),
            forall|j: int|
                0 <= j < self.entries@.len() ==> self.entries@[i as int].last_used
                    <= #[trigger] self.entries@[j].last_used,
    {
        let mut best: usize = 0;
        let mut j: usize = 1;
        while j < self.entries.len()
            invariant
                1 <= j <= self.entries@.len(),
                best < j,
                forall|k: int|
                    0 <= k < j ==> self.entries@[best as int].last_used
                        <= #[trigger] self.entries@[k].last_used,
            decreases self.entries@.len() - j,
        {
            if self.entries[j].last_used < self.entries[best].last_used {
                best = j;
            }
            j = j + 1;
        }
        best
    }

    /// Evict least-recently-used entries until a bitmap of `incoming` bytes
    /// fits the budget beside what stays, or nothing is left to evict: a
    /// bitmap that alone exceeds the budget is still kept.
    fn evict_over_budget(&mut self, incoming: usize)
        requires
            old(self).wf(),
        ensures
            final(self).wf(),
            final(self).tick == old(self).tick,
            final(self).budget_bytes == old(self).budget_bytes,
            final(self).cached().submap_of(old(self).cached()),
            final(self).last_used().submap_of(old(self).last_used()),
            final(self).entries@.len() == 0 || final(self).used() + incoming <= final(self).budget(),
            forall|q: (usize, u32), p: (usize, u32)|
                #[trigger] old(self).cached().contains_key(q) && !final(self).cached().contains_key(q)
                    && #[trigger] final(self).cached().contains_key(p) ==> old(self).last_used()[q]
                    <= old(self).last_used()[p],
            evicted_one(old(self).cached(), final(self).cached()) ==> last_eviction_needed(
                old(self).cached(),
                old(self).last_used(),
                final(self).cached(),
                final(self).used() + incoming,
                final(self).budget(),
            ),
    {
        let ghost start_cached = self.cached();
        let ghost start_stamps = self.last_used();
        let ghost mut floor: int = -1;
        let ghost mut any: bool = false;
        let ghost mut last: (usize, u32) = (0, 0);
        while self.entries.len() > 0 && (incoming > self.budget_bytes || self.used_bytes
            > self.budget_bytes - incoming)
            invariant
                self.wf(),
                self.tick == old(self).tick,
                self.budget_bytes == old(self).budget_bytes,
                start_cached == old(self).cached(),
                start_stamps == old(self).last_used(),
                self.cached().submap_of(start_cached),
                self.last_used().submap_of(start_stamps),
                forall|p: (usize, u32)|
                    #[trigger] self.last_used().contains_key(p) ==> floor <= self.last_used()[p],
                forall|q: (usize, u32)|
                    #[trigger] start_cached.contains_key(q) && !self.cached().contains_key(q)
                        ==> start_stamps[q] <= floor,
                !any ==> self.cached() == start_cached,
                any ==> start_cached.contains_key(last) && !self.cached().contains_key(last)
                    && start_stamps[last] == floor && self.used() + start_cached[last].data@.len()
                    + incoming > self.budget(),
            decreases self.entries@.len(),
        {
            let i = self.least_recent();
            let ghost s = self.entries@;
            let ghost gone = key_pair(s[i as int]);
            let ghost old_floor = floor;
            proof {
                lemma_index_of(s, i as int);
                lemma_remove_entry(s, i as int);
                lemma_total_remove(s, i as int);
                assert forall|p: (usize, u32)| #[trigger]
                    self.last_used().contains_key(p) implies s[i as int].last_used
                    <= self.last_used()[p] by {
                    let j = index_of(s, p);
                    lemma_index_of(s, j);
                }
                assert(self.last_used().contains_key(gone));
                assert(old_floor <= s[i as int].last_used);
                assert(start_stamps.dom().contains(gone));
                assert(start_stamps[gone] == s[i as int].last_used);
                floor = s[i as int].last_used as int;
                assert(start_cached.dom().contains(gone));
                assert(start_cached[gone] == s[i as int].bitmap);
                any = true;
                last = gone;
            }
            let removed = self.entries.remove(i);
            self.used_bytes = self.used_bytes - removed.bitmap.data.len();
            proof {
                assert(self.cached() == cached_of(s).remove(gone));
                assert forall|q: (usize, u32)|
                    #[trigger] start_cached.contains_key(q) && !self.cached().contains_key(
                        q,
                    ) implies start_stamps[q] <= floor by {
                    if q != gone {
                        assert(!cached_of(s).contains_key(q));
                    }
                }
                assert forall|p: (usize, u32)| #[trigger]
                    self.last_used().contains_key(p) implies floor <= self.last_used()[p] by {
                    assert(stamps_of(s).contains_key(p));
                }
            }
        }
        proof {
            assert forall|q: (usize, u32), p: (usize, u32)|
                #[trigger] start_cached.contains_key(q) && !self.cached().contains_key(q)
                    && #[trigger] self.cached().contains_key(p) implies start_stamps[q]
                <= start_stamps[p] by {
                assert(self.last_used().contains_key(p));
                assert(floor <= self.last_used()[p]);
                assert(start_stamps.dom().contains(p));
                assert(self.last_used()[p] == start_stamps[p]);
            }
            if evicted_one(start_cached, self.cached()) {
                assert(any);
                assert(start_cached.contains_key(last) && !self.cached().contains_key(last));
            }
        }
    }

    /// The position of the entry filed under `key`, if any.
    fn find(&self, key: CacheKey) -> (r: Option<usize>)
        requires
            self.wf(),
        ensures
            match r {
                Some(i) => i < self.entries@.len() && key_pair(self.entries@[i as int]) == (
                    key.page,
                    key.scale_milli,
                ),
                None => !self.cached().contains_key((key.page, key.scale_milli)),
            },
    {
        let mut i: usize = 0;
        while i < self.entries.len()
            invariant
                i <= self.entries@.len(),
                forall|j: int|
                    0 <= j < i ==> key_pair(#[trigger] self.entries@[j]) != (
                        key.page,
                        key.scale_milli,
                    ),
            decreases self.entries@.len() - i,
        {
            if self.entries[i].key == key {
                return Some(i);
            }
            i = i + 1;
        }
        None
    }

    /// Fetch the bitmap of `page` at `scale_milli` thousandths, rendering it
    /// with `render` on a miss.
    ///
    /// A hit returns the cached bitmap and leaves the cache's contents alone.
    /// A miss calls `render` once: an error is handed back and nothing is
    /// cached; a bitmap is cached, after evicting the least recently used
    /// entries until it fits the budget beside what stays (a bitmap that
    /// alone exceeds the budget is still kept). Either way, the bitmap asked
    /// for becomes the most recently used.
    pub fn get_or_render<E, F: FnOnce() -> Result<Bitmap, E>>(
        &mut self,
        page: usize,
        scale_milli: u32,
        render: F,
    ) -> (r: Result<&Bitmap, E>)
        requires
            old(self).wf(),
            call_requires(render, ()),
        ensures
            final(self).wf(),
            final(self).budget() == old(self).budget(),
            old(self).cached().contains_key((page, scale_milli)) ==> final(self).cached() == old(self).cached() && match r {
                Ok(b) => *b == old(self).cached()[(page, scale_milli)],
                Err(_) => false,
            },
            !old(self).cached().contains_key((page, scale_milli)) ==> exists|out: Result<
                Bitmap,
                E,
            >|
                #![trigger call_ensures(render, (), out)]
                call_ensures(render, (), out) && match out {
                    Err(e) => r == Err::<&Bitmap, E>(e) && final(self).cached() == old(self).cached(),
                    Ok(bitmap) => (match r {
                        Ok(b) => *b == bitmap,
                        Err(_) => false,
                    }) && final(self).cached().contains_key((page, scale_milli)) && final(self).cached()[(page, scale_milli)] == bitmap && (final(self).used() <= final(self).budget() || final(self).cached().len() == 1),
                },
            forall|q: (usize, u32)|
                #[trigger] final(self).cached().contains_key(q) && q != (page, scale_milli)
                    ==> old(self).cached().contains_key(q) && final(self).cached()[q] == old(self).cached()[q] && final(self).last_used()[q] == old(self).last_used()[q],
            forall|q: (usize, u32), p: (usize, u32)|
                #[trigger] old(self).cached().contains_key(q) && !final(self).cached().contains_key(q)
                    && #[trigger] final(self).cached().contains_key(p) && p != (page, scale_milli)
                    ==> old(self).last_used()[q] <= old(self).last_used()[p],
            final(self).cached().contains_key((page, scale_milli)) ==> forall|q: (usize, u32)|
                #[trigger] final(self).cached().contains_key(q) ==> final(self).last_used()[q]
                    <= final(self).last_used()[(page, scale_milli)],
            evicted_one(old(self).cached(), final(self).cached()) ==> last_eviction_needed(
                old(self).cached(),
                old(self).last_used(),
                final(self).cached(),
                final(self).used() as int,
                final(self).budget(),
            ),
    {
        let key = CacheKey { page, scale_milli };
        let ghost k = (page, scale_milli);
        if self.tick < u64::MAX {
            self.tick = self.tick + 1;
        }
        let tick = self.tick;
        match self.find(key) {
            Some(i) => {
                let ghost s = self.entries@;
                proof {
                    lemma_index_of(s, i as int);
                }
                self.entries[i].last_used = tick;
                proof {
                    let t = self.entries@;
                    assert forall|a: int| 0 <= a < t.len() implies key_pair(#[trigger] t[a])
                        == key_pair(s[a]) && t[a].bitmap == s[a].bitmap && (a != i ==> t[a]
                        == s[a]) by {}
                    assert(distinct_keys(t));
                    assert(total_bytes(t) == total_bytes(s)) by {
                        lemma_total_same_sizes(s, t);
                    }
                    assert forall|q: (usize, u32)| #[trigger] has_key(t, q) <==> has_key(s, q) by {
                        if has_key(t, q) {
                            let a = choose|a: int| 0 <= a < t.len() && key_pair(#[trigger] t[a]) == q;
                            assert(key_pair(s[a]) == q);
                        }
                        if has_key(s, q) {
                            let a = choose|a: int| 0 <= a < s.len() && key_pair(#[trigger] s[a]) == q;
                            assert(key_pair(t[a]) == q);
                        }
                    }
                    assert forall|q: (usize, u32)| has_key(t, q) implies index_of(t, q) == index_of(s, q) by {
                        let a = index_of(s, q);
                        lemma_index_of(s, a);
                        lemma_index_of(t, a);
                    }
                    assert(self.cached() =~= cached_of(s));
                    lemma_index_of(t, i as int);
                    assert forall|q: (usize, u32)| #[trigger] self.cached().contains_key(q) && q != k implies self.last_used()[q] == stamps_of(s)[q] by {
                        let a = index_of(t, q);
                        lemma_index_of(t, a);
                        lemma_index_of(s, a);
                    }
                    assert forall|q: (usize, u32)| #[trigger] self.cached().contains_key(q) implies self.last_used()[q] <= self.last_used()[k] by {
                        let a = index_of(t, q);
                        lemma_index_of(t, a);
                    }
                }
                Ok(&self.entries[i].bitmap)
            },
            None => {
                let out = render();
                let ghost g = out;
                match out {
                    Err(e) => {
                        assert(call_ensures(render, (), g));
                        Err(e)
                    },
                    Ok(bitmap) => {
                        let incoming = bitmap.data.len();
                        let ghost before_cached = self.cached();
                        self.evict_over_budget(incoming);
                        let ghost after_evict = self.cached();
                        let ghost used_after_evict = self.used();
                        let ghost s = self.entries@;
                        proof {
                            assert(!cached_of(s).contains_key(k));
                        }
                        self.used_bytes = self.used_bytes + incoming;
                        let entry = Entry { key, bitmap, last_used: tick };
                        proof {
                            lemma_push_entry(s, entry);
                        }
                        self.entries.push(entry);
                        let n = self.entries.len() - 1;
                        proof {
                            let t = self.entries@;
                            assert(t =~= s.push(entry));
                            assert(t.drop_last() =~= s);
                            lemma_index_of(t, n as int);
                            assert forall|q: (usize, u32)| #[trigger] self.cached().contains_key(q) && q != k implies old(self).cached().contains_key(q) && self.cached()[q] == old(self).cached()[q] && self.last_used()[q] == old(self).last_used()[q] by {
                                assert(cached_of(s).contains_key(q));
                                assert(old(self).cached().dom().contains(q));
                                assert(stamps_of(s).contains_key(q));
                                assert(old(self).last_used().dom().contains(q));
                            }
                            assert forall|q: (usize, u32)| #[trigger] self.cached().contains_key(q) implies self.last_used()[q] <= self.last_used()[k] by {
                                let a = index_of(t, q);
                                lemma_index_of(t, a);
                            }
                            if self.used() > self.budget() {
                                assert(s.len() == 0);
                                assert(self.cached().dom() =~= set![k]);
                            }
                            assert(call_ensures(render, (), g));
                            assert(self.cached() == after_evict.insert(k, bitmap));
                            if evicted_one(old(self).cached(), self.cached()) {
                                let q0 = choose|q: (usize, u32)| #[trigger] old(self).cached().contains_key(q) && !self.cached().contains_key(q);
                                assert(before_cached.contains_key(q0) && !after_evict.contains_key(q0));
                                assert(evicted_one(before_cached, after_evict));
                                let q = choose|q: (usize, u32)|
                                    #![trigger before_cached.contains_key(q)]
                                    before_cached.contains_key(q) && !after_evict.contains_key(q) && used_after_evict + incoming + before_cached[q].data@.len() > self.budget()
                                        && forall|q2: (usize, u32)|
                                        #[trigger] before_cached.contains_key(q2) && !after_evict.contains_key(q2) ==> old(self).last_used()[q2]
                                            <= old(self).last_used()[q];
                                assert(q != k);
                                assert forall|q2: (usize, u32)|
                                    #[trigger] old(self).cached().contains_key(q2) && !self.cached().contains_key(q2) implies old(self).last_used()[q2]
                                        <= old(self).last_used()[q] by {
                                    assert(before_cached.contains_key(q2) && !after_evict.contains_key(q2));
                                }
                                assert(old(self).cached().contains_key(q) && !self.cached().contains_key(q));
                            }
                        }
                        Ok(&self.entries[n].bitmap)
                    },
                }
            },
        }
    }

    /// The cached bitmaps are exactly the distinct keys of the entries, so
    /// there are as many as there are entries.
    proof fn lemma_cached_len(&self)
        requires
            self.wf(),
        ensures
            self.cached().len() == self.entries@.len(),
            self.cached().dom().finite(),
    {
        let keys = self.entries@.map_values(|e: Entry| key_pair(e));
        assert(keys.no_duplicates()) by {
            assert forall|i: int, j: int|
                0 <= i < keys.len() && 0 <= j < keys.len() && i != j implies keys[i] != keys[j] by {
                assert(key_pair(self.entries@[i]) != key_pair(self.entries@[j]));
            }
        }
        assert(self.cached().dom() =~= keys.to_set()) by {
            assert forall|k: (usize, u32)| self.cached().dom().contains(k) <==> keys.to_set().contains(
                k,
            ) by {
                if self.cached().dom().contains(k) {
                    let i = choose|i: int|
                        0 <= i < self.entries@.len() && key_pair(#[trigger] self.entries@[i]) == k;
                    assert(keys[i] == k);
                }
                if keys.to_set().contains(k) {
                    let i = choose|i: int| 0 <= i < keys.len() && keys[i] == k;
                    assert(key_pair(self.entries@[i]) == k);
                }
            }
        }
        keys.unique_seq_to_set();
    }
}

impl Default for RenderCache {
    fn default() -> (c: Self)
        ensures
            c.wf(),
            c.cached() == Map::<(usize, u32), Bitmap>::empty(),
            c.budget() == RenderCache::DEFAULT_BUDGET_BYTES,
    {
        RenderCache::new(RenderCache::DEFAULT_BUDGET_BYTES)
    }
}

} // verus!
