use vstd::prelude::*;

verus! {

/// A key that can be compared by its view.
pub trait CacheKey: View + Sized {
    fn same_key(&self, other: &Self) -> (b: bool)
        ensures
            b == (self@ == other@),
    ;
}

/// Key of a cached hand-drawn outline: shape id, seed, stroke index,
/// roughness bits, zoom bucket and path hash.
pub type ShapeCacheKey = (String, u32, u32, u64, i32, u64);

/// Key of a cached text layout: shape id and a hash of what the layout
/// depends on.
pub type TextCacheKey = (String, u64);

/// Key of a cached formula: hash of the source, packed colour and font size
/// bits.
pub type MathCacheKey = (u64, u64, u32);

impl CacheKey for (String, u32, u32, u64, i32, u64) {
    fn same_key(&self, other: &Self) -> (b: bool) {
        self.0 == other.0 && self.1 == other.1 && self.2 == other.2 && self.3 == other.3 && self.4
            == other.4 && self.5 == other.5
    }
}

impl CacheKey for (String, u64) {
    fn same_key(&self, other: &Self) -> (b: bool) {
        self.0 == other.0 && self.1 == other.1
    }
}

impl CacheKey for (u64, u64, u32) {
    fn same_key(&self, other: &Self) -> (b: bool) {
        self.0 == other.0 && self.1 == other.1 && self.2 == other.2
    }
}

/// A cache whose entries carry the stamp of their last use, so that the
/// least recently used ones can be dropped when it grows too large.
pub struct TouchCache<K: View, V> {
    entries: Vec<(K, V, u64)>,
    model: Ghost<Map<K::V, (V, u64)>>,
}

impl<K: View, V> View for TouchCache<K, V> {
    /// Each key's value and the stamp of its last use.
    type V = Map<K::V, (V, u64)>;

    closed spec fn view(&self) -> Map<K::V, (V, u64)> {
        self.model@
    }
}

/// Whether, of `old`'s entries, `new` keeps unchanged those it has, and
/// every entry it dropped was used no later than every entry it kept.
pub open spec fn keeps_most_recent<KV, V>(old: Map<KV, (V, u64)>, new: Map<KV, (V, u64)>) -> bool {
    &&& forall|k: KV| #[trigger] new.contains_key(k) ==> old.contains_key(k) && new[k] == old[k]
    &&& forall|kept: KV, dropped: KV|
        #![trigger new.contains_key(kept), old.contains_key(dropped)]
        new.contains_key(kept) && old.contains_key(dropped) && !new.contains_key(dropped)
            ==> old[dropped].1 <= new[kept].1
}

impl<K: View, V> TouchCache<K, V> {
    /// The entries are those of the model, each key once.
    pub closed spec fn wf(&self) -> bool {
        let e = self.entries@;
        let m = self.model@;
        &&& m.dom().finite()
        &&& m.dom().len() == e.len()
        &&& forall|i: int|
            0 <= i < e.len() ==> m.contains_key((#[trigger] e[i]).0@) && m[e[i].0@] == (
                e[i].1,
                e[i].2,
            )
        &&& forall|i: int, j: int| 0 <= i < j < e.len() ==> (#[trigger] e[i]).0@ != (#[trigger] e[j]).0@
        &&& forall|k: K::V| #[trigger] m.contains_key(k) ==> exists|i: int| 0 <= i < e.len() && (#[trigger] e[i]).0@ == k
    }

    /// The keys of a well-formed cache are finitely many.
    pub proof fn lemma_view_finite(&self)
        requires
            self.wf(),
        ensures
            self@.dom().finite(),
    {
    }

    /// An empty cache.
    pub fn new() -> (c: Self)
        ensures
            c.wf(),
            c@ == Map::<K::V, (V, u64)>::empty(),
    {
        TouchCache { entries: Vec::new(), model: Ghost(Map::empty()) }
    }

    /// The number of entries.
    pub fn len(&self) -> (n: usize)
        requires
            self.wf(),
        ensures
            n == self@.len(),
    {
        self.entries.len()
    }

    /// Removes the entry at position `i`.
    fn remove_at(&mut self, i: usize) -> (e: (K, V, u64))
        requires
            old(self).wf(),
            i < old(self).entries@.len(),
        ensures
            final(self).wf(),
            e == old(self).entries@[i as int],
            old(self)@.contains_key(e.0@),
            old(self)@[e.0@] == (e.1, e.2),
            final(self)@ == old(self)@.remove(e.0@),
            final(self).entries@.len() == old(self).entries@.len() - 1,
            final(self).entries@.len() < usize::MAX,
    {
        let len_before: usize = self.entries.len();
        let ghost old_e = self.entries@;
        assert(len_before == old_e.len());
        let ghost m = self.model@;
        let e = self.entries.remove(i);
        let ghost k = e.0@;
        self.model = Ghost(m.remove(k));
        proof {
            let ne = self.entries@;
            assert(old_e[i as int] == e);
            assert forall|j: int| 0 <= j < ne.len() implies #[trigger] ne[j] == (if j < i {
                old_e[j]
            } else {
                old_e[j + 1]
            }) by {}
            assert forall|j: int| 0 <= j < ne.len() implies self.model@.contains_key(
                (#[trigger] ne[j]).0@,
            ) && self.model@[ne[j].0@] == (ne[j].1, ne[j].2) by {
                let oj = if j < i {
                    j
                } else {
                    j + 1
                };
                assert(ne[j] == old_e[oj]);
                assert(old_e[oj].0@ != k) by {
                    if oj < i {
                        assert(old_e[oj].0@ != old_e[i as int].0@);
                    } else {
                        assert(old_e[i as int].0@ != old_e[oj].0@);
                    }
                }
            }
            assert forall|a: int, b: int| 0 <= a < b < ne.len() implies (#[trigger] ne[a]).0@
                != (#[trigger] ne[b]).0@ by {
                let oa = if a < i {
                    a
                } else {
                    a + 1
                };
                let ob = if b < i {
                    b
                } else {
                    b + 1
                };
                assert(ne[a] == old_e[oa]);
                assert(ne[b] == old_e[ob]);
                assert(old_e[oa].0@ != old_e[ob].0@);
            }
            assert forall|kk: K::V| #[trigger] self.model@.contains_key(kk) implies exists|j: int|
                0 <= j < ne.len() && (#[trigger] ne[j]).0@ == kk by {
                assert(m.contains_key(kk));
                let oj = choose|j: int| 0 <= j < old_e.len() && (#[trigger] old_e[j]).0@ == kk;
                assert(oj != i);
                let j = if oj < i {
                    oj
                } else {
                    oj - 1
                };
                assert(ne[j] == old_e[oj]);
            }
            assert(self.model@.dom() =~= m.dom().remove(k));
        }
        e
    }

    /// Adds an entry for a key that has none.
    fn push_new(&mut self, key: K, value: V, stamp: u64)
        requires
            old(self).wf(),
            !old(self)@.contains_key(key@),
            old(self).entries@.len() < usize::MAX,
        ensures
            final(self).wf(),
            final(self)@ == old(self)@.insert(key@, (value, stamp)),
    {
        let ghost old_e = self.entries@;
        let ghost m = self.model@;
        let ghost k = key@;
        self.model = Ghost(m.insert(k, (value, stamp)));
        self.entries.push((key, value, stamp));
        proof {
            let ne = self.entries@;
            let n = old_e.len() as int;
            assert forall|j: int| 0 <= j < ne.len() implies self.model@.contains_key(
                (#[trigger] ne[j]).0@,
            ) && self.model@[ne[j].0@] == (ne[j].1, ne[j].2) by {
                if j < n {
                    assert(ne[j] == old_e[j]);
                    assert(m.contains_key(old_e[j].0@));
                }
            }
            assert forall|a: int, b: int| 0 <= a < b < ne.len() implies (#[trigger] ne[a]).0@
                != (#[trigger] ne[b]).0@ by {
                assert(ne[a] == old_e[a]);
                if b < n {
                    assert(ne[b] == old_e[b]);
                } else {
                    assert(m.contains_key(old_e[a].0@));
                }
            }
            assert forall|kk: K::V| #[trigger] self.model@.contains_key(kk) implies exists|j: int|
                0 <= j < ne.len() && (#[trigger] ne[j]).0@ == kk by {
                if kk == k {
                    assert(ne[n].0@ == kk);
                } else {
                    assert(m.contains_key(kk));
                    let oj = choose|j: int| 0 <= j < old_e.len() && (#[trigger] old_e[j]).0@ == kk;
                    assert(ne[oj] == old_e[oj]);
                }
            }
            assert(self.model@.dom() =~= m.dom().insert(k));
        }
    }

    /// The position of an entry used no later than any other.
    fn least_recent_index(&self) -> (i: usize)
        requires
            self.entries@.len() > 0,
        ensures
            i < self.entries@.len(),
            forall|j: int|
                0 <= j < self.entries@.len() ==> self.entries@[i as int].2 <= (
                #[trigger] self.entries@[j]).2,
    {
        let mut best: usize = 0;
        let mut j: usize = 1;
        while j < self.entries.len()
            invariant
                best < j <= self.entries@.len(),
                forall|t: int| 0 <= t < j ==> self.entries@[best as int].2 <= (
                #[trigger] self.entries@[t]).2,
            decreases self.entries@.len() - j,
        {
            if self.entries[j].2 < self.entries[best].2 {
                best = j;
            }
            j = j + 1;
        }
        best
    }

    /// Removes an entry used no later than any other.
    fn evict_one(&mut self) -> (e: (K, V, u64))
        requires
            old(self).wf(),
            old(self)@.len() > 0,
        ensures
            final(self).wf(),
            old(self)@.contains_key(e.0@),
            final(self)@ == old(self)@.remove(e.0@),
            forall|k: K::V| #[trigger] old(self)@.contains_key(k) ==> old(self)@[e.0@].1 <= old(
                self,
            )@[k].1,
    {
        let ghost before_e = self.entries@;
        let ghost before = self@;
        let i = self.least_recent_index();
        let e = self.remove_at(i);
        proof {
            assert forall|k: K::V| #[trigger] before.contains_key(k) implies before[e.0@].1
                <= before[k].1 by {
                let j = choose|j: int| 0 <= j < before_e.len() && (#[trigger] before_e[j]).0@ == k;
                assert(before[k] == (before_e[j].1, before_e[j].2));
            }
        }
        e
    }

    /// Drops least recently used entries until at most `cap` are left.
    pub fn shrink_to(&mut self, cap: usize)
        requires
            old(self).wf(),
        ensures
            final(self).wf(),
            final(self)@.len() == if old(self)@.len() <= cap {
                old(self)@.len()
            } else {
                cap as nat
            },
            old(self)@.len() <= cap ==> final(self)@ == old(self)@,
            keeps_most_recent(old(self)@, final(self)@),
    {
        let ghost start = self@;
        while self.entries.len() > cap
            invariant
                self.wf(),
                keeps_most_recent(start, self@),
                start.len() <= cap ==> self@ == start,
                self@.len() >= cap || self@.len() == start.len(),
            decreases self.entries@.len(),
        {
            let ghost before = self@;
            let e = self.evict_one();
            proof {
                let gone = e.0@;
                assert forall|kept: K::V, dropped: K::V|
                    #![trigger self@.contains_key(kept), start.contains_key(dropped)]
                    self@.contains_key(kept) && start.contains_key(dropped) && !self@.contains_key(
                        dropped,
                    ) implies start[dropped].1 <= self@[kept].1 by {
                    assert(before.contains_key(kept));
                    if dropped == gone {
                        assert(before.contains_key(gone));
                        assert(start[gone] == before[gone]);
                    } else {
                        assert(!before.contains_key(dropped));
                    }
                }
            }
        }
    }
}

impl<K: CacheKey, V> TouchCache<K, V> {
    /// The position of `key`'s entry, if it has one.
    fn find(&self, key: &K) -> (r: Option<usize>)
        ensures
            r matches Some(i) ==> i < self.entries@.len() && self.entries@[i as int].0@ == key@,
            r is None ==> forall|i: int|
                0 <= i < self.entries@.len() ==> (#[trigger] self.entries@[i]).0@ != key@,
    {
        let mut i: usize = 0;
        while i < self.entries.len()
            invariant
                i <= self.entries@.len(),
                forall|j: int| 0 <= j < i ==> (#[trigger] self.entries@[j]).0@ != key@,
            decreases self.entries@.len() - i,
        {
            if self.entries[i].0.same_key(key) {
                return Some(i);
            }
            i = i + 1;
        }
        None
    }

    /// Whether `key` has an entry.
    pub fn contains(&self, key: &K) -> (b: bool)
        requires
            self.wf(),
        ensures
            b == self@.contains_key(key@),
    {
        self.find(key).is_some()
    }

    /// The value cached under `key`, if any.
    pub fn get(&self, key: &K) -> (r: Option<&V>)
        requires
            self.wf(),
        ensures
            r is Some <==> self@.contains_key(key@),
            r matches Some(v) ==> *v == self@[key@].0,
    {
        match self.find(key) {
            Some(i) => Some(&self.entries[i].1),
            None => None,
        }
    }

    /// Marks `key`'s entry as used at `stamp`; tells whether it had one.
    pub fn touch(&mut self, key: &K, stamp: u64) -> (found: bool)
        requires
            old(self).wf(),
        ensures
            final(self).wf(),
            found == old(self)@.contains_key(key@),
            found ==> final(self)@ == old(self)@.insert(key@, (old(self)@[key@].0, stamp)),
            !found ==> final(self)@ == old(self)@,
    {
        match self.find(key) {
            Some(i) => {
                let (k, v, _) = self.remove_at(i);
                self.push_new(k, v, stamp);
                true
            },
            None => false,
        }
    }

    /// Caches `value` under `key`, used at `stamp`, in place of any value
    /// it had.
    pub fn insert(&mut self, key: K, value: V, stamp: u64)
        requires
            old(self).wf(),
            old(self)@.len() < usize::MAX,
        ensures
            final(self).wf(),
            final(self)@ == old(self)@.insert(key@, (value, stamp)),
    {
        if let Some(i) = self.find(&key) {
            let _ = self.remove_at(i);
        }
        self.push_new(key, value, stamp);
    }

    /// Takes `key`'s entry out of the cache: its value and last-use stamp.
    pub fn remove(&mut self, key: &K) -> (r: Option<(V, u64)>)
        requires
            old(self).wf(),
        ensures
            final(self).wf(),
            final(self)@ == old(self)@.remove(key@),
            r is Some <==> old(self)@.contains_key(key@),
            r matches Some(e) ==> e == old(self)@[key@],
    {
        match self.find(key) {
            Some(i) => {
                let (_, v, s) = self.remove_at(i);
                Some((v, s))
            },
            None => {
                assert(self@.remove(key@) =~= self@);
                None
            },
        }
    }
}

/// A lookup after an insertion gives back the value just inserted, with its
/// stamp, and every other key keeps what it had.
pub proof fn lemma_insert_then_lookup<KV, V>(
    before: Map<KV, (V, u64)>,
    key: KV,
    value: V,
    stamp: u64,
    other: KV,
)
    ensures
        before.insert(key, (value, stamp)).contains_key(key),
        before.insert(key, (value, stamp))[key] == (value, stamp),
        other != key ==> before.insert(key, (value, stamp)).contains_key(other)
            == before.contains_key(other),
        other != key && before.contains_key(other) ==> before.insert(key, (value, stamp))[other]
            == before[other],
{
}

/// An entry stamped later than every other one is never the one a shrink
/// drops, as long as the shrink keeps at least one entry.
pub proof fn lemma_newest_survives<KV, V>(
    before: Map<KV, (V, u64)>,
    after: Map<KV, (V, u64)>,
    key: KV,
    cap: nat,
)
    requires
        before.dom().finite(),
        before.contains_key(key),
        forall|other: KV|
            #[trigger] before.contains_key(other) && other != key ==> before[other].1
                < before[key].1,
        keeps_most_recent(before, after),
        after.len() == (if before.len() <= cap {
            before.len()
        } else {
            cap
        }),
        cap >= 1,
    ensures
        after.contains_key(key),
        after[key] == before[key],
{
    assert(after.dom().subset_of(before.dom()));
    vstd::set_lib::lemma_set_subset_finite(before.dom(), after.dom());
    assert(before.dom().len() != 0) by {
        if before.dom().len() == 0 {
            assert(before.dom() =~= Set::empty());
        }
    }
    let c = after.dom().choose();
    assert(after.dom().contains(c));
    if !after.contains_key(key) {
        assert(before[key].1 <= after[c].1);
        assert(after[c] == before[c]);
    }
}

/// A cache of hand-drawn outlines is cut back once it holds more than this
/// many entries.
pub const SHAPE_CACHE_LIMIT: usize = 1000;

/// How many outlines a cut-back cache keeps.
pub const SHAPE_CACHE_KEEP: usize = 500;

/// Most text layouts kept.
pub const TEXT_CACHE_CAPACITY: usize = 500;

/// Most formulas kept before a new one is added.
pub const MATH_CACHE_CAPACITY: usize = 200;

/// Whether `stamp` is later than the stamp of every entry of `m`.
pub open spec fn newer_than_all<KV, V>(m: Map<KV, (V, u64)>, stamp: u64) -> bool {
    forall|k: KV| #[trigger] m.contains_key(k) ==> m[k].1 < stamp
}

/// Whether `after` is what caching `outline` under `key` at `stamp` makes
/// of an outline cache `before`: the entry is added (or replaced), and when
/// that leaves more than `SHAPE_CACHE_LIMIT` entries only the
/// `SHAPE_CACHE_KEEP` most recently used stay.
pub open spec fn outline_stored<KV, V>(
    before: Map<KV, (V, u64)>,
    after: Map<KV, (V, u64)>,
    key: KV,
    outline: V,
    stamp: u64,
) -> bool {
    let added = before.insert(key, (outline, stamp));
    &&& after.len() == if added.len() > SHAPE_CACHE_LIMIT {
        SHAPE_CACHE_KEEP as nat
    } else {
        added.len()
    }
    &&& added.len() <= SHAPE_CACHE_LIMIT ==> after == added
    &&& keeps_most_recent(added, after)
}

/// Caches a hand-drawn outline used at `stamp`; when the cache then holds
/// more than `SHAPE_CACHE_LIMIT` outlines, only the `SHAPE_CACHE_KEEP` most
/// recently used stay.
pub fn store_outline<V>(
    cache: &mut TouchCache<ShapeCacheKey, V>,
    key: ShapeCacheKey,
    outline: V,
    stamp: u64,
)
    requires
        old(cache).wf(),
        old(cache)@.len() < usize::MAX,
    ensures
        final(cache).wf(),
        outline_stored(old(cache)@, final(cache)@, key@, outline, stamp),
        newer_than_all(old(cache)@, stamp) ==> {
            let after = final(cache)@;
            after.contains_key(key@) && after[key@] == (outline, stamp)
        },
{
    let ghost k = key@;
    cache.insert(key, outline, stamp);
    proof {
        cache.lemma_view_finite();
    }
    let ghost added = cache@;
    if cache.len() > SHAPE_CACHE_LIMIT {
        cache.shrink_to(SHAPE_CACHE_KEEP);
        proof {
            if newer_than_all(old(cache)@, stamp) {
                lemma_newest_survives(added, cache@, k, SHAPE_CACHE_KEEP as nat);
            }
        }
    }
}

/// Whether `after` is what caching `layout` under `key` at `stamp` makes of
/// a text-layout cache `before`: the entry is added (or replaced), then
/// least recently used layouts are dropped until at most
/// `TEXT_CACHE_CAPACITY` are left.
pub open spec fn layout_stored<KV, V>(
    before: Map<KV, (V, u64)>,
    after: Map<KV, (V, u64)>,
    key: KV,
    layout: V,
    stamp: u64,
) -> bool {
    let added = before.insert(key, (layout, stamp));
    &&& after.len() == if added.len() <= TEXT_CACHE_CAPACITY {
        added.len()
    } else {
        TEXT_CACHE_CAPACITY as nat
    }
    &&& added.len() <= TEXT_CACHE_CAPACITY ==> after == added
    &&& keeps_most_recent(added, after)
}

/// Caches a text layout used at `stamp`, then drops least recently used
/// layouts until at most `TEXT_CACHE_CAPACITY` are left.
pub fn store_text_layout<V>(
    cache: &mut TouchCache<TextCacheKey, V>,
    key: TextCacheKey,
    layout: V,
    stamp: u64,
)
    requires
        old(cache).wf(),
        old(cache)@.len() < usize::MAX,
    ensures
        final(cache).wf(),
        layout_stored(old(cache)@, final(cache)@, key@, layout, stamp),
        newer_than_all(old(cache)@, stamp) ==> {
            let after = final(cache)@;
            after.contains_key(key@) && after[key@] == (layout, stamp)
        },
{
    let ghost k = key@;
    cache.insert(key, layout, stamp);
    proof {
        cache.lemma_view_finite();
    }
    let ghost added = cache@;
    cache.shrink_to(TEXT_CACHE_CAPACITY);
    proof {
        if newer_than_all(old(cache)@, stamp) {
            lemma_newest_survives(added, cache@, k, TEXT_CACHE_CAPACITY as nat);
        }
    }
}

/// Drops least recently used formulas until at most `MATH_CACHE_CAPACITY`
/// are left, then caches a formula used at `stamp`.
pub fn store_formula<V>(
    cache: &mut TouchCache<MathCacheKey, V>,
    key: MathCacheKey,
    formula: V,
    stamp: u64,
)
    requires
        old(cache).wf(),
    ensures
        final(cache).wf(),
        exists|kept: Map<(u64, u64, u32), (V, u64)>|
            {
                &&& kept.len() == if old(cache)@.len() <= MATH_CACHE_CAPACITY {
                    old(cache)@.len()
                } else {
                    MATH_CACHE_CAPACITY as nat
                }
                &&& keeps_most_recent(old(cache)@, kept)
                &&& #[trigger] kept.insert(key@, (formula, stamp)) == final(cache)@
            },
        final(cache)@.contains_key(key@),
        final(cache)@[key@] == (formula, stamp),
        final(cache)@.len() <= MATH_CACHE_CAPACITY + 1,
{
    cache.shrink_to(MATH_CACHE_CAPACITY);
    let ghost kept = cache@;
    proof {
        cache.lemma_view_finite();
    }
    cache.insert(key, formula, stamp);
    proof {
        assert(kept.insert(key@, (formula, stamp)) == cache@);
    }
}

/// Gets the hand-drawn outline cached under `key`, or computes it with
/// `compute` and caches a copy. Either way the draw counter `generation`
/// advances by one (wrapping) and its new value stamps the entry used. A
/// hit returns a copy of the cached outline and changes only that entry's
/// stamp; a miss returns what `compute` gave and caches it as
/// `store_outline` does, so that it is found again when its stamp is the
/// newest.
pub fn cached_outline<V: Clone, F: FnOnce() -> V>(
    cache: &mut TouchCache<ShapeCacheKey, V>,
    generation: &mut u64,
    key: ShapeCacheKey,
    compute: F,
) -> (outline: V)
    requires
        old(cache).wf(),
        old(cache)@.len() < usize::MAX,
        call_requires(compute, ()),
    ensures
        final(cache).wf(),
        *final(generation) == next_stamp(*old(generation)),
        old(cache)@.len() <= SHAPE_CACHE_LIMIT ==> final(cache)@.len() <= SHAPE_CACHE_LIMIT,
        old(cache)@.contains_key(key@) ==> {
            &&& cloned(old(cache)@[key@].0, outline)
            &&& final(cache)@ == old(cache)@.insert(
                key@,
                (old(cache)@[key@].0, *final(generation)),
            )
        },
        !old(cache)@.contains_key(key@) ==> {
            &&& call_ensures(compute, (), outline)
            &&& exists|stored: V|
                cloned(outline, stored) && #[trigger] outline_stored(
                    old(cache)@,
                    final(cache)@,
                    key@,
                    stored,
                    *final(generation),
                )
            &&& newer_than_all(old(cache)@, *final(generation)) ==> {
                let after = final(cache)@;
                &&& after.contains_key(key@)
                &&& cloned(outline, after[key@].0)
                &&& after[key@].1 == *final(generation)
            }
        },
{
    if touch_next(cache, generation, &key) {
        let found = cache.get(&key);
        let cached = found.unwrap();
        cached.clone()
    } else {
        let stamp = *generation;
        let outline = compute();
        let stored = outline.clone();
        store_outline(cache, key, stored, stamp);
        proof {
            let added = old(cache)@.insert(key@, (stored, stamp));
            assert(added.len() == old(cache)@.len() + 1) by {
                cache.lemma_view_finite();
            }
            assert(outline_stored(old(cache)@, cache@, key@, stored, stamp));
        }
        outline
    }
}

/// The next value of a wrapping use counter.
pub open spec fn next_stamp(generation: u64) -> u64 {
    if generation == u64::MAX {
        0
    } else {
        (generation + 1) as u64
    }
}

/// Advances a cache's use counter `generation` by one (wrapping) and marks
/// `key`'s entry, if there is one, as used at the new value. Tells whether
/// there was one.
pub fn touch_next<K: CacheKey, V>(cache: &mut TouchCache<K, V>, generation: &mut u64, key: &K) -> (hit:
    bool)
    requires
        old(cache).wf(),
    ensures
        final(cache).wf(),
        *final(generation) == next_stamp(*old(generation)),
        hit == old(cache)@.contains_key(key@),
        hit ==> final(cache)@ == old(cache)@.insert(
            key@,
            (old(cache)@[key@].0, *final(generation)),
        ),
        !hit ==> final(cache)@ == old(cache)@,
{
    let stamp = (*generation).wrapping_add(1);
    *generation = stamp;
    cache.touch(key, stamp)
}

/// Gets the text layout cached under `key`, or computes it with `compute`
/// and caches a copy. Either way the text counter `generation` advances by
/// one (wrapping) and its new value stamps the entry used. A hit returns a
/// copy of the cached layout and changes only that entry's stamp; a miss
/// returns what `compute` gave and caches it as `store_text_layout` does,
/// so that it is found again when its stamp is the newest.
pub fn cached_text_layout<V: Clone, F: FnOnce() -> V>(
    cache: &mut TouchCache<TextCacheKey, V>,
    generation: &mut u64,
    key: TextCacheKey,
    compute: F,
) -> (layout: V)
    requires
        old(cache).wf(),
        old(cache)@.len() < usize::MAX,
        call_requires(compute, ()),
    ensures
        final(cache).wf(),
        *final(generation) == next_stamp(*old(generation)),
        final(cache)@.len() <= TEXT_CACHE_CAPACITY || final(cache)@.len() == old(cache)@.len(),
        old(cache)@.contains_key(key@) ==> {
            &&& cloned(old(cache)@[key@].0, layout)
            &&& final(cache)@ == old(cache)@.insert(
                key@,
                (old(cache)@[key@].0, *final(generation)),
            )
        },
        !old(cache)@.contains_key(key@) ==> {
            &&& call_ensures(compute, (), layout)
            &&& exists|stored: V|
                cloned(layout, stored) && #[trigger] layout_stored(
                    old(cache)@,
                    final(cache)@,
                    key@,
                    stored,
                    *final(generation),
                )
            &&& newer_than_all(old(cache)@, *final(generation)) ==> {
                let after = final(cache)@;
                &&& after.contains_key(key@)
                &&& cloned(layout, after[key@].0)
                &&& after[key@].1 == *final(generation)
            }
        },
{
    if touch_next(cache, generation, &key) {
        let found = cache.get(&key);
        let cached = found.unwrap();
        cached.clone()
    } else {
        let stamp = *generation;
        let layout = compute();
        let stored = layout.clone();
        store_text_layout(cache, key, stored, stamp);
        proof {
            assert(layout_stored(old(cache)@, cache@, key@, stored, stamp));
        }
        layout
    }
}

} // verus!
