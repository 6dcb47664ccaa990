//! Generated chunks and the bounded least-recently-used store that holds
//! them, backed by the `lru` crate.
use vstd::prelude::*;

use crate::ai::AIBehavior;
use crate::geom::Position;
use crate::players::Item;
use crate::terrain::TerrainGrid;

verus! {

/// Capacity of a chunk cache built with `ChunkCache::with_default_capacity`.
pub const DEFAULT_CACHE_CAPACITY: usize = 1000;

#[derive(Clone, Debug, PartialEq, Eq)]
pub enum Entity {
    Monster { id: u128, health: u32, ai: AIBehavior },
    NPC { id: u128, dialogue: Vec<String> },
    Chest { id: u128, items: Vec<Item> },
    Portal { id: u128, destination: Position },
}

/// A generated chunk: its 16×16 cells, the entities in it, and when it was
/// last accessed (in the caller's clock units).
#[derive(Clone, Debug)]
pub struct ChunkData {
    pub terrain: TerrainGrid,
    pub entities: Vec<Entity>,
    pub last_accessed: u64,
}

pub type Coord = (i32, i32);

#[verifier::external_type_specification]
#[verifier::external_body]
#[verifier::reject_recursive_types(K)]
#[verifier::reject_recursive_types(V)]
#[verifier::reject_recursive_types(S)]
pub struct ExLruCache<K, V, S>(lru::LruCache<K, V, S>);

#[verifier::external_type_specification]
#[verifier::external_body]
pub struct ExLruHasher(lru::DefaultHasher);

/// Keys of an `lru::LruCache`, from least to most recently used.
pub uninterp spec fn lru_recency(c: lru::LruCache<Coord, ChunkData>) -> Seq<Coord>;

/// Entries of an `lru::LruCache`.
pub uninterp spec fn lru_entries(c: lru::LruCache<Coord, ChunkData>) -> Map<Coord, ChunkData>;

/// The capacity an `lru::LruCache` was built with.
pub uninterp spec fn lru_bound(c: lru::LruCache<Coord, ChunkData>) -> nat;

/// `s` with `k` moved to the most recent end.
pub open spec fn promote(s: Seq<Coord>, k: Coord) -> Seq<Coord> {
    if s.contains(k) {
        s.remove(s.index_of(k)).push(k)
    } else {
        s
    }
}

/// Relies on `lru::LruCache::new`: an empty cache that holds at most `cap`
/// entries.
#[verifier::external_body]
fn lru_new(cap: usize) -> (r: lru::LruCache<Coord, ChunkData>)
    requires
        cap > 0,
    ensures
        lru_recency(r) == Seq::<Coord>::empty(),
        lru_entries(r).dom() == Set::<Coord>::empty(),
        lru_bound(r) == cap,
{
    lru::LruCache::new(std::num::NonZeroUsize::new(cap).unwrap())
}

/// Relies on `lru::LruCache::get`: on a hit the key becomes the most
/// recently used and its value is returned (cloned here); a miss changes
/// nothing.
#[verifier::external_body]
fn lru_get(c: &mut lru::LruCache<Coord, ChunkData>, k: Coord) -> (r: Option<ChunkData>)
    ensures
        lru_bound(*final(c)) == lru_bound(*old(c)),
        lru_entries(*final(c)) == lru_entries(*old(c)),
        lru_recency(*final(c)) == promote(lru_recency(*old(c)), k),
        lru_entries(*old(c)).contains_key(k) ==> r == Some(lru_entries(*old(c))[k]),
        !lru_entries(*old(c)).contains_key(k) ==> r is None,
{
    c.get(&k).cloned()
}

/// Relies on `lru::LruCache::push`: the key becomes the most recently used
/// with value `v`. A present key has its old entry returned. An absent key
/// in a full cache replaces the least recently used entry, which is returned.
#[verifier::external_body]
fn lru_push(c: &mut lru::LruCache<Coord, ChunkData>, k: Coord, v: ChunkData) -> (r: Option<
    (Coord, ChunkData),
>)
    ensures
        lru_bound(*final(c)) == lru_bound(*old(c)),
        ({
            let rec = lru_recency(*old(c));
            let ent = lru_entries(*old(c));
            if ent.contains_key(k) {
                &&& r == Some((k, ent[k]))
                &&& lru_recency(*final(c)) == promote(rec, k)
                &&& lru_entries(*final(c)) == ent.insert(k, v)
            } else if rec.len() == lru_bound(*old(c)) && rec.len() > 0 {
                &&& r == Some((rec[0], ent[rec[0]]))
                &&& lru_recency(*final(c)) == rec.drop_first().push(k)
                &&& lru_entries(*final(c)) == ent.remove(rec[0]).insert(k, v)
            } else {
                &&& r is None
                &&& lru_recency(*final(c)) == rec.push(k)
                &&& lru_entries(*final(c)) == ent.insert(k, v)
            }
        }),
{
    c.push(k, v)
}

/// Relies on `lru::LruCache::contains`: whether the key is present, without
/// changing its recency.
#[verifier::external_body]
fn lru_contains(c: &lru::LruCache<Coord, ChunkData>, k: Coord) -> (r: bool)
    ensures
        r == lru_entries(*c).contains_key(k),
{
    c.contains(&k)
}

/// A bounded store of generated chunks that evicts the least recently used
/// chunk when full.
pub struct ChunkCache {
    cache: lru::LruCache<Coord, ChunkData>,
}

/// Recency and entries after storing `v` under `k`: a present key is
/// refreshed; a new key in a full cache replaces the least recently used.
pub open spec fn stored(
    rec: Seq<Coord>,
    ent: Map<Coord, ChunkData>,
    cap: nat,
    k: Coord,
    v: ChunkData,
) -> (Seq<Coord>, Map<Coord, ChunkData>) {
    if ent.contains_key(k) {
        (promote(rec, k), ent.insert(k, v))
    } else if rec.len() == cap {
        (rec.drop_first().push(k), ent.remove(rec[0]).insert(k, v))
    } else {
        (rec.push(k), ent.insert(k, v))
    }
}

impl ChunkCache {
    /// Coordinates held, from least to most recently used.
    pub closed spec fn recency(&self) -> Seq<Coord> {
        lru_recency(self.cache)
    }

    pub closed spec fn entries(&self) -> Map<Coord, ChunkData> {
        lru_entries(self.cache)
    }

    pub closed spec fn capacity(&self) -> nat {
        lru_bound(self.cache)
    }

    pub open spec fn wf(&self) -> bool {
        &&& self.capacity() > 0
        &&& self.recency().len() <= self.capacity()
        &&& self.recency().no_duplicates()
        &&& forall|k: Coord| #[trigger] self.entries().contains_key(k) <==> self.recency().contains(k)
    }

    pub fn new(capacity: usize) -> (r: ChunkCache)
        requires
            capacity > 0,
        ensures
            r.wf(),
            r.capacity() == capacity,
            r.recency() == Seq::<Coord>::empty(),
    {
        ChunkCache { cache: lru_new(capacity) }
    }

    pub fn with_default_capacity() -> (r: ChunkCache)
        ensures
            r.wf(),
            r.capacity() == DEFAULT_CACHE_CAPACITY,
            r.recency() == Seq::<Coord>::empty(),
    {
        ChunkCache::new(DEFAULT_CACHE_CAPACITY)
    }

    pub fn contains(&self, chunk_x: i32, chunk_y: i32) -> (r: bool)
        ensures
            r == self.entries().contains_key((chunk_x, chunk_y)),
    {
        lru_contains(&self.cache, (chunk_x, chunk_y))
    }

    /// The cached chunk at the coordinate, if any. A hit stamps the chunk
    /// with `now` and makes it the most recently used.
    pub fn lookup(&mut self, chunk_x: i32, chunk_y: i32, now: u64) -> (r: Option<ChunkData>)
        requires
            old(self).wf(),
        ensures
            final(self).wf(),
            final(self).capacity() == old(self).capacity(),
            final(self).recency() == promote(old(self).recency(), (chunk_x, chunk_y)),
            old(self).entries().contains_key((chunk_x, chunk_y)) ==> {
                let d = old(self).entries()[(chunk_x, chunk_y)];
                let stamped = ChunkData { last_accessed: now, ..d };
                &&& r == Some(stamped)
                &&& final(self).entries() == old(self).entries().insert((chunk_x, chunk_y), stamped)
            },
            !old(self).entries().contains_key((chunk_x, chunk_y)) ==> {
                &&& r is None
                &&& final(self).entries() == old(self).entries()
            },
    {
        let k = (chunk_x, chunk_y);
        let ghost rec0 = self.recency();
        match lru_get(&mut self.cache, k) {
            Some(d) => {
                let ChunkData { terrain, entities, last_accessed } = d;
                let stamped = ChunkData { terrain, entities, last_accessed: now };
                proof {
                    lemma_promote_wf(rec0, k);
                    lemma_promote_twice(rec0, k);
                }
                let _ = lru_push(&mut self.cache, k, stamped);
                proof {
                    lemma_promote_wf(promote(rec0, k), k);
                    lemma_promote_twice(promote(rec0, k), k);
                }
                let r = lru_get(&mut self.cache, k);
                proof {
                    assert forall|c: Coord| #[trigger] self.entries().contains_key(c) <==> self.recency().contains(c) by {
                        assert(old(self).entries().contains_key(c) <==> rec0.contains(c));
                        assert(promote(rec0, k).contains(c) <==> rec0.contains(c));
                    }
                }
                r
            },
            None => {
                proof {
                    lemma_promote_wf(rec0, k);
                    assert forall|c: Coord| #[trigger] self.entries().contains_key(c) <==> self.recency().contains(c) by {
                        assert(old(self).entries().contains_key(c) <==> rec0.contains(c));
                    }
                }
                None
            },
        }
    }

    /// Stamps the cached chunk with `now` and makes it the most recently
    /// used; returns whether it was cached.
    pub fn touch(&mut self, chunk_x: i32, chunk_y: i32, now: u64) -> (r: bool)
        requires
            old(self).wf(),
        ensures
            final(self).wf(),
            final(self).capacity() == old(self).capacity(),
            r == old(self).entries().contains_key((chunk_x, chunk_y)),
            final(self).recency() == promote(old(self).recency(), (chunk_x, chunk_y)),
            r ==> final(self).entries() == old(self).entries().insert(
                (chunk_x, chunk_y),
                ChunkData { last_accessed: now, ..old(self).entries()[(chunk_x, chunk_y)] },
            ),
            !r ==> final(self).entries() == old(self).entries(),
    {
        let r = self.lookup(chunk_x, chunk_y, now);
        r.is_some()
    }

    /// Stores a generated chunk as the most recently used. When the
    /// coordinate is new and the cache is full, the least recently used
    /// coordinate is evicted and returned.
    pub fn insert(&mut self, chunk_x: i32, chunk_y: i32, chunk: ChunkData) -> (r: Option<Coord>)
        requires
            old(self).wf(),
        ensures
            final(self).wf(),
            final(self).capacity() == old(self).capacity(),
            final(self).entries().contains_key((chunk_x, chunk_y)),
            final(self).entries()[(chunk_x, chunk_y)] == chunk,
            (final(self).recency(), final(self).entries()) == stored(
                old(self).recency(),
                old(self).entries(),
                old(self).capacity(),
                (chunk_x, chunk_y),
                chunk,
            ),
            ({
                let k = (chunk_x, chunk_y);
                let rec = old(self).recency();
                if old(self).entries().contains_key(k) {
                    &&& r is None
                    &&& final(self).recency() == promote(rec, k)
                    &&& final(self).entries() == old(self).entries().insert(k, chunk)
                } else if rec.len() == old(self).capacity() {
                    &&& r == Some(rec[0])
                    &&& final(self).recency() == rec.drop_first().push(k)
                    &&& final(self).entries() == old(self).entries().remove(rec[0]).insert(k, chunk)
                } else {
                    &&& r is None
                    &&& final(self).recency() == rec.push(k)
                    &&& final(self).entries() == old(self).entries().insert(k, chunk)
                }
            }),
    {
        let k = (chunk_x, chunk_y);
        let ghost rec = self.recency();
        let ghost ent = self.entries();
        let ghost cap = self.capacity();
        let present = lru_contains(&self.cache, k);
        let out = lru_push(&mut self.cache, k, chunk);
        proof {
            if present {
                lemma_promote_wf(rec, k);
            } else if rec.len() == lru_bound(old(self).cache) {
                assert(rec.len() > 0);
                lemma_evict_wf(rec, k);
                assert forall|c: Coord| #[trigger] self.entries().contains_key(c) <==> self.recency().contains(c) by {
                    lemma_evict_contains(rec, k, c);
                }
            } else {
                assert(!rec.contains(k));
                assert forall|c: Coord| #[trigger] self.entries().contains_key(c) <==> self.recency().contains(c) by {
                    if c != k && rec.contains(c) {
                        let i = rec.index_of(c);
                        assert(self.recency()[i] == c);
                    }
                    if self.recency().contains(c) && c != k {
                        let i = self.recency().index_of(c);
                        assert(rec[i] == c);
                    }
                    assert(self.recency()[rec.len() as int] == k);
                }
            }
        }
        match out {
            Some((evicted, _)) => {
                if present {
                    None
                } else {
                    Some(evicted)
                }
            },
            None => None,
        }
    }
}

proof fn lemma_promote_wf(s: Seq<Coord>, k: Coord)
    requires
        s.no_duplicates(),
    ensures
        promote(s, k).no_duplicates(),
        promote(s, k).len() == s.len(),
        forall|c: Coord| #[trigger] promote(s, k).contains(c) <==> s.contains(c),
        s.contains(k) ==> promote(s, k).last() == k,
{
    if s.contains(k) {
        let i = s.index_of(k);
        let r = s.remove(i);
        let p = r.push(k);
        s.remove_ensures(i);
        assert forall|a: int, b: int| 0 <= a < b < p.len() implies p[a] != p[b] by {
            if b == p.len() - 1 {
                let ia = if a < i { a } else { a + 1 };
                assert(p[a] == s[ia]);
                assert(ia != i);
            } else {
                let ia = if a < i { a } else { a + 1 };
                let ib = if b < i { b } else { b + 1 };
                assert(p[a] == s[ia] && p[b] == s[ib]);
            }
        }
        assert forall|c: Coord| #[trigger] p.contains(c) <==> s.contains(c) by {
            if s.contains(c) {
                let j = s.index_of(c);
                if j < i {
                    assert(p[j] == c);
                } else if j > i {
                    assert(p[j - 1] == c);
                } else {
                    assert(p[p.len() - 1] == c);
                }
            }
            if p.contains(c) {
                let j = p.index_of(c);
                if j == p.len() - 1 {
                    assert(s[i] == c);
                } else if j < i {
                    assert(s[j] == c);
                } else {
                    assert(s[j + 1] == c);
                }
            }
        }
    }
}

proof fn lemma_promote_twice(s: Seq<Coord>, k: Coord)
    requires
        s.no_duplicates(),
    ensures
        promote(promote(s, k), k) == promote(s, k),
{
    lemma_promote_wf(s, k);
    if s.contains(k) {
        let p = promote(s, k);
        let last = p.len() - 1;
        assert(p[last] == k);
        assert(p.contains(k));
        let j = p.index_of(k);
        assert(j == last);
        assert(p.remove(j).push(k) =~= p);
    }
}

proof fn lemma_evict_wf(rec: Seq<Coord>, k: Coord)
    requires
        rec.no_duplicates(),
        rec.len() > 0,
        !rec.contains(k),
    ensures
        rec.drop_first().push(k).no_duplicates(),
{
    let p = rec.drop_first().push(k);
    assert forall|a: int, b: int| 0 <= a < b < p.len() implies p[a] != p[b] by {
        if b == p.len() - 1 {
            assert(p[a] == rec[a + 1]);
        } else {
            assert(p[a] == rec[a + 1] && p[b] == rec[b + 1]);
        }
    }
}

proof fn lemma_evict_contains(rec: Seq<Coord>, k: Coord, c: Coord)
    requires
        rec.no_duplicates(),
        rec.len() > 0,
        !rec.contains(k),
    ensures
        rec.drop_first().push(k).contains(c) <==> (c == k || (rec.contains(c) && c != rec[0])),
{
    let p = rec.drop_first().push(k);
    if c == k {
        assert(p[p.len() - 1] == k);
    } else if rec.contains(c) && c != rec[0] {
        let j = rec.index_of(c);
        assert(j != 0);
        assert(p[j - 1] == c);
    }
    if p.contains(c) && c != k {
        let j = p.index_of(c);
        assert(j < p.len() - 1);
        assert(rec[j + 1] == c);
        assert(rec[0] != rec[j + 1]);
    }
}

/// Recency after an access: the accessed coordinate becomes the most
/// recently used, so when two or more chunks are cached it is not the next
/// one evicted; the other coordinates keep their relative order.
pub proof fn lemma_access_protects(order: Seq<Coord>, k: Coord)
    requires
        order.no_duplicates(),
        order.contains(k),
        order.len() >= 2,
    ensures
        promote(order, k).last() == k,
        promote(order, k)[0] != k,
        promote(order, k).len() == order.len(),
        promote(order, k).drop_last() == order.remove(order.index_of(k)),
{
    lemma_promote_wf(order, k);
    let p = promote(order, k);
    assert(p.drop_last() =~= order.remove(order.index_of(k)));
    assert(p[0] != p[p.len() - 1]);
}

} // verus!
