//! A bounded least-recently-used cache of decoded raster chunks, for
//! serving elevations when the whole raster is not held in memory.

use vstd::prelude::*;
use crate::raster::{lemma_row_major_index, Region, Tile, tile_fits, clamp_sample, CHUNK_SIZE, CHUNKS_PER_SIDE, REGION_SIZE, TILE_COUNT};

verus! {

/// Chunks that a serving cache holds at once.
pub const CACHE_CAPACITY: usize = 11;

/// The chunk indices of a cache, least recently used first, after chunk `k`
/// is asked for: a held chunk moves to the most recently used end; a new one
/// is appended there, and when the cache already holds `cap` chunks the
/// least recently used one leaves.
pub open spec fn query_keys(keys: Seq<usize>, cap: int, k: usize) -> Seq<usize> {
    if keys.contains(k) {
        keys.remove(keys.index_of(k)).push(k)
    } else if keys.len() >= cap {
        keys.drop_first().push(k)
    } else {
        keys.push(k)
    }
}

/// The chunk indices of a cache that starts empty, after the chunks of `ks`
/// are asked for in turn.
pub open spec fn query_all(cap: int, ks: Seq<usize>) -> Seq<usize>
    decreases ks.len(),
{
    if ks.len() == 0 {
        Seq::empty()
    } else {
        query_keys(query_all(cap, ks.drop_last()), cap, ks.last())
    }
}

/// Whether the position `(px, py)` falls on the chunk grid.
pub open spec fn on_chunk_grid(px: int, py: int) -> bool {
    &&& 0 <= px < CHUNK_SIZE * CHUNKS_PER_SIDE
    &&& 0 <= py < CHUNK_SIZE * CHUNKS_PER_SIDE
}

/// The index of the chunk that position `(px, py)` reads, once clamped
/// into the raster.
pub open spec fn chunk_of(px: int, py: int) -> int {
    (clamp_sample(py) / CHUNK_SIZE as int) * CHUNKS_PER_SIDE + clamp_sample(px) / CHUNK_SIZE as int
}

/// The sample of chunk `t` that position `(px, py)` reads.
pub open spec fn sample_in(t: Tile, px: int, py: int) -> u32 {
    t.at(clamp_sample(px) % CHUNK_SIZE as int, clamp_sample(py) % CHUNK_SIZE as int)
}

/// What sampling through the cache gives.
#[derive(Clone, Copy, Debug, PartialEq, Eq, Structural)]
pub enum CachedSample {
    /// The position is off the chunk grid.
    OffGrid,
    /// The chunk with this index is not held: it is to be decoded and
    /// inserted before asking again.
    Miss(usize),
    /// The sample, read from a held chunk.
    Hit(u32),
}

/// A held chunk is a chunk of the grid with the shape of its place.
pub open spec fn held_chunk_fits(e: (usize, Tile)) -> bool {
    e.0 < TILE_COUNT && tile_fits(e.1, e.0 as int)
}

/// Decoded chunks by chunk index, least recently used first.
pub struct ElevationCache {
    capacity: usize,
    entries: Vec<(usize, Tile)>,
}

impl ElevationCache {
    /// The held chunks with their indices, least recently used first.
    pub closed spec fn entries_view(&self) -> Seq<(usize, Tile)> {
        self.entries@
    }

    /// The most chunks held at once.
    pub closed spec fn capacity_spec(&self) -> int {
        self.capacity as int
    }

    /// The indices of the held chunks, least recently used first.
    pub open spec fn keys(&self) -> Seq<usize> {
        self.entries_view().map_values(|e: (usize, Tile)| e.0)
    }

    /// At least one chunk fits, no chunk is held twice, no more are held
    /// than fit, and each held chunk has the shape of its place in the grid.
    pub open spec fn wf(&self) -> bool {
        &&& self.capacity_spec() >= 1
        &&& self.keys().no_duplicates()
        &&& self.keys().len() <= self.capacity_spec()
        &&& forall|i: int|
            0 <= i < self.entries_view().len() ==> held_chunk_fits(#[trigger] self.entries_view()[i])
    }

    /// An empty cache that holds up to `capacity` chunks.
    pub fn new(capacity: usize) -> (r: ElevationCache)
        requires
            capacity >= 1,
        ensures
            r.wf(),
            r.capacity_spec() == capacity,
            r.entries_view() == Seq::<(usize, Tile)>::empty(),
    {
        let r = ElevationCache { capacity, entries: Vec::new() };
        assert(r.keys() =~= Seq::<usize>::empty());
        r
    }

    /// The number of chunks held.
    pub fn len(&self) -> (r: usize)
        ensures
            r == self.entries_view().len(),
    {
        self.entries.len()
    }

    /// The most chunks held at once.
    pub fn capacity(&self) -> (r: usize)
        ensures
            r == self.capacity_spec(),
    {
        self.capacity
    }

    /// Asks for chunk `index`. On a hit (`true`) the chunk becomes the most
    /// recently used; on a miss nothing changes.
    pub fn touch(&mut self, index: usize) -> (r: bool)
        requires
            old(self).wf(),
        ensures
            final(self).wf(),
            final(self).capacity_spec() == old(self).capacity_spec(),
            r == old(self).keys().contains(index),
            r ==> final(self).keys() == query_keys(old(self).keys(), old(self).capacity_spec(), index),
            r ==> final(self).entries_view() == old(self).entries_view().remove(
                old(self).keys().index_of(index),
            ).push(old(self).entries_view()[old(self).keys().index_of(index)]),
            !r ==> final(self).entries_view() == old(self).entries_view(),
    {
        let ghost keys = self.keys();
        let mut p: usize = 0;
        while p < self.entries.len()
            invariant
                p <= self.entries@.len(),
                self.entries@ == old(self).entries@,
                self.capacity == old(self).capacity,
                keys == self.keys(),
                old(self).wf(),
                forall|j: int| 0 <= j < p ==> keys[j] != index,
            decreases self.entries@.len() - p,
        {
            if self.entries[p].0 == index {
                proof {
                    assert(keys[p as int] == index);
                    assert(keys.contains(index));
                    let i = keys.index_of(index);
                    assert(keys[i] == index);
                    assert(i == p);
                }
                let e = self.entries.remove(p);
                self.entries.push(e);
                proof {
                    assert(self.keys() =~= keys.remove(p as int).push(index));
                    let nk = self.keys();
                    assert forall|a: int, b: int|
                        0 <= a < nk.len() && 0 <= b < nk.len() && a != b implies nk[a] != nk[b] by {
                        let a0 = if a == nk.len() - 1 { p as int } else if a < p { a } else { a + 1 };
                        let b0 = if b == nk.len() - 1 { p as int } else if b < p { b } else { b + 1 };
                        assert(keys[a0] == nk[a]);
                        assert(keys[b0] == nk[b]);
                        assert(a0 != b0);
                    }
                    assert(nk.no_duplicates());
                    let ne = self.entries_view();
                    let oe = old(self).entries_view();
                    assert forall|a: int| 0 <= a < ne.len() implies held_chunk_fits(#[trigger] ne[a]) by {
                        let a0 = if a == ne.len() - 1 { p as int } else if a < p { a } else { a + 1 };
                        assert(ne[a] == oe[a0]);
                    }
                }
                return true;
            }
            p = p + 1;
        }
        false
    }

    /// Adds chunk `index`, which the cache does not hold, as the most
    /// recently used; when the cache is full the least recently used chunk
    /// leaves first, and its index is returned.
    pub fn insert(&mut self, index: usize, tile: Tile) -> (r: Option<usize>)
        requires
            old(self).wf(),
            !old(self).keys().contains(index),
            held_chunk_fits((index, tile)),
        ensures
            final(self).wf(),
            final(self).capacity_spec() == old(self).capacity_spec(),
            final(self).keys() == query_keys(old(self).keys(), old(self).capacity_spec(), index),
            r == if old(self).keys().len() >= old(self).capacity_spec() {
                Some(old(self).keys()[0])
            } else {
                None::<usize>
            },
            final(self).entries_view() == if old(self).keys().len() >= old(self).capacity_spec() {
                old(self).entries_view().drop_first()
            } else {
                old(self).entries_view()
            }.push((index, tile)),
    {
        let ghost keys = self.keys();
        let mut evicted: Option<usize> = None;
        if self.entries.len() >= self.capacity {
            let e = self.entries.remove(0);
            evicted = Some(e.0);
            assert(self.keys() =~= keys.drop_first());
        }
        let ghost kept = self.keys();
        let ghost kept_entries = self.entries_view();
        self.entries.push((index, tile));
        proof {
            let ne = self.entries_view();
            assert forall|a: int| 0 <= a < ne.len() implies held_chunk_fits(#[trigger] ne[a]) by {
                if a < ne.len() - 1 {
                    assert(ne[a] == kept_entries[a]);
                    let off: int = if keys.len() >= self.capacity { 1 } else { 0 };
                    assert(kept_entries[a] == old(self).entries_view()[a + off]);
                }
            }
            assert(self.keys() =~= kept.push(index));
            assert forall|a: int, b: int|
                0 <= a < b < self.keys().len() implies self.keys()[a] != self.keys()[b] by {
                let off: int = if keys.len() >= self.capacity { 1 } else { 0 };
                assert(keys[a + off] == self.keys()[a]);
                if b < self.keys().len() - 1 {
                    assert(keys[b + off] == self.keys()[b]);
                }
            }
        }
        evicted
    }

    /// Samples the position `(px, py)` from the held chunks, as a serving
    /// request does: off the chunk grid there is no sample; on it the
    /// position is clamped into the raster, and the chunk it reads is either
    /// missing or, on a hit, becomes the most recently used and is read.
    pub fn sample(&mut self, px: i64, py: i64) -> (r: CachedSample)
        requires
            old(self).wf(),
        ensures
            final(self).wf(),
            final(self).capacity_spec() == old(self).capacity_spec(),
            !on_chunk_grid(px as int, py as int) ==> {
                &&& r == CachedSample::OffGrid
                &&& final(self).entries_view() == old(self).entries_view()
            },
            on_chunk_grid(px as int, py as int) && !old(self).keys().contains(
                chunk_of(px as int, py as int) as usize,
            ) ==> {
                &&& r == CachedSample::Miss(chunk_of(px as int, py as int) as usize)
                &&& final(self).entries_view() == old(self).entries_view()
            },
            on_chunk_grid(px as int, py as int) && old(self).keys().contains(
                chunk_of(px as int, py as int) as usize,
            ) ==> {
                let k = chunk_of(px as int, py as int) as usize;
                let e = old(self).entries_view()[old(self).keys().index_of(k)];
                &&& final(self).keys() == query_keys(old(self).keys(), old(self).capacity_spec(), k)
                &&& final(self).entries_view() == old(self).entries_view().remove(
                    old(self).keys().index_of(k),
                ).push(e)
                &&& r == CachedSample::Hit(sample_in(e.1, px as int, py as int))
            },
    {
        let limit = (CHUNK_SIZE as usize * CHUNKS_PER_SIDE) as i64;
        if px < 0 || py < 0 || px >= limit || py >= limit {
            return CachedSample::OffGrid;
        }
        let x: u32 = if px >= REGION_SIZE as i64 {
            REGION_SIZE - 1
        } else {
            px as u32
        };
        let y: u32 = if py >= REGION_SIZE as i64 {
            REGION_SIZE - 1
        } else {
            py as u32
        };
        let k = (y / CHUNK_SIZE) as usize * CHUNKS_PER_SIDE + (x / CHUNK_SIZE) as usize;
        assert(k == chunk_of(px as int, py as int));
        if !self.touch(k) {
            return CachedSample::Miss(k);
        }
        let tile = self.latest();
        proof {
            let last = self.entries_view().len() - 1;
            assert(held_chunk_fits(self.entries_view()[last]));
            assert(self.keys()[last] == k);
            lemma_row_major_index(
                (x % CHUNK_SIZE) as int,
                (y % CHUNK_SIZE) as int,
                tile.width as int,
                tile.height as int,
            );
        }
        CachedSample::Hit(tile.get((x % CHUNK_SIZE) as usize, (y % CHUNK_SIZE) as usize))
    }

    /// The most recently used chunk.
    pub fn latest(&self) -> (r: &Tile)
        requires
            self.entries_view().len() > 0,
        ensures
            *r == self.entries_view().last().1,
    {
        &self.entries[self.entries.len() - 1].1
    }
}

/// A chunk held by the cache that is the region's own chunk gives the
/// sample that the region gives at the same position.
pub proof fn lemma_cached_sample_agrees(region: &Region, px: int, py: int, t: Tile)
    requires
        region.wf(),
        t == region.tiles_view()[chunk_of(px, py)],
    ensures
        sample_in(t, px, py) == region.elevation_at(px, py),
{
}

/// A hit on a held chunk moves it to the most recently used end and keeps
/// the order of all the others.
pub proof fn lemma_hit_moves_to_back(keys: Seq<usize>, cap: int, j: int)
    requires
        keys.no_duplicates(),
        0 <= j < keys.len(),
    ensures
        query_keys(keys, cap, keys[j]) == keys.remove(j).push(keys[j]),
{
    assert(keys.contains(keys[j]));
    assert(keys.index_of(keys[j]) == j);
}

proof fn lemma_fill_keeps_order(cap: int, ks: Seq<usize>)
    requires
        ks.len() <= cap,
        ks.no_duplicates(),
    ensures
        query_all(cap, ks) == ks,
    decreases ks.len(),
{
    if ks.len() > 0 {
        let init = ks.drop_last();
        assert(init.no_duplicates());
        lemma_fill_keeps_order(cap, init);
        assert(!init.contains(ks.last()));
        assert(init.push(ks.last()) =~= ks);
    }
}

/// Eviction: a cache of capacity `cap`, asked in turn for `cap + 1` distinct
/// chunks, evicts exactly the first (least recently used) one and holds the
/// rest in the order they were asked for.
pub proof fn lemma_evicts_least_recent(cap: int, ks: Seq<usize>)
    requires
        cap >= 1,
        ks.len() == cap + 1,
        ks.no_duplicates(),
    ensures
        query_all(cap, ks) == ks.drop_first(),
{
    let init = ks.drop_last();
    assert(init.no_duplicates());
    lemma_fill_keeps_order(cap, init);
    assert(!init.contains(ks.last()));
    assert(init.drop_first().push(ks.last()) =~= ks.drop_first());
}

} // verus!
