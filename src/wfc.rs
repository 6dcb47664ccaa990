//! A single-pass, local constraint relaxation over a 16×16 occupancy grid
//! (0 = wall, 1 = open), driven by a small set of 2×2 tile patterns.
//!
//! Every interior cell keeps only the patterns whose top corners match its
//! current value and takes the bottom-right value of one of them, picked at
//! random. The pass is local and may leave inconsistencies between
//! neighbouring cells.
use vstd::prelude::*;

use rand::SeedableRng;
use rand::Rng;

use crate::grid::ByteGrid;
use crate::terrain::CHUNK_CELLS;
use crate::terrain::CHUNK_SIZE;

verus! {

#[verifier::external_type_specification]
#[verifier::external_body]
pub struct ExStdRng(rand::rngs::StdRng);

/// Relies on `rand::SeedableRng::seed_from_u64` for `StdRng`: a generator
/// seeded from `seed`.
#[verifier::external_body]
fn seeded_rng(seed: u64) -> rand::rngs::StdRng {
    rand::rngs::StdRng::seed_from_u64(seed)
}

/// Relies on `rand::Rng::gen_range`: a value drawn from `0..n`. The range
/// must not be empty.
#[verifier::external_body]
fn pick_index(rng: &mut rand::rngs::StdRng, n: usize) -> (r: usize)
    requires
        n > 0,
    ensures
        r < n,
{
    rng.gen_range(0..n)
}

/// A 2×2 pattern fits a cell when one of its top corners equals the cell.
pub open spec fn fits(p: ByteGrid, center: u8) -> bool {
    p.cells()[0] == center || p.cells()[1] == center
}

/// A 2×2 tile: four cells, two per row.
pub open spec fn is_tile(p: ByteGrid) -> bool {
    p.cells().len() == 4 && p.cols() == 2
}

/// The value a tile gives to the cell it is chosen for: its bottom-right.
pub open spec fn tile_value(p: ByteGrid) -> u8 {
    p.cells()[3]
}

/// The patterns that fit a cell, in the order they are listed.
pub open spec fn fitting(ps: Seq<ByteGrid>, center: u8) -> Seq<ByteGrid>
    decreases ps.len(),
{
    if ps.len() == 0 {
        Seq::empty()
    } else if fits(ps.last(), center) {
        fitting(ps.drop_last(), center).push(ps.last())
    } else {
        fitting(ps.drop_last(), center)
    }
}

proof fn lemma_fitting_members(ps: Seq<ByteGrid>, center: u8)
    ensures
        forall|i: int|
            0 <= i < fitting(ps, center).len() ==> ps.contains(#[trigger] fitting(ps, center)[i])
                && fits(fitting(ps, center)[i], center),
        fitting(ps, center).len() == 0 <==> forall|i: int| 0 <= i < ps.len() ==> !fits(#[trigger] ps[i], center),
    decreases ps.len(),
{
    if ps.len() > 0 {
        let pre = ps.drop_last();
        lemma_fitting_members(pre, center);
        assert forall|i: int| 0 <= i < pre.len() implies ps.contains(#[trigger] pre[i]) by {
            assert(ps[i] == pre[i]);
        }
        assert(ps[ps.len() - 1] == ps.last());
        if forall|i: int| 0 <= i < ps.len() ==> !fits(#[trigger] ps[i], center) {
            assert forall|i: int| 0 <= i < pre.len() implies !fits(#[trigger] pre[i], center) by {
                assert(ps[i] == pre[i]);
            }
        }
        if fitting(ps, center).len() == 0 {
            assert forall|i: int| 0 <= i < ps.len() implies !fits(#[trigger] ps[i], center) by {
                if i < pre.len() {
                    assert(ps[i] == pre[i]);
                }
            }
        }
    }
}

pub open spec fn is_interior(i: int) -> bool {
    let x = i % (CHUNK_SIZE as int);
    let y = i / (CHUNK_SIZE as int);
    1 <= x < 15 && 1 <= y < 15
}

/// What the relaxation may leave in a cell that held `before`: a cell that
/// no pattern fits is unchanged, otherwise it holds the bottom-right value
/// of a fitting pattern.
pub open spec fn relaxed(patterns: Seq<ByteGrid>, before: u8, after: u8) -> bool {
    if fitting(patterns, before).len() == 0 {
        after == before
    } else {
        exists|p: ByteGrid| patterns.contains(p) && fits(p, before) && after == tile_value(p)
    }
}

/// Open (1) where the noise sample, in thousandths, lies above 0.3.
pub open spec fn occupancy(noise: i32) -> u8 {
    if noise > 300 {
        1
    } else {
        0
    }
}

pub struct WaveFunctionCollapse {
    patterns: Vec<ByteGrid>,
    rng: rand::rngs::StdRng,
}

/// The cells of the three base tiles: open ground and the two wall edges.
pub open spec fn base_patterns() -> Seq<Seq<u8>> {
    seq![seq![1u8, 1, 1, 1], seq![0u8, 1, 1, 1], seq![1u8, 0, 1, 1]]
}

fn tile(a: u8, b: u8, c: u8, d: u8) -> (r: ByteGrid)
    ensures
        is_tile(r),
        r.cells() == seq![a, b, c, d],
{
    let mut v: Vec<u8> = Vec::new();
    v.push(a);
    v.push(b);
    v.push(c);
    v.push(d);
    assert(v@ =~= seq![a, b, c, d]);
    ByteGrid::from_rows(2, 2, v)
}

impl WaveFunctionCollapse {
    pub closed spec fn patterns(&self) -> Seq<ByteGrid> {
        self.patterns@
    }

    pub open spec fn wf(&self) -> bool {
        forall|i: int| 0 <= i < self.patterns().len() ==> is_tile(#[trigger] self.patterns()[i])
    }

    pub fn new(seed: u64) -> (r: WaveFunctionCollapse)
        ensures
            r.wf(),
            r.patterns().len() == 3,
            forall|i: int| 0 <= i < 3 ==> (#[trigger] r.patterns()[i]).cells() == base_patterns()[i],
    {
        let mut patterns: Vec<ByteGrid> = Vec::new();
        patterns.push(tile(1, 1, 1, 1));
        patterns.push(tile(0, 1, 1, 1));
        patterns.push(tile(1, 0, 1, 1));
        WaveFunctionCollapse { patterns, rng: seeded_rng(seed) }
    }

    /// Whether the pattern's top corners allow the centre of the 3×3
    /// neighbourhood.
    pub fn pattern_fits(&self, pattern: &ByteGrid, neighborhood: &ByteGrid) -> (r: bool)
        requires
            is_tile(*pattern),
            neighborhood.cells().len() == 9,
            neighborhood.cols() == 3,
        ensures
            r == fits(*pattern, neighborhood.cells()[4]),
    {
        let center = neighborhood.get(1, 1);
        pattern.get(0, 0) == center || pattern.get(0, 1) == center
    }

    /// The 3×3 block centred on `(x, y)`, row by row.
    pub fn get_neighborhood(&self, grid: &ByteGrid, y: usize, x: usize) -> (r: ByteGrid)
        requires
            grid.cells().len() == CHUNK_CELLS,
            grid.cols() == CHUNK_SIZE,
            1 <= x < 15,
            1 <= y < 15,
        ensures
            r.cells().len() == 9,
            r.cols() == 3,
            forall|dy: int, dx: int|
                0 <= dy < 3 && 0 <= dx < 3 ==> #[trigger] r.cells()[dy * 3 + dx] == grid.cells()[(y
                    + dy - 1) * 16 + (x + dx - 1)],
    {
        let mut out: Vec<u8> = Vec::new();
        let mut dy: usize = 0;
        while dy < 3
            invariant
                dy <= 3,
                out.len() == dy * 3,
                grid.cells().len() == CHUNK_CELLS,
                grid.cols() == CHUNK_SIZE,
                1 <= x < 15,
                1 <= y < 15,
                forall|a: int, b: int|
                    0 <= a < dy && 0 <= b < 3 ==> #[trigger] out@[a * 3 + b] == grid.cells()[(y + a
                        - 1) * 16 + (x + b - 1)],
            decreases 3 - dy,
        {
            let mut dx: usize = 0;
            while dx < 3
                invariant
                    dy < 3,
                    dx <= 3,
                    out.len() == dy * 3 + dx,
                    grid.cells().len() == CHUNK_CELLS,
                    grid.cols() == CHUNK_SIZE,
                    1 <= x < 15,
                    1 <= y < 15,
                    forall|a: int, b: int|
                        (0 <= a < dy && 0 <= b < 3) || (a == dy && 0 <= b < dx) ==> #[trigger] out@[a
                            * 3 + b] == grid.cells()[(y + a - 1) * 16 + (x + b - 1)],
                decreases 3 - dx,
            {
                out.push(grid.get(y + dy - 1, x + dx - 1));
                dx = dx + 1;
            }
            dy = dy + 1;
        }
        ByteGrid::from_rows(3, 3, out)
    }

    pub fn get_possible_patterns(&self, neighborhood: &ByteGrid) -> (r: Vec<&ByteGrid>)
        requires
            self.wf(),
            neighborhood.cells().len() == 9,
            neighborhood.cols() == 3,
        ensures
            r@.map_values(|p: &ByteGrid| *p) == fitting(self.patterns(), neighborhood.cells()[4]),
    {
        let mut out: Vec<&ByteGrid> = Vec::new();
        let mut i: usize = 0;
        while i < self.patterns.len()
            invariant
                i <= self.patterns.len(),
                self.wf(),
                neighborhood.cells().len() == 9,
                neighborhood.cols() == 3,
                out@.map_values(|p: &ByteGrid| *p) == fitting(
                    self.patterns@.subrange(0, i as int),
                    neighborhood.cells()[4],
                ),
            decreases self.patterns.len() - i,
        {
            let p = &self.patterns[i];
            proof {
                let next = self.patterns@.subrange(0, i + 1);
                assert(next.drop_last() =~= self.patterns@.subrange(0, i as int));
                assert(next.last() == *p);
            }
            let ghost before = out@;
            assert(is_tile(self.patterns()[i as int]));
            if self.pattern_fits(p, neighborhood) {
                out.push(p);
                assert(out@.map_values(|q: &ByteGrid| *q) =~= before.map_values(|q: &ByteGrid| *q).push(*p));
            }
            i = i + 1;
        }
        assert(self.patterns@.subrange(0, self.patterns.len() as int) =~= self.patterns@);
        out
    }

    /// One relaxation pass over the interior cells, in row-major order.
    pub fn apply_wfc(&mut self, grid: &mut ByteGrid)
        requires
            old(self).wf(),
            old(grid).cells().len() == CHUNK_CELLS,
            old(grid).cols() == CHUNK_SIZE,
        ensures
            final(self).patterns() == old(self).patterns(),
            final(grid).cells().len() == CHUNK_CELLS,
            final(grid).cols() == CHUNK_SIZE,
            forall|i: int|
                0 <= i < CHUNK_CELLS && !is_interior(i) ==> #[trigger] final(grid).cells()[i] == old(
                    grid,
                ).cells()[i],
            forall|i: int|
                0 <= i < CHUNK_CELLS && is_interior(i) ==> relaxed(
                    old(self).patterns(),
                    old(grid).cells()[i],
                    #[trigger] final(grid).cells()[i],
                ),
    {
        let ghost g0 = grid.cells();
        let mut y: usize = 1;
        while y < 15
            invariant
                1 <= y <= 15,
                grid.cells().len() == CHUNK_CELLS,
                grid.cols() == CHUNK_SIZE,
                self.wf(),
                self.patterns() == old(self).patterns(),
                g0 == old(grid).cells(),
                forall|i: int|
                    0 <= i < CHUNK_CELLS && (!is_interior(i) || i >= y * 16) ==> #[trigger] grid.cells()[i]
                        == g0[i],
                forall|i: int|
                    0 <= i < CHUNK_CELLS && is_interior(i) && i < y * 16 ==> relaxed(
                        self.patterns(),
                        g0[i],
                        #[trigger] grid.cells()[i],
                    ),
            decreases 15 - y,
        {
            let mut x: usize = 1;
            while x < 15
                invariant
                    1 <= y < 15,
                    1 <= x <= 15,
                    grid.cells().len() == CHUNK_CELLS,
                    grid.cols() == CHUNK_SIZE,
                    self.wf(),
                    self.patterns() == old(self).patterns(),
                    g0 == old(grid).cells(),
                    forall|i: int|
                        0 <= i < CHUNK_CELLS && (!is_interior(i) || i >= y * 16 + x) ==> #[trigger] grid.cells()[i]
                            == g0[i],
                    forall|i: int|
                        0 <= i < CHUNK_CELLS && is_interior(i) && i < y * 16 + x ==> relaxed(
                            self.patterns(),
                            g0[i],
                            #[trigger] grid.cells()[i],
                        ),
                decreases 15 - x,
            {
                let idx = y * CHUNK_SIZE + x;
                assert(is_interior(idx as int));
                let neighborhood = self.get_neighborhood(grid, y, x);
                assert(neighborhood.cells()[4] == neighborhood.cells()[(1 * 3 + 1) as int]);
                assert(neighborhood.cells()[4] == g0[idx as int]);
                let ghost center = g0[idx as int];
                proof {
                    lemma_fitting_members(self.patterns(), center);
                }
                let n = self.get_possible_patterns(&neighborhood).len();
                let chosen_value: Option<u8> = if n > 0 {
                    let k = pick_index(&mut self.rng, n);
                    let possible = self.get_possible_patterns(&neighborhood);
                    let ghost fit = possible@.map_values(|p: &ByteGrid| *p);
                    assert(fit[k as int] == *possible@[k as int]);
                    let chosen = possible[k];
                    assert(self.patterns().contains(*chosen) && fits(*chosen, center));
                    let ghost j = self.patterns().index_of(*chosen);
                    assert(is_tile(self.patterns()[j]));
                    let v = chosen.get(1, 1);
                    assert(tile_value(*chosen) == v);
                    assert(fit.len() == n);
                    assert(fitting(self.patterns(), center).len() > 0);
                    assert(relaxed(self.patterns(), center, v));
                    Some(v)
                } else {
                    None
                };
                match chosen_value {
                    Some(v) => {
                        grid.set(y, x, v);
                    },
                    None => {},
                }
                assert(relaxed(self.patterns(), center, grid.cells()[idx as int]));
                x = x + 1;
            }
            assert forall|i: int| 0 <= i < CHUNK_CELLS && is_interior(i) && i < (y + 1) * 16 implies i < y * 16 + 15 by {}
            y = y + 1;
        }
    }

    /// Thresholds the noise samples (raw values in thousandths) into an
    /// occupancy grid, then relaxes it once.
    pub fn generate_chunk(&mut self, noise: &Vec<i32>) -> (r: ByteGrid)
        requires
            old(self).wf(),
            noise.len() == CHUNK_CELLS,
        ensures
            final(self).patterns() == old(self).patterns(),
            r.cells().len() == CHUNK_CELLS,
            r.cols() == CHUNK_SIZE,
            forall|i: int|
                0 <= i < CHUNK_CELLS && !is_interior(i) ==> #[trigger] r.cells()[i] == occupancy(noise@[i]),
            forall|i: int|
                0 <= i < CHUNK_CELLS && is_interior(i) ==> relaxed(
                    old(self).patterns(),
                    occupancy(noise@[i]),
                    #[trigger] r.cells()[i],
                ),
    {
        let mut grid: Vec<u8> = Vec::new();
        let mut i: usize = 0;
        while i < CHUNK_CELLS
            invariant
                i <= CHUNK_CELLS,
                noise.len() == CHUNK_CELLS,
                grid.len() == i,
                forall|j: int| 0 <= j < i ==> #[trigger] grid@[j] == occupancy(noise@[j]),
            decreases CHUNK_CELLS - i,
        {
            let v: u8 = if noise[i] > 300 { 1 } else { 0 };
            grid.push(v);
            i = i + 1;
        }
        let mut grid = ByteGrid::from_rows(CHUNK_SIZE, CHUNK_SIZE, grid);
        self.apply_wfc(&mut grid);
        grid
    }
}

} // verus!
