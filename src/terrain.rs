//! Terrain cells built from normalized noise samples.
//!
//! Every normalized quantity is held in thousandths: `0` stands for 0.0 and
//! `1000` for 1.0. Sampling the coherent-noise fields is done by the caller;
//! this module turns samples into biomes, features and whole chunks.
use vstd::prelude::*;

verus! {

/// Width and height of a chunk, in cells.
pub const CHUNK_SIZE: usize = 16;

/// Number of cells in a chunk.
pub const CHUNK_CELLS: usize = 256;

/// The normalized value 1.0, in thousandths.
pub const UNIT: u32 = 1000;

#[derive(Clone, Copy, Debug, PartialEq, Eq, Structural)]
pub enum Biome {
    Forest,
    Desert,
    Mountain,
    Lake,
    Cave,
}

/// A feature placed on a cell. Sizes are in thousandths of a unit.
#[derive(Clone, Copy, Debug, PartialEq, Eq)]
pub enum TerrainFeature {
    Tree { height: u32, type_id: u8 },
    Rock { size: u32 },
    Water { depth: u32 },
    Portal { destination: (i32, i32) },
    Treasure { rarity: u8 },
}

/// The four normalized noise samples taken for one cell.
#[derive(Clone, Copy, Debug, PartialEq, Eq, Structural)]
pub struct CellSample {
    pub height: u32,
    pub moisture: u32,
    pub temperature: u32,
    pub feature: u32,
}

#[derive(Clone, Debug, PartialEq, Eq)]
pub struct TerrainCell {
    pub height: u32,
    pub moisture: u32,
    pub temperature: u32,
    pub biome: Biome,
    pub features: Vec<TerrainFeature>,
}

/// The mathematical value of a cell.
pub struct CellView {
    pub height: u32,
    pub moisture: u32,
    pub temperature: u32,
    pub biome: Biome,
    pub features: Seq<TerrainFeature>,
}

impl View for TerrainCell {
    type V = CellView;

    open spec fn view(&self) -> CellView {
        CellView {
            height: self.height,
            moisture: self.moisture,
            temperature: self.temperature,
            biome: self.biome,
            features: self.features@,
        }
    }
}

pub open spec fn sample_valid(s: CellSample) -> bool {
    &&& s.height <= UNIT
    &&& s.moisture <= UNIT
    &&& s.temperature <= UNIT
    &&& s.feature <= UNIT
}

/// The biome decision, checked top to bottom; the first match wins.
pub open spec fn biome_of(height: int, moisture: int, temperature: int) -> Biome {
    if height > 800 {
        Biome::Mountain
    } else if height < 300 && moisture > 600 {
        Biome::Lake
    } else if moisture > 600 && temperature > 400 {
        Biome::Forest
    } else if moisture < 300 && temperature > 600 {
        Biome::Desert
    } else {
        Biome::Cave
    }
}

/// Region of the sample space that the decision order gives to each biome,
/// written without reference to the order.
pub open spec fn in_region(b: Biome, h: int, m: int, t: int) -> bool {
    let mountain = h > 800;
    let lake = h <= 800 && h < 300 && m > 600;
    let forest = h <= 800 && !(h < 300 && m > 600) && m > 600 && t > 400;
    let desert = h <= 800 && !(h < 300 && m > 600) && !(m > 600 && t > 400) && m < 300 && t > 600;
    match b {
        Biome::Mountain => mountain,
        Biome::Lake => lake,
        Biome::Forest => forest,
        Biome::Desert => desert,
        Biome::Cave => !mountain && !lake && !forest && !desert,
    }
}

/// Classification is total and exclusive: every triple lies in exactly one
/// biome's region, and that biome is the one the decision order returns.
pub proof fn lemma_biome_total_exclusive(h: int, m: int, t: int)
    ensures
        in_region(biome_of(h, m, t), h, m, t),
        forall|b: Biome| #[trigger] in_region(b, h, m, t) ==> b == biome_of(h, m, t),
{
}

pub fn determine_biome(height: u32, moisture: u32, temperature: u32) -> (r: Biome)
    ensures
        r == biome_of(height as int, moisture as int, temperature as int),
{
    if height > 800 {
        Biome::Mountain
    } else if height < 300 && moisture > 600 {
        Biome::Lake
    } else if moisture > 600 && temperature > 400 {
        Biome::Forest
    } else if moisture < 300 && temperature > 600 {
        Biome::Desert
    } else {
        Biome::Cave
    }
}

pub open spec fn tree_of(f: int) -> TerrainFeature {
    TerrainFeature::Tree { height: (4 * f) as u32, type_id: (3 * f / 1000) as u8 }
}

pub open spec fn rock_of(f: int) -> TerrainFeature {
    TerrainFeature::Rock { size: (f + 500) as u32 }
}

pub open spec fn water_of(f: int) -> TerrainFeature {
    TerrainFeature::Water { depth: (3 * f) as u32 }
}

pub open spec fn treasure_of(f: int) -> TerrainFeature {
    TerrainFeature::Treasure { rarity: (10 * f / 1000) as u8 }
}

/// The feature that a biome places, gated by the feature sample.
pub open spec fn biome_feature(f: int, b: Biome) -> Seq<TerrainFeature> {
    match b {
        Biome::Forest => if f > 700 { seq![tree_of(f)] } else { Seq::empty() },
        Biome::Mountain => if f > 600 { seq![rock_of(f)] } else { Seq::empty() },
        Biome::Lake => seq![water_of(f)],
        _ => Seq::empty(),
    }
}

/// All features of a freshly sampled cell: the biome feature, then a
/// treasure on a very high feature sample.
pub open spec fn features_of(f: int, b: Biome) -> Seq<TerrainFeature> {
    if f > 950 {
        biome_feature(f, b).push(treasure_of(f))
    } else {
        biome_feature(f, b)
    }
}

pub fn generate_features(feature: u32, biome: Biome) -> (r: Vec<TerrainFeature>)
    requires
        feature <= UNIT,
    ensures
        r@ == features_of(feature as int, biome),
{
    let mut features: Vec<TerrainFeature> = Vec::new();
    match biome {
        Biome::Forest => {
            if feature > 700 {
                features.push(TerrainFeature::Tree { height: 4 * feature, type_id: (3 * feature / 1000) as u8 });
            }
        },
        Biome::Mountain => {
            if feature > 600 {
                features.push(TerrainFeature::Rock { size: feature + 500 });
            }
        },
        Biome::Lake => {
            features.push(TerrainFeature::Water { depth: 3 * feature });
        },
        _ => {},
    }
    if feature > 950 {
        features.push(TerrainFeature::Treasure { rarity: (10 * feature / 1000) as u8 });
    }
    features
}

/// The cell that one sample yields, before chunk-level refinement.
pub open spec fn cell_of(s: CellSample) -> CellView {
    let b = biome_of(s.height as int, s.moisture as int, s.temperature as int);
    CellView {
        height: s.height,
        moisture: s.moisture,
        temperature: s.temperature,
        biome: b,
        features: features_of(s.feature as int, b),
    }
}

pub fn build_cell(s: CellSample) -> (r: TerrainCell)
    requires
        sample_valid(s),
    ensures
        r@ == cell_of(s),
{
    let biome = determine_biome(s.height, s.moisture, s.temperature);
    let features = generate_features(s.feature, biome);
    TerrainCell {
        height: s.height,
        moisture: s.moisture,
        temperature: s.temperature,
        biome,
        features,
    }
}

pub open spec fn cells_view(v: Seq<TerrainCell>) -> Seq<CellView> {
    v.map_values(|c: TerrainCell| c@)
}

/// The 16×16 cells of a chunk, backed by `ndarray::Array2<TerrainCell>`.
#[verifier::external_body]
#[derive(Debug)]
pub struct TerrainGrid {
    cells: ndarray::Array2<TerrainCell>,
}

/// The cells of a chunk grid, row by row.
pub uninterp spec fn terrain_cells(g: TerrainGrid) -> Seq<TerrainCell>;

/// Relies on `ndarray::Array2::from_shape_vec`: 256 values make a 16×16
/// array, laid out row by row.
#[verifier::external_body]
fn terrain_from_vec(v: Vec<TerrainCell>) -> (r: TerrainGrid)
    requires
        v.len() == CHUNK_CELLS,
    ensures
        terrain_cells(r) == v@,
{
    TerrainGrid { cells: ndarray::Array2::from_shape_vec((CHUNK_SIZE, CHUNK_SIZE), v).unwrap() }
}

/// Relies on indexing an `ndarray::Array2` by `[row, column]`.
#[verifier::external_body]
fn terrain_at(g: &TerrainGrid, y: usize, x: usize) -> (r: &TerrainCell)
    requires
        terrain_cells(*g).len() == CHUNK_CELLS,
        x < CHUNK_SIZE,
        y < CHUNK_SIZE,
    ensures
        *r == terrain_cells(*g)[cell_index(x as int, y as int)],
{
    &g.cells[[y, x]]
}

/// Relies on mutable indexing of an `ndarray::Array2` by `[row, column]`.
#[verifier::external_body]
fn terrain_put(g: &mut TerrainGrid, y: usize, x: usize, c: TerrainCell)
    requires
        terrain_cells(*old(g)).len() == CHUNK_CELLS,
        x < CHUNK_SIZE,
        y < CHUNK_SIZE,
    ensures
        terrain_cells(*final(g)) == terrain_cells(*old(g)).update(cell_index(x as int, y as int), c),
{
    g.cells[[y, x]] = c;
}

impl Clone for TerrainGrid {
    /// Relies on `Clone` for `ndarray::Array2`: every cell is cloned, and
    /// `TerrainCell`'s derived `Clone` copies each field.
    #[verifier::external_body]
    fn clone(&self) -> (r: TerrainGrid)
        ensures
            r == *self,
    {
        TerrainGrid { cells: self.cells.clone() }
    }
}

impl TerrainGrid {
    /// The cells, row by row, as values.
    pub open spec fn view_cells(&self) -> Seq<CellView> {
        cells_view(terrain_cells(*self))
    }

    pub open spec fn wf(&self) -> bool {
        terrain_cells(*self).len() == CHUNK_CELLS
    }

    /// The cell in row `y`, column `x`.
    pub fn cell(&self, y: usize, x: usize) -> (r: &TerrainCell)
        requires
            self.wf(),
            x < CHUNK_SIZE,
            y < CHUNK_SIZE,
        ensures
            r@ == self.view_cells()[cell_index(x as int, y as int)],
    {
        terrain_at(self, y, x)
    }
}

pub open spec fn cell_index(x: int, y: int) -> int {
    y * CHUNK_SIZE as int + x
}

pub open spec fn interior(x: int, y: int) -> bool {
    1 <= x < 15 && 1 <= y < 15
}

pub open spec fn has_water(f: Seq<TerrainFeature>) -> bool {
    exists|i: int| 0 <= i < f.len() && (#[trigger] f[i]) is Water
}

/// A cell that can hold a portal: flat and dry.
pub open spec fn suitable(c: CellView) -> bool {
    300 < c.height < 700 && !has_water(c.features)
}

/// Whether `(x, y)` comes before `(x2, y2)` in row-major scan order.
pub open spec fn scans_before(x: int, y: int, x2: int, y2: int) -> bool {
    y < y2 || (y == y2 && x < x2)
}

/// `(x, y)` is the first suitable interior cell in row-major scan order.
pub open spec fn is_first_spot(cells: Seq<CellView>, x: int, y: int) -> bool {
    &&& interior(x, y)
    &&& suitable(cells[cell_index(x, y)])
    &&& forall|x2: int, y2: int|
        interior(x2, y2) && scans_before(x2, y2, x, y) ==> !suitable(
            #[trigger] cells[cell_index(x2, y2)],
        )
}

pub open spec fn has_spot(cells: Seq<CellView>) -> bool {
    exists|x: int, y: int| is_first_spot(cells, x, y)
}

pub open spec fn with_portal(c: CellView, destination: (i32, i32)) -> CellView {
    CellView { features: c.features.push(TerrainFeature::Portal { destination }), ..c }
}

/// Chunk-level refinement: on a portal sample above 0.9, the first suitable
/// interior cell receives a portal to `destination`.
pub open spec fn refine(cells: Seq<CellView>, portal_sample: int, destination: (i32, i32)) -> Seq<
    CellView,
> {
    if portal_sample > 900 && has_spot(cells) {
        let (x, y) = choose|x: int, y: int| is_first_spot(cells, x, y);
        cells.update(cell_index(x, y), with_portal(cells[cell_index(x, y)], destination))
    } else {
        cells
    }
}

/// The chunk that a grid of samples yields.
pub open spec fn chunk_of(samples: Seq<CellSample>, portal_sample: int, destination: (i32, i32)) -> Seq<
    CellView,
> {
    refine(samples.map_values(|s: CellSample| cell_of(s)), portal_sample, destination)
}

pub open spec fn samples_valid(samples: Seq<CellSample>) -> bool {
    &&& samples.len() == CHUNK_CELLS
    &&& forall|i: int| 0 <= i < samples.len() ==> sample_valid(#[trigger] samples[i])
}

/// Generation is deterministic: two grids built from the same samples,
/// portal sample and destination hold exactly the same cells.
pub proof fn lemma_generate_deterministic(
    samples: Seq<CellSample>,
    portal_sample: int,
    destination: (i32, i32),
    first: Seq<TerrainCell>,
    second: Seq<TerrainCell>,
)
    requires
        cells_view(first) == chunk_of(samples, portal_sample, destination),
        cells_view(second) == chunk_of(samples, portal_sample, destination),
    ensures
        first.len() == second.len(),
        forall|i: int| 0 <= i < first.len() ==> (#[trigger] first[i])@ == second[i]@,
{
    assert(cells_view(first).len() == first.len());
    assert(cells_view(second).len() == second.len());
    assert forall|i: int| 0 <= i < first.len() implies (#[trigger] first[i])@ == second[i]@ by {
        assert(cells_view(first)[i] == first[i]@);
        assert(cells_view(second)[i] == second[i]@);
    }
}

proof fn lemma_first_spot_unique(cells: Seq<CellView>, x1: int, y1: int, x2: int, y2: int)
    requires
        is_first_spot(cells, x1, y1),
        is_first_spot(cells, x2, y2),
    ensures
        x1 == x2 && y1 == y2,
{
    if scans_before(x1, y1, x2, y2) {
        assert(!suitable(cells[cell_index(x1, y1)]));
    } else if scans_before(x2, y2, x1, y1) {
        assert(!suitable(cells[cell_index(x2, y2)]));
    }
}

fn contains_water(features: &Vec<TerrainFeature>) -> (r: bool)
    ensures
        r == has_water(features@),
{
    let mut i: usize = 0;
    while i < features.len()
        invariant
            i <= features.len(),
            forall|j: int| 0 <= j < i ==> !(#[trigger] features@[j] is Water),
        decreases features.len() - i,
    {
        if let TerrainFeature::Water { .. } = features[i] {
            return true;
        }
        i = i + 1;
    }
    false
}

pub fn find_suitable_portal_location(terrain: &TerrainGrid) -> (r: Option<(usize, usize)>)
    requires
        terrain.wf(),
    ensures
        match r {
            Some((x, y)) => is_first_spot(terrain.view_cells(), x as int, y as int),
            None => !has_spot(terrain.view_cells()),
        },
{
    let ghost cells = terrain.view_cells();
    let mut y: usize = 1;
    while y < 15
        invariant
            1 <= y <= 15,
            terrain.wf(),
            cells == terrain.view_cells(),
            forall|x2: int, y2: int|
                interior(x2, y2) && y2 < y ==> !suitable(#[trigger] cells[cell_index(x2, y2)]),
        decreases 15 - y,
    {
        let mut x: usize = 1;
        while x < 15
            invariant
                1 <= y < 15,
                1 <= x <= 15,
                terrain.wf(),
                cells == terrain.view_cells(),
                forall|x2: int, y2: int|
                    interior(x2, y2) && scans_before(x2, y2, x as int, y as int) ==> !suitable(
                        #[trigger] cells[cell_index(x2, y2)],
                    ),
            decreases 15 - x,
        {
            let cell = terrain.cell(y, x);
            if cell.height > 300 && cell.height < 700 && !contains_water(&cell.features) {
                return Some((x, y));
            }
            x = x + 1;
        }
        y = y + 1;
    }
    proof {
        if has_spot(cells) {
            let (x, y) = choose|x: int, y: int| is_first_spot(cells, x, y);
            assert(!suitable(cells[cell_index(x, y)]));
        }
    }
    None
}

pub fn add_special_features(terrain: &mut TerrainGrid, portal_sample: u32, destination: (i32, i32))
    requires
        old(terrain).wf(),
    ensures
        final(terrain).wf(),
        final(terrain).view_cells() == refine(old(terrain).view_cells(), portal_sample as int, destination),
{
    let ghost cells = terrain.view_cells();
    if portal_sample > 900 {
        match find_suitable_portal_location(terrain) {
            Some((x, y)) => {
                let mut cell = terrain.cell(y, x).clone_cell();
                cell.features.push(TerrainFeature::Portal { destination });
                terrain_put(terrain, y, x, cell);
                proof {
                    let (cx, cy) = choose|cx: int, cy: int| is_first_spot(cells, cx, cy);
                    lemma_first_spot_unique(cells, x as int, y as int, cx, cy);
                    assert(terrain.view_cells() =~= refine(cells, portal_sample as int, destination));
                }
            },
            None => {},
        }
    }
}

pub fn generate_chunk(samples: &Vec<CellSample>, portal_sample: u32, destination: (i32, i32)) -> (r:
    TerrainGrid)
    requires
        samples_valid(samples@),
    ensures
        r.wf(),
        r.view_cells() == chunk_of(samples@, portal_sample as int, destination),
{
    let mut terrain: Vec<TerrainCell> = Vec::new();
    let mut i: usize = 0;
    while i < CHUNK_CELLS
        invariant
            i <= CHUNK_CELLS,
            samples_valid(samples@),
            terrain.len() == i,
            forall|j: int| 0 <= j < i ==> (#[trigger] terrain@[j])@ == cell_of(samples@[j]),
        decreases CHUNK_CELLS - i,
    {
        terrain.push(build_cell(samples[i]));
        i = i + 1;
    }
    assert(cells_view(terrain@) =~= samples@.map_values(|s: CellSample| cell_of(s)));
    let mut grid = terrain_from_vec(terrain);
    add_special_features(&mut grid, portal_sample, destination);
    grid
}

impl TerrainCell {
    /// A copy of this cell.
    pub fn clone_cell(&self) -> (r: TerrainCell)
        ensures
            r@ == self@,
    {
        let mut features: Vec<TerrainFeature> = Vec::new();
        let mut i: usize = 0;
        while i < self.features.len()
            invariant
                i <= self.features.len(),
                features@ == self.features@.subrange(0, i as int),
            decreases self.features.len() - i,
        {
            features.push(self.features[i]);
            i = i + 1;
            assert(features@ =~= self.features@.subrange(0, i as int));
        }
        assert(features@ =~= self.features@);
        TerrainCell {
            height: self.height,
            moisture: self.moisture,
            temperature: self.temperature,
            biome: self.biome,
            features,
        }
    }
}

} // verus!
