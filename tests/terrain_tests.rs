use maze_world::terrain::{
    build_cell, determine_biome, find_suitable_portal_location, generate_chunk, generate_features,
    Biome, CellSample, TerrainFeature, TerrainGrid, CHUNK_CELLS, CHUNK_SIZE,
};

fn same_grid(a: &TerrainGrid, b: &TerrainGrid) -> bool {
    (0..CHUNK_SIZE).all(|y| (0..CHUNK_SIZE).all(|x| a.cell(y, x) == b.cell(y, x)))
}

fn all_featureless(g: &TerrainGrid) -> bool {
    (0..CHUNK_SIZE).all(|y| (0..CHUNK_SIZE).all(|x| g.cell(y, x).features.is_empty()))
}

fn flat_samples(height: u32, moisture: u32, temperature: u32, feature: u32) -> Vec<CellSample> {
    (0..CHUNK_CELLS)
        .map(|_| CellSample { height, moisture, temperature, feature })
        .collect()
}

fn varied_samples(seed: u32) -> Vec<CellSample> {
    (0..CHUNK_CELLS as u32)
        .map(|i| CellSample {
            height: (i * 37 + seed) % 1001,
            moisture: (i * 53 + seed * 7) % 1001,
            temperature: (i * 91 + seed * 3) % 1001,
            feature: (i * 17 + seed * 11) % 1001,
        })
        .collect()
}

#[test]
fn biome_decision_order() {
    assert_eq!(determine_biome(900, 900, 900), Biome::Mountain);
    assert_eq!(determine_biome(801, 0, 0), Biome::Mountain);
    assert_eq!(determine_biome(800, 700, 500), Biome::Forest);
    assert_eq!(determine_biome(200, 700, 900), Biome::Lake);
    assert_eq!(determine_biome(500, 700, 500), Biome::Forest);
    assert_eq!(determine_biome(500, 200, 700), Biome::Desert);
    assert_eq!(determine_biome(500, 500, 500), Biome::Cave);
    assert_eq!(determine_biome(300, 700, 300), Biome::Cave);
}

#[test]
fn every_triple_gets_one_biome() {
    let mut seen = std::collections::HashSet::new();
    for h in (0..=1000).step_by(50) {
        for m in (0..=1000).step_by(50) {
            for t in (0..=1000).step_by(50) {
                let b = determine_biome(h, m, t);
                assert_eq!(b, determine_biome(h, m, t));
                seen.insert(format!("{:?}", b));
            }
        }
    }
    assert_eq!(seen.len(), 5);
}

#[test]
fn features_by_biome() {
    assert_eq!(generate_features(800, Biome::Forest), vec![TerrainFeature::Tree { height: 3200, type_id: 2 }]);
    assert!(generate_features(700, Biome::Forest).is_empty());
    assert_eq!(generate_features(650, Biome::Mountain), vec![TerrainFeature::Rock { size: 1150 }]);
    assert!(generate_features(600, Biome::Mountain).is_empty());
    assert_eq!(generate_features(100, Biome::Lake), vec![TerrainFeature::Water { depth: 300 }]);
    assert!(generate_features(900, Biome::Desert).is_empty());
}

#[test]
fn treasure_is_added_on_top() {
    assert_eq!(
        generate_features(960, Biome::Forest),
        vec![TerrainFeature::Tree { height: 3840, type_id: 2 }, TerrainFeature::Treasure { rarity: 9 }]
    );
    assert_eq!(generate_features(1000, Biome::Cave), vec![TerrainFeature::Treasure { rarity: 10 }]);
    assert!(generate_features(950, Biome::Cave).is_empty());
}

#[test]
fn cell_from_sample() {
    let c = build_cell(CellSample { height: 200, moisture: 700, temperature: 100, feature: 10 });
    assert_eq!(c.biome, Biome::Lake);
    assert_eq!(c.height, 200);
    assert_eq!(c.moisture, 700);
    assert_eq!(c.temperature, 100);
    assert_eq!(c.features, vec![TerrainFeature::Water { depth: 30 }]);
}

#[test]
fn generation_is_deterministic() {
    let s = varied_samples(42);
    let a = generate_chunk(&s, 950, (3, -7));
    let b = generate_chunk(&s, 950, (3, -7));
    assert!(same_grid(&a, &b));
    assert!(same_grid(&a.clone(), &a));
}

#[test]
fn portal_goes_to_first_flat_dry_interior_cell() {
    let mut s = flat_samples(900, 100, 100, 100);
    s[2 * 16 + 5].height = 500;
    s[3 * 16 + 1].height = 500;
    let chunk = generate_chunk(&s, 901, (10, 12));
    assert_eq!(chunk.cell(2, 5).features, vec![TerrainFeature::Portal { destination: (10, 12) }]);
    assert!(chunk.cell(3, 1).features.is_empty());
    assert_eq!(find_suitable_portal_location(&chunk), Some((5, 2)));
}

#[test]
fn no_portal_below_threshold_or_without_spot() {
    let mut s = flat_samples(900, 100, 100, 100);
    s[2 * 16 + 5].height = 500;
    let chunk = generate_chunk(&s, 900, (10, 12));
    assert!(all_featureless(&chunk));
    let mountains = generate_chunk(&flat_samples(900, 100, 100, 100), 1000, (1, 1));
    assert!(all_featureless(&mountains));
    assert_eq!(find_suitable_portal_location(&mountains), None);
}

#[test]
fn wet_cells_do_not_hold_portals() {
    let mut s = flat_samples(900, 100, 100, 100);
    s[1 * 16 + 1] = CellSample { height: 290, moisture: 700, temperature: 100, feature: 100 };
    s[1 * 16 + 2] = CellSample { height: 310, moisture: 700, temperature: 500, feature: 100 };
    let chunk = generate_chunk(&s, 1000, (0, 5));
    assert_eq!(chunk.cell(1, 1).features, vec![TerrainFeature::Water { depth: 300 }]);
    assert_eq!(chunk.cell(1, 2).features, vec![TerrainFeature::Portal { destination: (0, 5) }]);
}
