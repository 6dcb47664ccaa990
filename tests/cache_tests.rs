use maze_world::chunk_cache::{ChunkCache, ChunkData, DEFAULT_CACHE_CAPACITY};
use maze_world::terrain::{generate_chunk, CellSample, CHUNK_CELLS, CHUNK_SIZE};

fn chunk(stamp: u64) -> ChunkData {
    let samples = vec![CellSample { height: 500, moisture: 500, temperature: 500, feature: 0 }; CHUNK_CELLS];
    ChunkData { terrain: generate_chunk(&samples, 0, (0, 0)), entities: Vec::new(), last_accessed: stamp }
}

#[test]
fn evicts_least_recently_used() {
    let mut c = ChunkCache::new(3);
    assert_eq!(c.insert(0, 0, chunk(1)), None);
    assert_eq!(c.insert(1, 0, chunk(2)), None);
    assert_eq!(c.insert(2, 0, chunk(3)), None);
    assert_eq!(c.insert(3, 0, chunk(4)), Some((0, 0)));
    assert!(!c.contains(0, 0));
    assert_eq!(c.insert(4, 0, chunk(5)), Some((1, 0)));
    assert!(c.contains(2, 0) && c.contains(3, 0) && c.contains(4, 0));
}

#[test]
fn access_protects_from_eviction() {
    let mut c = ChunkCache::new(2);
    c.insert(0, 0, chunk(1));
    c.insert(0, 1, chunk(2));
    assert!(c.touch(0, 0, 10));
    assert_eq!(c.insert(5, 5, chunk(3)), Some((0, 1)));
    assert!(c.contains(0, 0));
    let hit = c.lookup(0, 0, 20).expect("cached");
    assert_eq!(hit.last_accessed, 20);
    assert_eq!(c.insert(6, 6, chunk(4)), Some((5, 5)));
}

#[test]
fn miss_returns_none_and_changes_nothing() {
    let mut c = ChunkCache::new(2);
    c.insert(1, 1, chunk(1));
    assert!(c.lookup(9, 9, 5).is_none());
    assert!(!c.touch(9, 9, 5));
    assert!(c.contains(1, 1));
}

#[test]
fn reinserting_a_present_coordinate_evicts_nothing() {
    let mut c = ChunkCache::new(1);
    assert_eq!(c.insert(1, 1, chunk(1)), None);
    assert_eq!(c.insert(1, 1, chunk(2)), None);
    assert_eq!(c.lookup(1, 1, 3).map(|d| d.last_accessed), Some(3));
}

#[test]
fn default_capacity_holds_a_thousand() {
    let mut c = ChunkCache::with_default_capacity();
    for i in 0..DEFAULT_CACHE_CAPACITY as i32 {
        assert_eq!(c.insert(i, -i, chunk(i as u64)), None);
    }
    assert_eq!(c.insert(5000, 5000, chunk(0)), Some((0, 0)));
}

#[test]
fn cached_terrain_is_returned_whole() {
    let samples: Vec<CellSample> = (0..CHUNK_CELLS as u32)
        .map(|i| CellSample { height: i * 3 % 1001, moisture: 700, temperature: 500, feature: 800 })
        .collect();
    let terrain = generate_chunk(&samples, 0, (0, 0));
    let mut c = ChunkCache::new(4);
    c.insert(0, 0, ChunkData { terrain: terrain.clone(), entities: Vec::new(), last_accessed: 0 });
    let got = c.lookup(0, 0, 1).unwrap();
    for y in 0..CHUNK_SIZE {
        for x in 0..CHUNK_SIZE {
            assert_eq!(got.terrain.cell(y, x), terrain.cell(y, x));
        }
    }
}

#[test]
fn touch_stamps_the_chunk() {
    let mut c = ChunkCache::new(2);
    c.insert(4, 4, chunk(1));
    assert!(c.touch(4, 4, 99));
    assert_eq!(c.lookup(4, 4, 99).map(|d| d.last_accessed), Some(99));
}
