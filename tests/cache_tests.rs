use terrain_assets::cache::{CachedSample, ElevationCache, CACHE_CAPACITY};
use terrain_assets::raster::Tile;

fn extent(c: usize) -> u32 {
    if c < 19 {
        512
    } else {
        284
    }
}

fn chunk(index: usize, v: u32) -> Tile {
    let w = extent(index % 20);
    let h = extent(index / 20);
    Tile { data: vec![v; (w * h) as usize], width: w, height: h }
}

#[test]
fn overflow_evicts_the_least_recently_used() {
    let mut c = ElevationCache::new(3);
    for k in 0..3usize {
        assert!(!c.touch(k));
        assert_eq!(c.insert(k, chunk(k, k as u32)), None);
    }
    assert!(!c.touch(3));
    assert_eq!(c.insert(3, chunk(3, 3)), Some(0));
    assert_eq!(c.len(), 3);
    assert!(!c.touch(0));
}

#[test]
fn hit_moves_entry_to_most_recent() {
    let mut c = ElevationCache::new(3);
    for k in 0..3usize {
        c.insert(k, chunk(k, 10 + k as u32));
    }
    assert!(c.touch(0));
    assert_eq!(c.latest().data[0], 10);
    assert_eq!(c.insert(5, chunk(5, 15)), Some(1));
    assert_eq!(c.insert(6, chunk(6, 16)), Some(2));
    assert_eq!(c.insert(7, chunk(7, 17)), Some(0));
}

#[test]
fn default_capacity_holds_eleven_chunks() {
    let mut c = ElevationCache::new(CACHE_CAPACITY);
    assert_eq!(c.capacity(), 11);
    for k in 0..11usize {
        assert_eq!(c.insert(k * 3, chunk(k * 3, k as u32)), None);
    }
    assert_eq!(c.insert(100, chunk(100, 100)), Some(0));
    for k in 1..11usize {
        assert!(c.touch(k * 3));
    }
    assert!(c.touch(100));
    assert_eq!(c.latest().data[0], 100);
}

#[test]
fn sampling_reports_off_grid_and_misses() {
    let mut c = ElevationCache::new(2);
    assert_eq!(c.sample(-1, 0), CachedSample::OffGrid);
    assert_eq!(c.sample(0, 10240), CachedSample::OffGrid);
    assert_eq!(c.sample(600, 5), CachedSample::Miss(1));
    assert_eq!(c.sample(10239, 10239), CachedSample::Miss(399));
    assert_eq!(c.len(), 0);
}

#[test]
fn sampling_hits_read_the_held_chunk() {
    let mut c = ElevationCache::new(2);
    let mut t = chunk(1, 0);
    t.data[5 * 512 + (600 - 512)] = 33;
    c.insert(1, t);
    c.insert(2, chunk(2, 4));
    assert_eq!(c.sample(600, 5), CachedSample::Hit(33));
    assert_eq!(c.sample(601, 5), CachedSample::Hit(0));
    // chunk 1 is now the most recent, so chunk 2 leaves first
    assert_eq!(c.insert(3, chunk(3, 0)), Some(2));
    let mut last = chunk(399, 0);
    last.data[283 * 284 + 283] = 9;
    c.insert(399, last);
    assert_eq!(c.sample(10239, 10100), CachedSample::Hit(9));
}
