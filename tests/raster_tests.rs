use terrain_assets::raster::{LoadError, Region, Tile, UTMCoord, REGION_SIZE};

fn extent(c: u32) -> u32 {
    if c < 19 {
        512
    } else {
        284
    }
}

fn full_tiles() -> Vec<Tile> {
    (0..400u32)
        .map(|i| {
            let w = extent(i % 20);
            let h = extent(i / 20);
            Tile { data: vec![0u32; (w * h) as usize], width: w, height: h }
        })
        .collect()
}

fn coord() -> UTMCoord {
    UTMCoord { zone_number: 10, easting_bits: 500000.0f64.to_bits(), northing_bits: 5000000.0f64.to_bits() }
}

fn region_with(tiles: Vec<Tile>) -> Region {
    Region::from_parts("test".to_string(), coord(), (REGION_SIZE, REGION_SIZE), (512, 512), tiles)
        .ok()
        .expect("grid should load")
}

#[test]
fn from_parts_accepts_a_full_grid() {
    let r = region_with(full_tiles());
    assert_eq!(r.name(), "test");
    assert_eq!(r.coord(), coord());
    assert_eq!(r.tile(399).width, 284);
    assert_eq!(r.tile(18).width, 512);
}

#[test]
fn from_parts_rejects_wrong_raster_size() {
    let r = Region::from_parts("t".to_string(), coord(), (10000, 10012), (512, 512), full_tiles());
    assert_eq!(r.err(), Some(LoadError::RasterSize));
}

#[test]
fn from_parts_rejects_wrong_chunk_size() {
    let r = Region::from_parts("t".to_string(), coord(), (10012, 10012), (256, 512), full_tiles());
    assert_eq!(r.err(), Some(LoadError::ChunkSize));
}

#[test]
fn from_parts_rejects_wrong_tile_count() {
    let mut tiles = full_tiles();
    tiles.pop();
    let r = Region::from_parts("t".to_string(), coord(), (10012, 10012), (512, 512), tiles);
    assert_eq!(r.err(), Some(LoadError::TileCount));
}

#[test]
fn from_parts_rejects_misshapen_tile() {
    let mut tiles = full_tiles();
    tiles[5].data.pop();
    tiles[7].width = 284;
    let r = Region::from_parts("t".to_string(), coord(), (10012, 10012), (512, 512), tiles);
    assert_eq!(r.err(), Some(LoadError::TileShape(5)));
}

#[test]
fn tile_get_is_row_major() {
    let t = Tile { data: vec![1, 2, 3, 4, 5, 6], width: 3, height: 2 };
    assert_eq!(t.get(0, 0), 1);
    assert_eq!(t.get(2, 0), 3);
    assert_eq!(t.get(1, 1), 5);
}

#[test]
fn get_elevation_finds_chunk_and_local_sample() {
    let mut tiles = full_tiles();
    tiles[21].data[4 * 512 + 3] = 42;
    let r = region_with(tiles);
    assert_eq!(r.get_elevation(512 + 3, 512 + 4), 42);
    assert_eq!(r.get_elevation(512 + 4, 512 + 3), 0);
}

#[test]
fn get_elevation_clamps_into_the_raster() {
    let mut tiles = full_tiles();
    tiles[0].data[0] = 7;
    tiles[399].data[283 * 284 + 283] = 9;
    let r = region_with(tiles);
    assert_eq!(r.get_elevation(-5, -100), 7);
    assert_eq!(r.get_elevation(20000, 20000), 9);
    assert_eq!(r.get_elevation(10011, 10011), 9);
}

#[test]
fn sampling_is_idempotent() {
    let mut tiles = full_tiles();
    tiles[45].data[100] = 1234.5f32.to_bits();
    let r = region_with(tiles);
    let x = 5 * 512 + 100;
    let y = 2 * 512;
    let first = r.get_elevation(x, y);
    let second = r.get_elevation(x, y);
    assert_eq!(first, second);
    assert_eq!(f32::from_bits(first), 1234.5);
}

#[test]
fn try_get_elevation_reports_misses() {
    let mut tiles = full_tiles();
    tiles[399].data[283 * 284 + 283] = 9;
    let r = region_with(tiles);
    assert_eq!(r.try_get_elevation(-1, 10), None);
    assert_eq!(r.try_get_elevation(10, 10240), None);
    assert_eq!(r.try_get_elevation(10239, 10239), Some(9));
    assert_eq!(r.try_get_elevation(0, 0), Some(0));
}

#[test]
fn neighbors_follow_full_chunks() {
    let r = region_with(full_tiles());
    let n0 = r.neighbors(0);
    assert!(n0.next_x.is_some() && n0.next_y.is_some() && n0.corner.is_some());
    let n19 = r.neighbors(19);
    assert!(n19.next_x.is_none());
    assert_eq!(n19.next_y.map(|t| t.width), Some(284));
    assert!(n19.corner.is_none());
    let n380 = r.neighbors(380);
    assert_eq!(n380.next_x.map(|t| t.height), Some(284));
    assert!(n380.next_y.is_none() && n380.corner.is_none());
    let n399 = r.neighbors(399);
    assert!(n399.next_x.is_none() && n399.next_y.is_none() && n399.corner.is_none());
}

#[test]
fn adjacent_tiles_share_their_seam_column() {
    let mut tiles = full_tiles();
    tiles[1].data[5 * 512] = 77;
    tiles[21].data[0] = 88;
    let r = region_with(tiles);
    let left = r.stitched_heights(0);
    let right = r.stitched_heights(1);
    assert_eq!(left.len(), 513 * 513);
    assert_eq!(left[5 * 513 + 512], 77);
    assert_eq!(right[5 * 513], 77);
    assert_eq!(left[512 * 513 + 512], 88);
    assert_eq!(right[512 * 513], 88);
    for y in 0..513 {
        assert_eq!(left[y * 513 + 512], right[y * 513]);
    }
}

#[test]
fn trailing_tile_grid_has_no_seam() {
    let r = region_with(full_tiles());
    assert_eq!(r.stitched_heights(399).len(), 284 * 284);
    assert_eq!(r.stitched_heights(19).len(), 284 * 513);
}

#[test]
fn tile_get_reads_any_row_major_index_in_the_buffer() {
    let t = Tile { data: vec![1, 2, 3, 4, 5, 6], width: 3, height: 2 };
    assert_eq!(t.get(4, 0), 5);
    assert_eq!(t.get(5, 0), 6);
    assert_eq!(t.get(0, 1), 4);
}
