use terrain_assets::raster::{Tile, TileNeighbors};
use terrain_assets::terrain::{grid_extent, grid_heights, grid_sample, grid_triangles, local_faces, MeshError};

fn patterned(seed: u32) -> Tile {
    let data = (0..512u32 * 512).map(|i| seed * 1_000_000 + i).collect();
    Tile { data, width: 512, height: 512 }
}

#[test]
fn grid_extent_adds_a_seam_only_to_full_chunks() {
    assert_eq!(grid_extent(512), 513);
    assert_eq!(grid_extent(284), 284);
    assert_eq!(grid_extent(1), 1);
}

#[test]
fn stitched_grid_reads_neighbours_on_the_seams() {
    let a = patterned(1);
    let right = patterned(2);
    let below = patterned(3);
    let corner = patterned(4);
    let nb = TileNeighbors { next_x: Some(&right), next_y: Some(&below), corner: Some(&corner) };
    assert_eq!(grid_sample(&a, &nb, 10, 20), a.get(10, 20));
    assert_eq!(grid_sample(&a, &nb, 512, 20), right.get(0, 20));
    assert_eq!(grid_sample(&a, &nb, 10, 512), below.get(10, 0));
    assert_eq!(grid_sample(&a, &nb, 512, 512), corner.get(0, 0));
}

#[test]
fn horizontal_seam_matches_the_right_tile() {
    let left = patterned(1);
    let right = patterned(2);
    let below_left = patterned(3);
    let below_right = patterned(4);
    let beyond = patterned(5);
    let beyond_below = patterned(6);
    let nb_left = TileNeighbors { next_x: Some(&right), next_y: Some(&below_left), corner: Some(&below_right) };
    let nb_right = TileNeighbors { next_x: Some(&beyond), next_y: Some(&below_right), corner: Some(&beyond_below) };
    for y in 0..513u32 {
        assert_eq!(grid_sample(&left, &nb_left, 512, y), grid_sample(&right, &nb_right, 0, y));
    }
}

#[test]
fn grid_heights_of_a_trailing_tile_are_its_samples() {
    let t = Tile { data: vec![5, 6, 7, 8, 9, 10], width: 3, height: 2 };
    let nb = TileNeighbors { next_x: None, next_y: None, corner: None };
    assert_eq!(grid_heights(&t, &nb), vec![5, 6, 7, 8, 9, 10]);
}

#[test]
fn grid_heights_of_a_full_tile_include_the_seam() {
    let a = patterned(1);
    let right = patterned(2);
    let below = patterned(3);
    let corner = patterned(4);
    let nb = TileNeighbors { next_x: Some(&right), next_y: Some(&below), corner: Some(&corner) };
    let h = grid_heights(&a, &nb);
    assert_eq!(h.len(), 513 * 513);
    assert_eq!(h[0], a.get(0, 0));
    assert_eq!(h[512], right.get(0, 0));
    assert_eq!(h[513 + 512], right.get(0, 1));
    assert_eq!(h[512 * 513 + 7], below.get(7, 0));
    assert_eq!(h[513 * 513 - 1], corner.get(0, 0));
}

#[test]
fn grid_triangles_split_each_quad_the_same_way() {
    assert_eq!(grid_triangles(3, 2), vec![0, 1, 3, 1, 4, 3, 1, 2, 4, 2, 5, 4]);
    assert_eq!(grid_triangles(2, 3), vec![0, 1, 2, 1, 3, 2, 2, 3, 4, 3, 5, 4]);
    assert!(grid_triangles(1, 5).is_empty());
    assert_eq!(grid_triangles(513, 513).len(), 6 * 512 * 512);
}

#[test]
fn local_faces_index_by_vertex_order() {
    let handles = vec![10, 20, 30];
    let faces = vec![(10, 20, 30), (30, 10, 20)];
    assert_eq!(local_faces(&handles, &faces), Ok(vec![(0, 1, 2), (2, 0, 1)]));
}

#[test]
fn local_faces_reject_unknown_vertex() {
    let handles = vec![10, 20, 30];
    let faces = vec![(10, 20, 30), (30, 40, 20)];
    assert_eq!(local_faces(&handles, &faces), Err(MeshError::UnknownVertex));
}

#[test]
fn local_faces_reject_too_many_vertices() {
    let handles: Vec<usize> = (0..65536).collect();
    assert_eq!(local_faces(&handles, &vec![]), Err(MeshError::TooManyVertices));
    let handles: Vec<usize> = (0..65535).collect();
    assert_eq!(local_faces(&handles, &vec![(0, 1, 65534)]), Ok(vec![(0, 1, 65534)]));
}

#[test]
fn local_faces_reject_too_many_faces() {
    let handles = vec![0, 1, 2];
    let faces = vec![(0, 1, 2); 65536];
    assert_eq!(local_faces(&handles, &faces), Err(MeshError::TooManyFaces));
}
