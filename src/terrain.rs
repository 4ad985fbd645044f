//! The integer side of terrain tile meshing: the seam-stitched sample grid
//! of a tile, its triangulation, and the compact face indices of a mesh.

use vstd::prelude::*;
use std::collections::HashMap;
use vstd::arithmetic::div_mod::lemma_fundamental_div_mod_converse;
use crate::raster::{lemma_row_major_index, Tile, TileNeighbors, Region, CHUNK_SIZE, CHUNKS_PER_SIDE, TILE_COUNT, tile_fits};

verus! {

/// Vertices of the mesh grid along a side of `n` samples: a full chunk gets
/// one more, shared with its neighbour; a trailing chunk keeps its own.
pub open spec fn grid_extent_spec(n: int) -> int {
    if n == CHUNK_SIZE {
        n + 1
    } else {
        n
    }
}

/// Vertices of the mesh grid along a side of `n` samples.
pub fn grid_extent(n: u32) -> (r: u32)
    ensures
        r == grid_extent_spec(n as int),
{
    if n == CHUNK_SIZE {
        n + 1
    } else {
        n
    }
}

/// `nb` holds every tile that the stitched grid of `tile` reads from, each
/// large enough for the row or column read from it.
pub open spec fn stitchable(tile: Tile, nb: TileNeighbors) -> bool {
    &&& tile.wf()
    &&& tile.width >= 1
    &&& tile.height >= 1
    &&& tile.width == CHUNK_SIZE ==> {
        &&& nb.next_x is Some
        &&& nb.next_x->0.wf()
        &&& nb.next_x->0.width >= 1
        &&& nb.next_x->0.height >= tile.height
    }
    &&& tile.height == CHUNK_SIZE ==> {
        &&& nb.next_y is Some
        &&& nb.next_y->0.wf()
        &&& nb.next_y->0.width >= tile.width
        &&& nb.next_y->0.height >= 1
    }
    &&& tile.width == CHUNK_SIZE && tile.height == CHUNK_SIZE ==> {
        &&& nb.corner is Some
        &&& nb.corner->0.wf()
        &&& nb.corner->0.width >= 1
        &&& nb.corner->0.height >= 1
    }
}

/// The height of grid vertex `(x, y)`: the tile's own sample inside it, the
/// first column of the right neighbour on the extra column, the first row of
/// the lower neighbour on the extra row, and the diagonal neighbour's first
/// sample where both meet.
pub open spec fn stitched_at(tile: Tile, nb: TileNeighbors, x: int, y: int) -> u32 {
    if x >= tile.width && y >= tile.height {
        nb.corner->0.at(0, 0)
    } else if x >= tile.width {
        nb.next_x->0.at(0, y)
    } else if y >= tile.height {
        nb.next_y->0.at(x, 0)
    } else {
        tile.at(x, y)
    }
}

/// The height of vertex `(x, y)` of the stitched grid of `tile`.
pub fn grid_sample(tile: &Tile, nb: &TileNeighbors, x: u32, y: u32) -> (r: u32)
    requires
        stitchable(*tile, *nb),
        x < grid_extent_spec(tile.width as int),
        y < grid_extent_spec(tile.height as int),
    ensures
        r == stitched_at(*tile, *nb, x as int, y as int),
{
    if x >= tile.width && y >= tile.height {
        let corner = nb.corner.unwrap();
        proof {
            lemma_row_major_index(0, 0, corner.width as int, corner.height as int);
        }
        corner.get(0, 0)
    } else if x >= tile.width {
        let next = nb.next_x.unwrap();
        proof {
            lemma_row_major_index(0, y as int, next.width as int, next.height as int);
        }
        next.get(0, y as usize)
    } else if y >= tile.height {
        let next = nb.next_y.unwrap();
        proof {
            lemma_row_major_index(x as int, 0, next.width as int, next.height as int);
        }
        next.get(x as usize, 0)
    } else {
        proof {
            lemma_row_major_index(x as int, y as int, tile.width as int, tile.height as int);
        }
        tile.get(x as usize, y as usize)
    }
}

/// The heights of the whole stitched grid of `tile`, row by row.
pub fn grid_heights(tile: &Tile, nb: &TileNeighbors) -> (r: Vec<u32>)
    requires
        stitchable(*tile, *nb),
    ensures
        r@.len() == grid_extent_spec(tile.width as int) * grid_extent_spec(tile.height as int),
        forall|k: int|
            0 <= k < r@.len() ==> #[trigger] r@[k] == stitched_at(
                *tile,
                *nb,
                k % grid_extent_spec(tile.width as int),
                k / grid_extent_spec(tile.width as int),
            ),
{
    let w = grid_extent(tile.width);
    let h = grid_extent(tile.height);
    let mut r: Vec<u32> = Vec::new();
    let mut y: u32 = 0;
    while y < h
        invariant
            w == grid_extent_spec(tile.width as int),
            h == grid_extent_spec(tile.height as int),
            stitchable(*tile, *nb),
            y <= h,
            r@.len() == y * w,
            forall|k: int|
                0 <= k < r@.len() ==> #[trigger] r@[k] == stitched_at(*tile, *nb, k % w as int, k / w as int),
        decreases h - y,
    {
        let mut x: u32 = 0;
        while x < w
            invariant
                w == grid_extent_spec(tile.width as int),
                h == grid_extent_spec(tile.height as int),
                stitchable(*tile, *nb),
                y < h,
                x <= w,
                r@.len() == y * w + x,
                forall|k: int|
                    0 <= k < r@.len() ==> #[trigger] r@[k] == stitched_at(*tile, *nb, k % w as int, k / w as int),
            decreases w - x,
        {
            let v = grid_sample(tile, nb, x, y);
            proof {
                lemma_fundamental_div_mod_converse(y * w + x, w as int, y as int, x as int);
            }
            r.push(v);
            x = x + 1;
        }
        assert(r@.len() == (y + 1) * w) by (nonlinear_arith)
            requires
                r@.len() == y * w + w,
        ;
        y = y + 1;
    }
    assert(r@.len() == w as int * h as int) by (nonlinear_arith)
        requires
            r@.len() == y * w,
            y == h,
    ;
    r
}

/// The stitching tiles that a region hands out fit every tile of it.
proof fn lemma_region_stitchable(region: &Region, index: int)
    requires
        region.wf(),
        0 <= index < TILE_COUNT,
    ensures
        stitchable(region.tiles_view()[index], region.neighbors_spec(index)),
{
    let ts = region.tiles_view();
    assert(tile_fits(ts[index], index));
    if ts[index].width == CHUNK_SIZE {
        assert(tile_fits(ts[index + 1], index + 1));
    }
    if ts[index].height == CHUNK_SIZE {
        assert(tile_fits(ts[index + CHUNKS_PER_SIDE], index + CHUNKS_PER_SIDE));
    }
    if ts[index].width == CHUNK_SIZE && ts[index].height == CHUNK_SIZE {
        assert(tile_fits(ts[index + CHUNKS_PER_SIDE + 1], index + CHUNKS_PER_SIDE + 1));
    }
}

impl Region {
    /// The heights of the stitched mesh grid of tile `index`, row by row,
    /// read from the tile and the neighbours the region hands out for it.
    pub fn stitched_heights(&self, index: usize) -> (r: Vec<u32>)
        requires
            self.wf(),
            index < TILE_COUNT,
        ensures
            ({
                let t = self.tiles_view()[index as int];
                let nb = self.neighbors_spec(index as int);
                &&& r@.len() == grid_extent_spec(t.width as int) * grid_extent_spec(t.height as int)
                &&& forall|k: int|
                    0 <= k < r@.len() ==> #[trigger] r@[k] == stitched_at(
                        t,
                        nb,
                        k % grid_extent_spec(t.width as int),
                        k / grid_extent_spec(t.width as int),
                    )
            }),
    {
        proof {
            lemma_region_stitchable(self, index as int);
        }
        let nb = self.neighbors(index);
        grid_heights(self.tile(index), &nb)
    }
}

/// Seam: where a full tile has a right neighbour, the extra column of its
/// stitched grid carries, row for row, the same heights as the first column
/// of the neighbour's grid, the extra row included.
pub proof fn lemma_horizontal_seam(region: &Region, index: int, y: int)
    requires
        region.wf(),
        0 <= index < TILE_COUNT,
        region.tiles_view()[index].width == CHUNK_SIZE,
        0 <= y < grid_extent_spec(region.tiles_view()[index].height as int),
    ensures
        index + 1 < TILE_COUNT,
        stitched_at(region.tiles_view()[index], region.neighbors_spec(index), CHUNK_SIZE as int, y)
            == stitched_at(region.tiles_view()[index + 1], region.neighbors_spec(index + 1), 0, y),
{
    let ts = region.tiles_view();
    assert(tile_fits(ts[index], index));
    assert(tile_fits(ts[index + 1], index + 1));
    if ts[index].height == CHUNK_SIZE {
        assert(tile_fits(ts[index + CHUNKS_PER_SIDE], index + CHUNKS_PER_SIDE));
        assert(tile_fits(ts[index + CHUNKS_PER_SIDE + 1], index + CHUNKS_PER_SIDE + 1));
    }
}

/// Vertex index `i` of a `w`-wide grid is the corner that entry `k` of the
/// triangulation names: quad `k / 6` (row-major over the quads), corner
/// `k % 6` of its two triangles `(i, i+1, i+w)` and `(i+1, i+w+1, i+w)`.
pub open spec fn quad_corner(w: int, k: int) -> int {
    let q = k / 6;
    let c = k % 6;
    let i = (q / (w - 1)) * w + q % (w - 1);
    if c == 0 {
        i
    } else if c == 1 {
        i + 1
    } else if c == 2 {
        i + w
    } else if c == 3 {
        i + 1
    } else if c == 4 {
        i + w + 1
    } else {
        i + w
    }
}

proof fn lemma_quad_corner(w: int, h: int, x: int, y: int, c: int)
    requires
        2 <= w,
        0 <= x < w - 1,
        0 <= y < h - 1,
        0 <= c < 6,
    ensures
        quad_corner(w, 6 * (y * (w - 1) + x) + c) == if c == 0 {
            y * w + x
        } else if c == 1 {
            y * w + x + 1
        } else if c == 2 {
            y * w + x + w
        } else if c == 3 {
            y * w + x + 1
        } else if c == 4 {
            y * w + x + w + 1
        } else {
            y * w + x + w
        },
        0 <= y * w + x,
        y * w + x + w + 1 < w * h,
{
    let q = y * (w - 1) + x;
    lemma_fundamental_div_mod_converse(6 * q + c, 6, q, c);
    lemma_fundamental_div_mod_converse(q, w - 1, y, x);
    assert(0 <= y * w) by (nonlinear_arith)
        requires
            0 <= y,
            0 <= w,
    ;
    assert(y * w + w <= (h - 1) * w) by (nonlinear_arith)
        requires
            y + 1 <= h - 1,
            0 <= w,
    ;
    assert((h - 1) * w + w == w * h) by (nonlinear_arith);
}

/// The triangulation of a `w` by `h` vertex grid: two triangles per quad
/// with one diagonal direction throughout, as a flat list of vertex indices.
pub fn grid_triangles(w: usize, h: usize) -> (r: Vec<usize>)
    requires
        1 <= w,
        1 <= h,
        6 * w * h <= usize::MAX,
    ensures
        r@.len() == 6 * (w - 1) * (h - 1),
        forall|k: int| 0 <= k < r@.len() ==> #[trigger] r@[k] == quad_corner(w as int, k),
        forall|k: int| 0 <= k < r@.len() ==> #[trigger] r@[k] < w * h,
{
    let mut r: Vec<usize> = Vec::new();
    if w < 2 || h < 2 {
        assert(6 * (w - 1) * (h - 1) == 0) by (nonlinear_arith)
            requires
                w < 2 || h < 2,
                1 <= w,
                1 <= h,
        ;
        return r;
    }
    let mut y: usize = 0;
    while y < h - 1
        invariant
            2 <= w,
            2 <= h,
            6 * w * h <= usize::MAX,
            y <= h - 1,
            r@.len() == 6 * (y * (w - 1)),
            forall|k: int| 0 <= k < r@.len() ==> #[trigger] r@[k] == quad_corner(w as int, k),
            forall|k: int| 0 <= k < r@.len() ==> #[trigger] r@[k] < w * h,
        decreases h - y,
    {
        let mut x: usize = 0;
        while x < w - 1
            invariant
                2 <= w,
                2 <= h,
                6 * w * h <= usize::MAX,
                y < h - 1,
                x <= w - 1,
                r@.len() == 6 * (y * (w - 1) + x),
                forall|k: int| 0 <= k < r@.len() ==> #[trigger] r@[k] == quad_corner(w as int, k),
                forall|k: int| 0 <= k < r@.len() ==> #[trigger] r@[k] < w * h,
            decreases w - x,
        {
            proof {
                lemma_quad_corner(w as int, h as int, x as int, y as int, 0);
                lemma_quad_corner(w as int, h as int, x as int, y as int, 1);
                lemma_quad_corner(w as int, h as int, x as int, y as int, 2);
                lemma_quad_corner(w as int, h as int, x as int, y as int, 3);
                lemma_quad_corner(w as int, h as int, x as int, y as int, 4);
                lemma_quad_corner(w as int, h as int, x as int, y as int, 5);
                assert(w * h <= 6 * w * h) by (nonlinear_arith)
                    requires
                        0 <= w * h,
                ;
            }
            let i = y * w + x;
            r.push(i);
            r.push(i + 1);
            r.push(i + w);
            r.push(i + 1);
            r.push(i + w + 1);
            r.push(i + w);
            x = x + 1;
        }
        assert(6 * (y * (w - 1) + (w - 1)) == 6 * ((y + 1) * (w - 1))) by (nonlinear_arith);
        y = y + 1;
    }
    assert(6 * ((h - 1) * (w - 1)) == 6 * (w - 1) * (h - 1)) by (nonlinear_arith);
    r
}

/// Why a decimated mesh cannot be given compact 16-bit indices.
#[derive(Clone, Copy, Debug, PartialEq, Eq, Structural)]
pub enum MeshError {
    /// 65536 vertices or more.
    TooManyVertices,
    /// 65536 faces or more.
    TooManyFaces,
    /// A face names a vertex that is not in the vertex list.
    UnknownVertex,
}

/// Entries that a 16-bit index can address.
pub const INDEX_LIMIT: usize = 65536;

/// Local index `i` stands for vertex handle `h` of the list `handles`.
pub open spec fn locates(handles: Seq<usize>, h: usize, i: u16) -> bool {
    &&& (i as int) < handles.len()
    &&& handles[i as int] == h
}

/// Handle `h` is in the list `handles`.
pub open spec fn listed(handles: Seq<usize>, h: usize) -> bool {
    exists|j: int| 0 <= j < handles.len() && handles[j] == h
}

/// Replaces the vertex handles of each face by the vertex's position in
/// `handles`, the order in which the vertices are written out.
pub fn local_faces(handles: &Vec<usize>, faces: &Vec<(usize, usize, usize)>) -> (r: Result<
    Vec<(u16, u16, u16)>,
    MeshError,
>)
    ensures
        match r {
            Ok(out) => {
                &&& handles@.len() < INDEX_LIMIT
                &&& faces@.len() < INDEX_LIMIT
                &&& out@.len() == faces@.len()
                &&& forall|k: int|
                    0 <= k < out@.len() ==> {
                        &&& locates(handles@, faces@[k].0, #[trigger] out@[k].0)
                        &&& locates(handles@, faces@[k].1, out@[k].1)
                        &&& locates(handles@, faces@[k].2, out@[k].2)
                    }
            },
            Err(MeshError::TooManyVertices) => handles@.len() >= INDEX_LIMIT,
            Err(MeshError::TooManyFaces) => handles@.len() < INDEX_LIMIT && faces@.len() >= INDEX_LIMIT,
            Err(MeshError::UnknownVertex) => {
                &&& handles@.len() < INDEX_LIMIT
                &&& faces@.len() < INDEX_LIMIT
                &&& exists|k: int|
                    0 <= k < faces@.len() && !(listed(handles@, #[trigger] faces@[k].0) && listed(
                        handles@,
                        faces@[k].1,
                    ) && listed(handles@, faces@[k].2))
            },
        },
{
    if handles.len() >= INDEX_LIMIT {
        return Err(MeshError::TooManyVertices);
    }
    if faces.len() >= INDEX_LIMIT {
        return Err(MeshError::TooManyFaces);
    }
    let mut map: HashMap<usize, u16> = HashMap::new();
    let mut j: usize = 0;
    while j < handles.len()
        invariant
            handles@.len() < INDEX_LIMIT,
            j <= handles@.len(),
            forall|h: usize| #[trigger]
                map@.contains_key(h) ==> locates(handles@, h, map@[h]),
            forall|jj: int| 0 <= jj < j ==> map@.contains_key(#[trigger] handles@[jj]),
        decreases handles@.len() - j,
    {
        map.insert(handles[j], j as u16);
        j = j + 1;
    }
    let mut out: Vec<(u16, u16, u16)> = Vec::new();
    let mut k: usize = 0;
    while k < faces.len()
        invariant
            handles@.len() < INDEX_LIMIT,
            faces@.len() < INDEX_LIMIT,
            k <= faces@.len(),
            out@.len() == k,
            forall|h: usize| #[trigger]
                map@.contains_key(h) ==> locates(handles@, h, map@[h]),
            forall|jj: int| 0 <= jj < handles@.len() ==> map@.contains_key(#[trigger] handles@[jj]),
            forall|kk: int|
                0 <= kk < out@.len() ==> {
                    &&& locates(handles@, faces@[kk].0, #[trigger] out@[kk].0)
                    &&& locates(handles@, faces@[kk].1, out@[kk].1)
                    &&& locates(handles@, faces@[kk].2, out@[kk].2)
                },
        decreases faces@.len() - k,
    {
        let (a, b, c) = faces[k];
        let ia = map.get(&a);
        let ib = map.get(&b);
        let ic = map.get(&c);
        match (ia, ib, ic) {
            (Some(ia), Some(ib), Some(ic)) => {
                out.push((*ia, *ib, *ic));
            },
            _ => {
                assert(!(listed(handles@, faces@[k as int].0) && listed(handles@, faces@[k as int].1)
                    && listed(handles@, faces@[k as int].2)));
                return Err(MeshError::UnknownVertex);
            },
        }
        k = k + 1;
    }
    Ok(out)
}

} // verus!
