//! The tiled elevation raster: a fixed grid of chunks, point sampling and
//! neighbour lookup.
//!
//! Elevation samples are single-precision floats carried as their IEEE-754
//! bit patterns: the raster only stores, selects and hands them on.

use vstd::prelude::*;

verus! {

/// Side of a full chunk, in samples.
pub const CHUNK_SIZE: u32 = 512;

/// Chunks along each side of the grid.
pub const CHUNKS_PER_SIDE: usize = 20;

/// Chunks in the whole grid.
pub const TILE_COUNT: usize = 400;

/// Side of the whole raster, in samples.
pub const REGION_SIZE: u32 = 10012;

/// Width (or height) of the chunks in grid column (or row) `c`: full chunks
/// everywhere but the trailing column (row), which holds what is left.
pub open spec fn chunk_extent(c: int) -> int {
    if c < CHUNKS_PER_SIDE - 1 {
        CHUNK_SIZE as int
    } else {
        REGION_SIZE - (CHUNKS_PER_SIDE - 1) * CHUNK_SIZE
    }
}

/// A rectangular block of samples, stored row by row.
pub struct Tile {
    pub data: Vec<u32>,
    pub width: u32,
    pub height: u32,
}

impl Tile {
    /// The sample buffer holds exactly `width * height` samples.
    pub open spec fn wf(&self) -> bool {
        self.data@.len() == self.width as int * self.height as int
    }

    /// The sample at column `x`, row `y`.
    pub open spec fn at(&self, x: int, y: int) -> u32 {
        self.data@[y * self.width + x]
    }

    /// The sample at column `x`, row `y`: the entry `y * width + x` of the
    /// row-major sample buffer, which must lie inside it.
    pub fn get(&self, x: usize, y: usize) -> (r: u32)
        requires
            y * self.width + x < self.data@.len(),
        ensures
            r == self.at(x as int, y as int),
            r == self.data@[y * self.width + x],
    {
        assert(0 <= y * self.width) by (nonlinear_arith);
        let n = self.data.len();
        assert(y * self.width as usize + x < n);
        self.data[y * self.width as usize + x]
    }
}

impl Tile {
    /// Whether this tile has the shape that grid index `index` calls for.
    pub fn fits_place(&self, index: usize) -> (r: bool)
        ensures
            r == (index < TILE_COUNT && tile_fits(*self, index as int)),
    {
        if index >= TILE_COUNT {
            return false;
        }
        let want_w: u32 = if index % CHUNKS_PER_SIDE < CHUNKS_PER_SIDE - 1 {
            CHUNK_SIZE
        } else {
            REGION_SIZE - (CHUNKS_PER_SIDE as u32 - 1) * CHUNK_SIZE
        };
        let want_h: u32 = if index / CHUNKS_PER_SIDE < CHUNKS_PER_SIDE - 1 {
            CHUNK_SIZE
        } else {
            REGION_SIZE - (CHUNKS_PER_SIDE as u32 - 1) * CHUNK_SIZE
        };
        if self.width != want_w || self.height != want_h {
            return false;
        }
        assert(self.width as int * self.height as int <= 512 * 512) by (nonlinear_arith)
            requires
                self.width <= 512,
                self.height <= 512,
        ;
        self.data.len() == self.width as usize * self.height as usize
    }
}

/// A row-major index of a cell inside a `w` by `h` grid lies inside the grid.
pub(crate) proof fn lemma_row_major_index(x: int, y: int, w: int, h: int)
    requires
        0 <= x < w,
        0 <= y < h,
    ensures
        0 <= y * w + x < w * h,
        y * w + x + 1 <= w * h,
{
    assert(0 <= y * w) by (nonlinear_arith)
        requires
            0 <= y,
            0 <= w,
    ;
    assert((y + 1) * w <= h * w) by (nonlinear_arith)
        requires
            y + 1 <= h,
            0 <= w,
    ;
    assert((y + 1) * w == y * w + w) by (nonlinear_arith);
    assert(h * w == w * h) by (nonlinear_arith);
}

/// Georeferencing of the grid: the UTM zone and the projected position of
/// its top-left corner (double-precision bit patterns).
#[derive(Clone, Copy, Debug, PartialEq, Eq, Structural)]
pub struct UTMCoord {
    pub zone_number: u8,
    pub easting_bits: u64,
    pub northing_bits: u64,
}

/// Why a raster could not be taken as a region.
#[derive(Clone, Copy, Debug, PartialEq, Eq, Structural)]
pub enum LoadError {
    /// The raster is not `REGION_SIZE` samples on each side.
    RasterSize,
    /// The raster is not cut into `CHUNK_SIZE` square chunks.
    ChunkSize,
    /// The number of chunks is not `TILE_COUNT`.
    TileCount,
    /// The chunk at this index has the wrong shape or sample count.
    TileShape(usize),
}

/// The tile at grid index `i` has the shape its place in the grid calls for.
pub open spec fn tile_fits(t: Tile, i: int) -> bool {
    &&& t.wf()
    &&& t.width == chunk_extent(i % CHUNKS_PER_SIDE as int)
    &&& t.height == chunk_extent(i / CHUNKS_PER_SIDE as int)
}

/// A complete grid of tiles, each in its place.
pub open spec fn tiles_fit(ts: Seq<Tile>) -> bool {
    &&& ts.len() == TILE_COUNT
    &&& forall|i: int| 0 <= i < TILE_COUNT ==> #[trigger] tile_fits(ts[i], i)
}

/// Clamps a sample coordinate into the raster.
pub open spec fn clamp_sample(p: int) -> int {
    if p < 0 {
        0
    } else if p >= REGION_SIZE {
        REGION_SIZE - 1
    } else {
        p
    }
}

/// The tiles around one tile, with which its mesh is stitched.
pub struct TileNeighbors<'a> {
    pub next_x: Option<&'a Tile>,
    pub next_y: Option<&'a Tile>,
    pub corner: Option<&'a Tile>,
}

/// The whole elevation raster of a region.
pub struct Region {
    name: String,
    coord: UTMCoord,
    tiles: Vec<Tile>,
}

impl Region {
    /// The region's name.
    pub closed spec fn name_view(&self) -> Seq<char> {
        self.name@
    }

    /// The region's georeferencing.
    pub closed spec fn coord_view(&self) -> UTMCoord {
        self.coord
    }

    /// The tiles of the grid, row by row.
    pub closed spec fn tiles_view(&self) -> Seq<Tile> {
        self.tiles@
    }

    /// Every tile stands in its place with its proper shape.
    pub open spec fn wf(&self) -> bool {
        tiles_fit(self.tiles_view())
    }

    /// The sample at the position `(px, py)`, clamped into the raster.
    pub open spec fn elevation_at(&self, px: int, py: int) -> u32 {
        let x = clamp_sample(px);
        let y = clamp_sample(py);
        self.tiles_view()[(y / CHUNK_SIZE as int) * CHUNKS_PER_SIDE + x / CHUNK_SIZE as int].at(
            x % CHUNK_SIZE as int,
            y % CHUNK_SIZE as int,
        )
    }

    /// The neighbours of tile `index`: right iff it is a full chunk across,
    /// below iff it is a full chunk down, diagonal iff both.
    pub open spec fn neighbors_spec(&self, index: int) -> TileNeighbors {
        let t = self.tiles_view()[index];
        TileNeighbors {
            next_x: if t.width == CHUNK_SIZE {
                Some(&self.tiles_view()[index + 1])
            } else {
                None
            },
            next_y: if t.height == CHUNK_SIZE {
                Some(&self.tiles_view()[index + CHUNKS_PER_SIDE])
            } else {
                None
            },
            corner: if t.width == CHUNK_SIZE && t.height == CHUNK_SIZE {
                Some(&self.tiles_view()[index + CHUNKS_PER_SIDE + 1])
            } else {
                None
            },
        }
    }

    /// Takes a decoded raster as a region: `dims` are the raster's sides,
    /// `chunk_dims` the sides of its chunks, `tiles` the chunks row by row.
    pub fn from_parts(
        name: String,
        coord: UTMCoord,
        dims: (u32, u32),
        chunk_dims: (u32, u32),
        tiles: Vec<Tile>,
    ) -> (r: Result<Region, LoadError>)
        ensures
            match r {
                Ok(region) => {
                    &&& dims == (REGION_SIZE, REGION_SIZE)
                    &&& chunk_dims == (CHUNK_SIZE, CHUNK_SIZE)
                    &&& tiles_fit(tiles@)
                    &&& region.wf()
                    &&& region.tiles_view() == tiles@
                    &&& region.name_view() == name@
                    &&& region.coord_view() == coord
                },
                Err(LoadError::RasterSize) => dims != (REGION_SIZE, REGION_SIZE),
                Err(LoadError::ChunkSize) => {
                    &&& dims == (REGION_SIZE, REGION_SIZE)
                    &&& chunk_dims != (CHUNK_SIZE, CHUNK_SIZE)
                },
                Err(LoadError::TileCount) => {
                    &&& dims == (REGION_SIZE, REGION_SIZE)
                    &&& chunk_dims == (CHUNK_SIZE, CHUNK_SIZE)
                    &&& tiles@.len() != TILE_COUNT
                },
                Err(LoadError::TileShape(i)) => {
                    &&& dims == (REGION_SIZE, REGION_SIZE)
                    &&& chunk_dims == (CHUNK_SIZE, CHUNK_SIZE)
                    &&& tiles@.len() == TILE_COUNT
                    &&& i < TILE_COUNT
                    &&& !tile_fits(tiles@[i as int], i as int)
                    &&& forall|j: int| 0 <= j < i ==> #[trigger] tile_fits(tiles@[j], j)
                },
            },
    {
        if dims.0 != REGION_SIZE || dims.1 != REGION_SIZE {
            return Err(LoadError::RasterSize);
        }
        if chunk_dims.0 != CHUNK_SIZE || chunk_dims.1 != CHUNK_SIZE {
            return Err(LoadError::ChunkSize);
        }
        if tiles.len() != TILE_COUNT {
            return Err(LoadError::TileCount);
        }
        let mut i: usize = 0;
        while i < TILE_COUNT
            invariant
                i <= TILE_COUNT,
                dims == (REGION_SIZE, REGION_SIZE),
                chunk_dims == (CHUNK_SIZE, CHUNK_SIZE),
                tiles@.len() == TILE_COUNT,
                forall|j: int| 0 <= j < i ==> #[trigger] tile_fits(tiles@[j], j),
            decreases TILE_COUNT - i,
        {
            if !tiles[i].fits_place(i) {
                return Err(LoadError::TileShape(i));
            }
            assert(tile_fits(tiles@[i as int], i as int));
            i = i + 1;
        }
        Ok(Region { name, coord, tiles })
    }

    /// The region's name.
    pub fn name(&self) -> (r: &str)
        ensures
            r@ == self.name_view(),
    {
        self.name.as_str()
    }

    /// The region's georeferencing.
    pub fn coord(&self) -> (r: UTMCoord)
        ensures
            r == self.coord_view(),
    {
        self.coord
    }

    /// The tile at grid index `index`.
    pub fn tile(&self, index: usize) -> (r: &Tile)
        requires
            self.wf(),
            index < TILE_COUNT,
        ensures
            *r == self.tiles_view()[index as int],
            tile_fits(*r, index as int),
    {
        &self.tiles[index]
    }

    /// The sample at the position `(px, py)`, given in whole samples from
    /// the raster's top-left corner (the floor of a planar position). The
    /// position is first clamped into the raster, so every position samples.
    pub fn get_elevation(&self, px: i64, py: i64) -> (r: u32)
        requires
            self.wf(),
        ensures
            r == self.elevation_at(px as int, py as int),
    {
        let x: u32 = if px < 0 {
            0
        } else if px >= REGION_SIZE as i64 {
            REGION_SIZE - 1
        } else {
            px as u32
        };
        let y: u32 = if py < 0 {
            0
        } else if py >= REGION_SIZE as i64 {
            REGION_SIZE - 1
        } else {
            py as u32
        };
        let cx = (x / CHUNK_SIZE) as usize;
        let cy = (y / CHUNK_SIZE) as usize;
        let index = cy * CHUNKS_PER_SIDE + cx;
        assert(tile_fits(self.tiles_view()[index as int], index as int));
        let tile = &self.tiles[index];
        proof {
            lemma_row_major_index(
                (x % CHUNK_SIZE) as int,
                (y % CHUNK_SIZE) as int,
                tile.width as int,
                tile.height as int,
            );
        }
        tile.get((x % CHUNK_SIZE) as usize, (y % CHUNK_SIZE) as usize)
    }

    /// The sample at `(px, py)` when that position falls on the chunk grid,
    /// `None` when it does not; a position on the grid is then clamped as in
    /// `get_elevation`.
    pub fn try_get_elevation(&self, px: i64, py: i64) -> (r: Option<u32>)
        requires
            self.wf(),
        ensures
            r == if 0 <= px < CHUNK_SIZE * CHUNKS_PER_SIDE && 0 <= py < CHUNK_SIZE * CHUNKS_PER_SIDE {
                Some(self.elevation_at(px as int, py as int))
            } else {
                None::<u32>
            },
    {
        let limit = (CHUNK_SIZE as usize * CHUNKS_PER_SIDE) as i64;
        if px < 0 || py < 0 || px >= limit || py >= limit {
            None
        } else {
            Some(self.get_elevation(px, py))
        }
    }

    /// The neighbours of tile `index` with which its mesh is stitched.
    pub fn neighbors(&self, index: usize) -> (r: TileNeighbors)
        requires
            self.wf(),
            index < TILE_COUNT,
        ensures
            r == self.neighbors_spec(index as int),
    {
        assert(tile_fits(self.tiles_view()[index as int], index as int));
        let t = &self.tiles[index];
        let next_x = if t.width == CHUNK_SIZE {
            Some(&self.tiles[index + 1])
        } else {
            None
        };
        let next_y = if t.height == CHUNK_SIZE {
            Some(&self.tiles[index + CHUNKS_PER_SIDE])
        } else {
            None
        };
        let corner = if t.width == CHUNK_SIZE && t.height == CHUNK_SIZE {
            Some(&self.tiles[index + CHUNKS_PER_SIDE + 1])
        } else {
            None
        };
        TileNeighbors { next_x, next_y, corner }
    }
}

} // verus!
