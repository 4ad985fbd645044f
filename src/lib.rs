//! Verified core of a terrain asset builder: a tiled elevation raster,
//! terrain tile meshing support with seam stitching, the binary encodings
//! of tile meshes and map features, and a bounded cache of raster chunks.

pub mod buffer;
pub mod raster;
pub mod terrain;
pub mod mesh_codec;
pub mod cache;
pub mod features;
pub mod map_query;
