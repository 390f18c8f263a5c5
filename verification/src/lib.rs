//! Core of a software tile-map renderer.
//!
//! The library decodes an assembly-style textual hex encoding into raw byte
//! buffers, slices those into a tile atlas and a scrolling tile-index map,
//! and composites tiles, overlays and sprite atlases into RGB rasters.
//! Window creation and pixel-buffer presentation are left to the caller.

pub mod decode;
pub mod tiles;
pub mod tilemap;
pub mod column;
pub mod fetch;
pub mod sprites;
pub mod scroll;
pub mod render;
