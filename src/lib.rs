//! Procedural terrain: height grids filled from fractal noise, blended in
//! layers, and turned into a flat-shaded triangle mesh.
//!
//! Heights are held as 16-bit fixed-point samples (`0` is the bottom of the
//! normalized range, `FULL_HEIGHT` the top) and real-valued settings as
//! millionths, so that every stage works on exact integers.
pub mod error;
pub mod heightmap;
pub mod generator;
pub mod mesher;
pub mod texture;
pub mod terrain;
