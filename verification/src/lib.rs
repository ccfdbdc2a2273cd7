//! Seed-reproducible two-dimensional metaball fields.
//!
//! A signed seed is mapped onto the unsigned seed space of a ChaCha8
//! generator ([`seed`]), a handful of circular sources, the balls, is drawn
//! from that generator ([`sampling`], over [`generator`]), and a square grid
//! is scanned row by row for the cells that the balls occupy ([`field`]).
//! The same seed, grid and ranges always give the same cells.

pub mod ball;
pub mod field;
pub mod generator;
pub mod sampling;
pub mod seed;

pub use ball::{Coord, MetaBall};
pub use field::{blob, scan_grid};
pub use sampling::{sample_balls, BlobError, Parameter};
pub use seed::normalize_seed;
