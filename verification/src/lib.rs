//! Geometric and tag-data primitives of a game engine's asset toolchain.
//!
//! The heart of the library is [`collision_bsp`]: the walk that finds the leaf of a collision
//! BSP around a point, and the check that every reference in the tables of a BSP leads
//! somewhere. Around it stand small value types: packed IDs and indices, fixed-length ASCII
//! strings, rectangles and pixels, the rounding of single-precision numbers to integers, and
//! the rounding of decimal numerals to six significant figures.
//!
//! Numbers with a fraction are held as their bit patterns ([`float::FloatBits`]), and what is
//! computed on them is computed on the bits.

pub mod collision_bsp;
pub mod color;
pub mod constants;
pub mod fake_utf8;
pub mod float;
pub mod id;
pub mod nudge;
pub mod rectangle;
pub mod string;
pub mod vector;
