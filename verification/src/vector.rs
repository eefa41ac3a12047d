//! Vectors and planes as plain records.
//!
//! The components are bit patterns: the arithmetic on them is left to whoever holds the
//! numbers.

use vstd::prelude::*;
use crate::float::FloatBits;

verus! {

/// A two-component vector.
#[derive(Copy, Clone, PartialEq, Eq, Structural, Debug)]
pub struct Vector2D {
    pub x: FloatBits,
    pub y: FloatBits,
}

/// A three-component vector.
#[derive(Copy, Clone, PartialEq, Eq, Structural, Debug)]
pub struct Vector3D {
    pub x: FloatBits,
    pub y: FloatBits,
    pub z: FloatBits,
}

/// A 2D plane: the points whose product with `vector` is `offset`.
#[derive(Copy, Clone, PartialEq, Eq, Structural, Debug)]
pub struct Plane2D {
    pub offset: FloatBits,
    pub vector: Vector2D,
}

/// A 3D plane: the points whose product with `vector` is `offset`.
#[derive(Copy, Clone, PartialEq, Eq, Structural, Debug)]
pub struct Plane3D {
    pub vector: Vector3D,
    pub offset: FloatBits,
}

/// A two-component vector of 16-bit integers, such as a position in pixels.
#[derive(Copy, Clone, PartialEq, Eq, Structural, Debug)]
pub struct Vector2DInt {
    pub x: i16,
    pub y: i16,
}

/// A number compressed into 16 bits.
#[derive(Copy, Clone, PartialEq, Eq, Structural, Debug)]
pub struct CompressedFloat(pub u16);

/// A [`Vector2D`] compressed into 32 bits, laid out as `Y8.X8`.
#[derive(Copy, Clone, PartialEq, Eq, Structural, Debug)]
pub struct CompressedVector2D(pub u32);

/// A [`Vector3D`] compressed into 32 bits, laid out as `Z10.Y11.X11`.
#[derive(Copy, Clone, PartialEq, Eq, Structural, Debug)]
pub struct CompressedVector3D(pub u32);

impl Default for Vector2D {
    /// The vector with every component at zero.
    fn default() -> (r: Self)
        ensures
            r == (Vector2D { x: FloatBits(0), y: FloatBits(0) }),
    {
        Vector2D { x: FloatBits(0), y: FloatBits(0) }
    }
}

impl Default for Vector3D {
    /// The vector with every component at zero.
    fn default() -> (r: Self)
        ensures
            r == (Vector3D { x: FloatBits(0), y: FloatBits(0), z: FloatBits(0) }),
    {
        Vector3D { x: FloatBits(0), y: FloatBits(0), z: FloatBits(0) }
    }
}

impl Default for Plane2D {
    /// The plane with a zero vector and a zero offset.
    fn default() -> (r: Self)
        ensures
            r == (Plane2D {
                offset: FloatBits(0),
                vector: Vector2D { x: FloatBits(0), y: FloatBits(0) },
            }),
    {
        Plane2D { offset: FloatBits(0), vector: Vector2D { x: FloatBits(0), y: FloatBits(0) } }
    }
}

impl Default for Plane3D {
    /// The plane with a zero vector and a zero offset.
    fn default() -> (r: Self)
        ensures
            r == (Plane3D {
                vector: Vector3D { x: FloatBits(0), y: FloatBits(0), z: FloatBits(0) },
                offset: FloatBits(0),
            }),
    {
        Plane3D {
            vector: Vector3D { x: FloatBits(0), y: FloatBits(0), z: FloatBits(0) },
            offset: FloatBits(0),
        }
    }
}

impl Default for Vector2DInt {
    /// The vector with both components at 0.
    fn default() -> (r: Self)
        ensures
            r == (Vector2DInt { x: 0, y: 0 }),
    {
        Vector2DInt { x: 0, y: 0 }
    }
}

impl Default for CompressedFloat {
    /// The compressed number with no bit set.
    fn default() -> (r: Self)
        ensures
            r == CompressedFloat(0),
    {
        CompressedFloat(0)
    }
}

impl Default for CompressedVector2D {
    /// The compressed vector with no bit set.
    fn default() -> (r: Self)
        ensures
            r == CompressedVector2D(0),
    {
        CompressedVector2D(0)
    }
}

impl Default for CompressedVector3D {
    /// The compressed vector with no bit set.
    fn default() -> (r: Self)
        ensures
            r == CompressedVector3D(0),
    {
        CompressedVector3D(0)
    }
}

} // verus!
