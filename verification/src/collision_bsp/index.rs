//! The packed indices by which the nodes of a collision BSP refer to their children.
//!
//! An index is 32 bits wide. The uppermost bit tells which of two tables the other 31 bits
//! are a position in. Splitting an index gives the table and the position; packing them gives
//! the index back.

use vstd::prelude::*;

verus! {

/// Raw value of a 3D node index that refers to nothing.
pub const NULL_3D_NODE_INDEX: u32 = 0xFFFF_FFFF;

/// The 31 bits of a packed index that hold the table position.
pub const INDEX_MASK: u32 = 0x7FFF_FFFF;

/// The bit of a packed index that tells which table the position is in.
pub const INDEX_FLAG: u32 = 0x8000_0000;

/// What a non-null 3D node index refers to.
#[derive(Copy, Clone, PartialEq, Eq, Structural, Debug)]
pub enum CollisionBSP3DNodeIndexType {
    /// Another 3D node.
    Node,
    /// A leaf.
    Leaf,
}

/// A packed index stored in a 3D node.
///
/// The uppermost bit tells whether the remaining 31 bits are the position of a node or of a
/// leaf. `0xFFFFFFFF` refers to nothing.
#[derive(Copy, Clone, PartialEq, Eq, Structural, Debug)]
pub struct CollisionBSP3DNodeIndex(pub u32);

/// What a 2D node index refers to.
#[derive(Copy, Clone, PartialEq, Eq, Structural, Debug)]
pub enum CollisionBSP2DNodeIndexType {
    /// A 2D node.
    Node,
    /// A surface.
    Surface,
}

/// A packed index stored in a 2D node or a 2D node reference.
///
/// The uppermost bit tells whether the remaining 31 bits are the position of a 2D node or of a
/// surface. There is no null value.
#[derive(Copy, Clone, PartialEq, Eq, Structural, Debug)]
pub struct CollisionBSP2DNodeIndex(pub u32);

/// Splitting a raw index at the flag bit: below the flag the 31 low bits are the value itself,
/// from the flag on they are the value less the flag.
proof fn lemma_mask(raw: u32)
    ensures
        raw < 0x8000_0000u32 ==> raw & 0x7FFF_FFFFu32 == raw,
        raw >= 0x8000_0000u32 ==> raw & 0x7FFF_FFFFu32 == (raw - 0x8000_0000u32) as u32,
        raw >= 0x8000_0000u32 ==> raw & 0x7FFF_FFFFu32 != raw,
{
    assert(raw < 0x8000_0000u32 ==> raw & 0x7FFF_FFFFu32 == raw) by (bit_vector);
    assert(raw >= 0x8000_0000u32 ==> raw & 0x7FFF_FFFFu32 == (raw - 0x8000_0000u32) as u32)
        by (bit_vector);
}

impl CollisionBSP3DNodeIndex {
    /// What the index refers to: nothing for the null value, else a node below the flag bit
    /// and a leaf from the flag bit on.
    pub open spec fn spec_as_tuple(self) -> Option<(CollisionBSP3DNodeIndexType, usize)> {
        if self.0 == NULL_3D_NODE_INDEX {
            None
        } else if self.0 < INDEX_FLAG {
            Some((CollisionBSP3DNodeIndexType::Node, self.0 as usize))
        } else {
            Some((CollisionBSP3DNodeIndexType::Leaf, (self.0 - INDEX_FLAG) as usize))
        }
    }

    /// The raw value that refers to position `index` of the table of `index_type`, where there
    /// is one: a position takes 31 bits, and the last leaf position is taken by the null value.
    pub open spec fn spec_from_tuple(
        index_type: CollisionBSP3DNodeIndexType,
        index: usize,
    ) -> Option<CollisionBSP3DNodeIndex> {
        match index_type {
            CollisionBSP3DNodeIndexType::Node => if index <= INDEX_MASK {
                Some(CollisionBSP3DNodeIndex(index as u32))
            } else {
                None
            },
            CollisionBSP3DNodeIndexType::Leaf => if index < INDEX_MASK {
                Some(CollisionBSP3DNodeIndex((index + INDEX_FLAG) as u32))
            } else {
                None
            },
        }
    }

    /// Split the index into what it refers to and the position there.
    ///
    /// Returns `None` if this is the null index.
    pub fn as_tuple(self) -> (r: Option<(CollisionBSP3DNodeIndexType, usize)>)
        ensures
            r == self.spec_as_tuple(),
    {
        let raw: u32 = self.0;
        if raw == NULL_3D_NODE_INDEX {
            return None;
        }
        proof {
            lemma_mask(raw);
        }
        let index: u32 = raw & INDEX_MASK;
        let index_type = if index == raw {
            CollisionBSP3DNodeIndexType::Node
        } else {
            CollisionBSP3DNodeIndexType::Leaf
        };
        Some((index_type, index as usize))
    }

    /// Pack a position in the node table or the leaf table into an index.
    ///
    /// Returns `None` if no index refers to that position.
    pub fn from_tuple(index_type: CollisionBSP3DNodeIndexType, index: usize) -> (r: Option<Self>)
        ensures
            r == Self::spec_from_tuple(index_type, index),
            r matches Some(packed) ==> packed.spec_as_tuple() == Some((index_type, index)),
    {
        match index_type {
            CollisionBSP3DNodeIndexType::Node => {
                if index <= INDEX_MASK as usize {
                    Some(CollisionBSP3DNodeIndex(index as u32))
                } else {
                    None
                }
            },
            CollisionBSP3DNodeIndexType::Leaf => {
                if index < INDEX_MASK as usize {
                    Some(CollisionBSP3DNodeIndex(index as u32 + INDEX_FLAG))
                } else {
                    None
                }
            },
        }
    }

    /// Packing a position and splitting the index again gives the position back.
    pub proof fn lemma_from_tuple_as_tuple(index_type: CollisionBSP3DNodeIndexType, index: usize)
        ensures
            Self::spec_from_tuple(index_type, index) matches Some(packed)
                ==> packed.spec_as_tuple() == Some((index_type, index)),
            Self::spec_from_tuple(index_type, index) is Some <==> index < INDEX_MASK || (index
                == INDEX_MASK && index_type == CollisionBSP3DNodeIndexType::Node),
    {
    }

    /// Splitting an index and packing the parts again gives the index back; the null index
    /// splits into nothing.
    pub proof fn lemma_as_tuple_from_tuple(self)
        ensures
            self.0 == NULL_3D_NODE_INDEX <==> self.spec_as_tuple() is None,
            self.spec_as_tuple() matches Some((index_type, index)) ==> Self::spec_from_tuple(
                index_type,
                index,
            ) == Some(self) && index <= INDEX_MASK,
    {
    }
}

impl CollisionBSP2DNodeIndex {
    /// What the index refers to: a 2D node below the flag bit, a surface from the flag bit on.
    pub open spec fn spec_as_tuple(self) -> (CollisionBSP2DNodeIndexType, usize) {
        if self.0 < INDEX_FLAG {
            (CollisionBSP2DNodeIndexType::Node, self.0 as usize)
        } else {
            (CollisionBSP2DNodeIndexType::Surface, (self.0 - INDEX_FLAG) as usize)
        }
    }

    /// The raw value that refers to position `index` of the table of `index_type`, where the
    /// position fits in 31 bits.
    pub open spec fn spec_from_tuple(
        index_type: CollisionBSP2DNodeIndexType,
        index: usize,
    ) -> Option<CollisionBSP2DNodeIndex> {
        if index > INDEX_MASK {
            None
        } else {
            match index_type {
                CollisionBSP2DNodeIndexType::Node => Some(CollisionBSP2DNodeIndex(index as u32)),
                CollisionBSP2DNodeIndexType::Surface => Some(
                    CollisionBSP2DNodeIndex((index + INDEX_FLAG) as u32),
                ),
            }
        }
    }

    /// Split the index into what it refers to and the position there.
    pub fn as_tuple(self) -> (r: (CollisionBSP2DNodeIndexType, usize))
        ensures
            r == self.spec_as_tuple(),
    {
        let raw: u32 = self.0;
        proof {
            lemma_mask(raw);
        }
        let index: u32 = raw & INDEX_MASK;
        let index_type = if index == raw {
            CollisionBSP2DNodeIndexType::Node
        } else {
            CollisionBSP2DNodeIndexType::Surface
        };
        (index_type, index as usize)
    }

    /// Pack a position in the 2D node table or the surface table into an index.
    ///
    /// Returns `None` if the position does not fit in 31 bits.
    pub fn from_tuple(index_type: CollisionBSP2DNodeIndexType, index: usize) -> (r: Option<Self>)
        ensures
            r == Self::spec_from_tuple(index_type, index),
            r matches Some(packed) ==> packed.spec_as_tuple() == (index_type, index),
    {
        if index > INDEX_MASK as usize {
            return None;
        }
        match index_type {
            CollisionBSP2DNodeIndexType::Node => Some(CollisionBSP2DNodeIndex(index as u32)),
            CollisionBSP2DNodeIndexType::Surface => Some(
                CollisionBSP2DNodeIndex(index as u32 + INDEX_FLAG),
            ),
        }
    }

    /// Packing a position and splitting the index again gives the position back.
    pub proof fn lemma_from_tuple_as_tuple(index_type: CollisionBSP2DNodeIndexType, index: usize)
        ensures
            Self::spec_from_tuple(index_type, index) matches Some(packed)
                ==> packed.spec_as_tuple() == (index_type, index),
            Self::spec_from_tuple(index_type, index) is Some <==> index <= INDEX_MASK,
    {
    }

    /// Splitting an index and packing the parts again gives the index back.
    pub proof fn lemma_as_tuple_from_tuple(self)
        ensures
            Self::spec_from_tuple(self.spec_as_tuple().0, self.spec_as_tuple().1) == Some(self),
            self.spec_as_tuple().1 <= INDEX_MASK,
    {
    }
}

} // verus!
