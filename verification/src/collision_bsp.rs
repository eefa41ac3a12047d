//! Collision BSP traversal and validation.
//!
//! A collision BSP is six tables that refer to each other by position: 3D nodes, planes,
//! leaves, 2D node references, 2D nodes and surfaces. Whoever holds the tables implements
//! [`CollisionBSPFunctions`]; this module supplies the walk that finds the leaf around a point
//! and the check that every reference in the tables leads somewhere.

use vstd::prelude::*;
use crate::float::FloatBits;
use crate::vector::{Plane2D, Plane3D, Vector3D};

pub mod index;
pub mod laws;
pub mod view;

pub use crate::collision_bsp::index::{
    CollisionBSP2DNodeIndex, CollisionBSP2DNodeIndexType, CollisionBSP3DNodeIndex,
    CollisionBSP3DNodeIndexType, INDEX_FLAG, INDEX_MASK, NULL_3D_NODE_INDEX,
};
pub use crate::collision_bsp::view::{CollisionBSPTable, CollisionBSPView, Descent};

verus! {

/// A 3D node: a plane that splits space, and what lies on either side of it.
#[derive(Copy, Clone, PartialEq, Eq, Structural, Debug)]
pub struct CollisionBSP3DNode {
    /// The node or leaf in front of the plane.
    pub front_child: CollisionBSP3DNodeIndex,
    /// The node or leaf behind the plane.
    pub back_child: CollisionBSP3DNodeIndex,
    /// The position of the plane in the plane table.
    pub plane_index: usize,
}

/// A leaf: a convex region, with its run of 2D node references.
#[derive(Copy, Clone, PartialEq, Eq, Structural, Debug)]
pub struct CollisionBSPLeaf {
    /// Whether the leaf holds surfaces with two sides.
    pub contains_double_sided_surfaces: bool,
    /// The position of the leaf's first 2D node reference.
    pub bsp_2d_node_reference_start: usize,
    /// The number of 2D node references of the leaf.
    pub bsp_2d_node_reference_count: usize,
}

/// A 2D node reference: the way from a leaf into the 2D nodes.
#[derive(Copy, Clone, PartialEq, Eq, Structural, Debug)]
pub struct BSP2DNodeReference {
    /// The position of the plane in the plane table.
    pub plane: usize,
    /// The first 2D node.
    pub node: CollisionBSP2DNodeIndex,
}

/// A 2D node: a plane that splits a leaf's surfaces, and what lies on either side of it.
#[derive(Copy, Clone, PartialEq, Eq, Structural, Debug)]
pub struct CollisionBSP2DNode {
    /// The splitting plane.
    pub plane: Plane2D,
    /// The 2D node or surface to the left.
    pub left_child: CollisionBSP2DNodeIndex,
    /// The 2D node or surface to the right.
    pub right_child: CollisionBSP2DNodeIndex,
}

/// A surface.
#[derive(Copy, Clone, PartialEq, Eq, Structural, Debug)]
pub struct CollisionBSPSurface {
    /// The position in the plane table of the plane that the surface lies on.
    pub plane: usize,
    /// The material of the surface.
    pub material: u16,
}

/// What is wrong with a malformed BSP.
#[derive(Copy, Clone, PartialEq, Eq, Structural, Debug)]
pub enum CollisionBSPError {
    /// The walk through the 3D nodes did not end; it stood at this node when it was stopped.
    BSP3DNodeLoop(usize),
    /// There is no 3D node at this position.
    Missing3DNode(usize),
    /// There is no 2D node at this position.
    Missing2DNode(usize),
    /// There is no 2D node reference at this position.
    Missing2DNodeReference(usize),
    /// The end of the run of 2D node references of this leaf cannot be computed.
    BadLeaf(usize),
    /// This 2D node reference leads to a surface.
    Bad2DReference(usize),
    /// There is no plane at this position.
    MissingPlane(usize),
    /// There is no leaf at this position.
    MissingLeaf(usize),
    /// There is no surface at this position.
    MissingSurface(usize),
}

/// The tables of a collision BSP, and the walks over them.
///
/// An implementation supplies the twelve lookups and the distance of a point from a plane; the
/// walk for a point and the check of the tables come with the trait. The contracts of the
/// supplied methods are promises of the implementation: what is proved of the walk and of the
/// check holds of implementations that keep them.
pub trait CollisionBSPFunctions {
    /// The tables as mathematical values: what the lookups below give, for every position.
    ///
    /// This is a specification only, and nothing calls it when the program runs.
    spec fn bsp(&self) -> CollisionBSPView;

    /// Get the 3D node at position `node`.
    fn get_3d_node(&self, node: usize) -> (r: Option<CollisionBSP3DNode>)
        ensures
            r == self.bsp().bsp3d_nodes.get(node),
    ;

    /// Return the number of 3D nodes.
    fn get_3d_node_count(&self) -> (r: usize)
        ensures
            r == self.bsp().bsp3d_node_count,
    ;

    /// Get the plane at position `plane`.
    fn get_plane(&self, plane: usize) -> (r: Option<Plane3D>)
        ensures
            r == self.bsp().planes.get(plane),
    ;

    /// Return the number of planes.
    fn get_plane_count(&self) -> (r: usize)
        ensures
            r == self.bsp().plane_count,
    ;

    /// Get the leaf at position `leaf`.
    fn get_leaf(&self, leaf: usize) -> (r: Option<CollisionBSPLeaf>)
        ensures
            r == self.bsp().leaves.get(leaf),
    ;

    /// Return the number of leaves.
    fn get_leaf_count(&self) -> (r: usize)
        ensures
            r == self.bsp().leaf_count,
    ;

    /// Get the 2D node reference at position `node`.
    fn get_2d_node_reference(&self, node: usize) -> (r: Option<BSP2DNodeReference>)
        ensures
            r == self.bsp().bsp2d_node_references.get(node),
    ;

    /// Return the number of 2D node references.
    fn get_2d_node_reference_count(&self) -> (r: usize)
        ensures
            r == self.bsp().bsp2d_node_reference_count,
    ;

    /// Get the 2D node at position `node`.
    fn get_2d_node(&self, node: usize) -> (r: Option<CollisionBSP2DNode>)
        ensures
            r == self.bsp().bsp2d_nodes.get(node),
    ;

    /// Return the number of 2D nodes.
    fn get_2d_node_count(&self) -> (r: usize)
        ensures
            r == self.bsp().bsp2d_node_count,
    ;

    /// Get the surface at position `surface`.
    fn get_surface(&self, surface: usize) -> (r: Option<CollisionBSPSurface>)
        ensures
            r == self.bsp().surfaces.get(surface),
    ;

    /// Return the number of surfaces.
    fn get_surface_count(&self) -> (r: usize)
        ensures
            r == self.bsp().surface_count,
    ;

    /// Compute the distance of `point` from `plane`: the product of the point and the plane's
    /// vector, less the plane's offset.
    ///
    /// The arithmetic is the implementation's. The contract asks only that whether the
    /// distance is zero or more be a function of the plane and the point: the bits of a
    /// distance that is no number may differ from one call to the next.
    fn distance_to_point(&self, plane: &Plane3D, point: &Vector3D) -> (r: FloatBits)
        ensures
            r.is_at_least_zero() == (self.bsp().in_front)(*plane, *point),
    ;

    /// Test a point to see if it is in the BSP.
    ///
    /// Returns `Ok(true)` if the point is in a leaf, `Ok(false)` if it is outside the BSP, and
    /// the error of [`CollisionBSPFunctions::leaf_index_for_point`] if the BSP is malformed.
    fn point_inside_bsp(&self, point: &Vector3D) -> (r: Result<bool, CollisionBSPError>)
        ensures
            r == match self.bsp().leaf_for_point(*point) {
                Ok(leaf) => Ok::<bool, CollisionBSPError>(leaf is Some),
                Err(e) => Err(e),
            },
    {
        match self.leaf_index_for_point(point) {
            Ok(leaf) => Ok(leaf.is_some()),
            Err(e) => Err(e),
        }
    }

    /// Return the position of the leaf around the given point.
    ///
    /// Returns `Ok(Some(_))` if the point is in a leaf, `Ok(None)` if it is outside the BSP,
    /// and `Err(_)` if the walk finds the BSP malformed: a node or a plane that is missing, or
    /// more nodes on the way than the BSP has.
    fn leaf_index_for_point(&self, point: &Vector3D) -> (r: Result<
        Option<usize>,
        CollisionBSPError,
    >)
        ensures
            r == self.bsp().leaf_for_point(*point),
    {
        let count = self.get_3d_node_count();
        let bound: usize = if count == 0 {
            1
        } else {
            count
        };
        let mut index: usize = 0;
        let mut evaluated: usize = 0;
        while evaluated < bound
            invariant
                evaluated <= bound,
                bound == self.bsp().bsp3d_node_bound(),
                self.bsp().leaf_for_point(*point) == self.bsp().descend(
                    *point,
                    index,
                    (bound - evaluated) as nat,
                ),
            decreases bound - evaluated,
        {
            let node = match self.get_3d_node(index) {
                Some(node) => node,
                None => {
                    return Err(CollisionBSPError::Missing3DNode(index));
                },
            };
            let plane = match self.get_plane(node.plane_index) {
                Some(plane) => plane,
                None => {
                    return Err(CollisionBSPError::MissingPlane(node.plane_index));
                },
            };
            let next = if self.distance_to_point(&plane, point).at_least_zero() {
                node.front_child
            } else {
                node.back_child
            };
            match next.as_tuple() {
                Some((CollisionBSP3DNodeIndexType::Node, next_index)) => {
                    index = next_index;
                },
                Some((CollisionBSP3DNodeIndexType::Leaf, leaf)) => {
                    return Ok(Some(leaf));
                },
                None => {
                    return Ok(None);
                },
            }
            evaluated = evaluated + 1;
        }
        Err(CollisionBSPError::BSP3DNodeLoop(index))
    }

    /// Check the tables for references that lead nowhere.
    ///
    /// The tables are checked in the order 3D nodes, planes, leaves, 2D node references, 2D
    /// nodes and surfaces, each from position 0 up to its count, and the first error found is
    /// returned. Returns `Ok(())` if there is none.
    ///
    /// The run of 2D node references of a leaf is looked at from its end: of a run that
    /// reaches beyond the table, the error names the last position of the run.
    ///
    /// The 3D node at position 0 is checked even where the count of 3D nodes is 0, as a walk
    /// starts there. The leaves are checked below the count of leaves and no further: the
    /// position of the count itself is not looked at, so that a leaf table that holds as many
    /// leaves as it counts can pass.
    fn bounds_check(&self) -> (result: Result<(), CollisionBSPError>)
        ensures
            result == crate::collision_bsp::view::outcome(self.bsp().first_violation()),
            result is Ok <==> self.bsp().is_sound(),
    {
        proof {
            self.bsp().lemma_sound_iff_no_violation();
        }
        let bsp_3d_node_count = self.get_3d_node_count();
        let bsp_3d_node_bound: usize = if bsp_3d_node_count == 0 {
            1
        } else {
            bsp_3d_node_count
        };
        let mut n: usize = 0;
        while n < bsp_3d_node_bound
            invariant
                self.bsp().first_violation() is None <==> self.bsp().is_sound(),
                n <= bsp_3d_node_bound,
                bsp_3d_node_bound == self.bsp().checked_count(CollisionBSPTable::BSP3DNodes),
                self.bsp().first_error(CollisionBSPTable::BSP3DNodes, 0, n as int) is None,
            decreases bsp_3d_node_bound - n,
        {
            proof {
                self.bsp().lemma_first_error_step(
                    CollisionBSPTable::BSP3DNodes,
                    n as int,
                    bsp_3d_node_bound as int,
                );
            }
            let node = match self.get_3d_node(n) {
                Some(node) => node,
                None => {
                    return Err(CollisionBSPError::Missing3DNode(n));
                },
            };
            if self.get_plane(node.plane_index).is_none() {
                return Err(CollisionBSPError::MissingPlane(node.plane_index));
            }
            match node.front_child.as_tuple() {
                Some((CollisionBSP3DNodeIndexType::Node, b)) => {
                    if self.get_3d_node(b).is_none() {
                        return Err(CollisionBSPError::Missing3DNode(b));
                    }
                },
                Some((CollisionBSP3DNodeIndexType::Leaf, b)) => {
                    if self.get_leaf(b).is_none() {
                        return Err(CollisionBSPError::MissingLeaf(b));
                    }
                },
                None => {},
            }
            match node.back_child.as_tuple() {
                Some((CollisionBSP3DNodeIndexType::Node, b)) => {
                    if self.get_3d_node(b).is_none() {
                        return Err(CollisionBSPError::Missing3DNode(b));
                    }
                },
                Some((CollisionBSP3DNodeIndexType::Leaf, b)) => {
                    if self.get_leaf(b).is_none() {
                        return Err(CollisionBSPError::MissingLeaf(b));
                    }
                },
                None => {},
            }
            n = n + 1;
        }

        let plane_count = self.get_plane_count();
        let mut p: usize = 0;
        while p < plane_count
            invariant
                self.bsp().first_violation() is None <==> self.bsp().is_sound(),
                p <= plane_count,
                plane_count == self.bsp().checked_count(CollisionBSPTable::Planes),
                self.bsp().table_error(CollisionBSPTable::BSP3DNodes) is None,
                self.bsp().first_error(CollisionBSPTable::Planes, 0, p as int) is None,
            decreases plane_count - p,
        {
            proof {
                self.bsp().lemma_first_error_step(
                    CollisionBSPTable::Planes,
                    p as int,
                    plane_count as int,
                );
            }
            if self.get_plane(p).is_none() {
                return Err(CollisionBSPError::MissingPlane(p));
            }
            p = p + 1;
        }

        let leaf_count = self.get_leaf_count();
        let mut l: usize = 0;
        while l < leaf_count
            invariant
                self.bsp().first_violation() is None <==> self.bsp().is_sound(),
                l <= leaf_count,
                leaf_count == self.bsp().checked_count(CollisionBSPTable::Leaves),
                self.bsp().table_error(CollisionBSPTable::BSP3DNodes) is None,
                self.bsp().table_error(CollisionBSPTable::Planes) is None,
                self.bsp().first_error(CollisionBSPTable::Leaves, 0, l as int) is None,
            decreases leaf_count - l,
        {
            proof {
                self.bsp().lemma_first_error_step(
                    CollisionBSPTable::Leaves,
                    l as int,
                    leaf_count as int,
                );
            }
            let leaf = match self.get_leaf(l) {
                Some(leaf) => leaf,
                None => {
                    return Err(CollisionBSPError::MissingLeaf(l));
                },
            };
            let start = leaf.bsp_2d_node_reference_start;
            let end = match start.checked_add(leaf.bsp_2d_node_reference_count) {
                Some(end) => end,
                None => {
                    return Err(CollisionBSPError::BadLeaf(l));
                },
            };
            let mut r: usize = end;
            while r > start
                invariant
                    self.bsp().first_violation() is None <==> self.bsp().is_sound(),
                    self.bsp().table_error(CollisionBSPTable::BSP3DNodes) is None,
                    self.bsp().table_error(CollisionBSPTable::Planes) is None,
                    leaf_count == self.bsp().checked_count(CollisionBSPTable::Leaves),
                    start <= end ==> start <= r <= end,
                    r <= end,
                    self.bsp().record_error(CollisionBSPTable::Leaves, l)
                        == self.bsp().last_missing_reference(start as int, r as int),
                    self.bsp().record_error(CollisionBSPTable::Leaves, l) is Some
                        ==> self.bsp().first_error(CollisionBSPTable::Leaves, 0, leaf_count as int)
                        == self.bsp().record_error(CollisionBSPTable::Leaves, l),
                    self.bsp().record_error(CollisionBSPTable::Leaves, l) is None
                        ==> self.bsp().first_error(CollisionBSPTable::Leaves, 0, l + 1) is None,
                decreases r,
            {
                r = r - 1;
                if self.get_2d_node_reference(r).is_none() {
                    return Err(CollisionBSPError::Missing2DNodeReference(r));
                }
            }
            l = l + 1;
        }

        let bsp_2d_node_reference_count = self.get_2d_node_reference_count();
        let mut r: usize = 0;
        while r < bsp_2d_node_reference_count
            invariant
                self.bsp().first_violation() is None <==> self.bsp().is_sound(),
                r <= bsp_2d_node_reference_count,
                bsp_2d_node_reference_count == self.bsp().checked_count(
                    CollisionBSPTable::BSP2DNodeReferences,
                ),
                self.bsp().table_error(CollisionBSPTable::BSP3DNodes) is None,
                self.bsp().table_error(CollisionBSPTable::Planes) is None,
                self.bsp().table_error(CollisionBSPTable::Leaves) is None,
                self.bsp().first_error(CollisionBSPTable::BSP2DNodeReferences, 0, r as int) is None,
            decreases bsp_2d_node_reference_count - r,
        {
            proof {
                self.bsp().lemma_first_error_step(
                    CollisionBSPTable::BSP2DNodeReferences,
                    r as int,
                    bsp_2d_node_reference_count as int,
                );
            }
            let reference = match self.get_2d_node_reference(r) {
                Some(reference) => reference,
                None => {
                    return Err(CollisionBSPError::Missing2DNodeReference(r));
                },
            };
            if self.get_plane(reference.plane).is_none() {
                return Err(CollisionBSPError::MissingPlane(reference.plane));
            }
            match reference.node.as_tuple() {
                (CollisionBSP2DNodeIndexType::Node, b) => {
                    if self.get_2d_node(b).is_none() {
                        return Err(CollisionBSPError::Missing2DNode(b));
                    }
                },
                (CollisionBSP2DNodeIndexType::Surface, _) => {
                    return Err(CollisionBSPError::Bad2DReference(r));
                },
            }
            r = r + 1;
        }

        let bsp_2d_node_count = self.get_2d_node_count();
        let mut n: usize = 0;
        while n < bsp_2d_node_count
            invariant
                self.bsp().first_violation() is None <==> self.bsp().is_sound(),
                n <= bsp_2d_node_count,
                bsp_2d_node_count == self.bsp().checked_count(CollisionBSPTable::BSP2DNodes),
                self.bsp().table_error(CollisionBSPTable::BSP3DNodes) is None,
                self.bsp().table_error(CollisionBSPTable::Planes) is None,
                self.bsp().table_error(CollisionBSPTable::Leaves) is None,
                self.bsp().table_error(CollisionBSPTable::BSP2DNodeReferences) is None,
                self.bsp().first_error(CollisionBSPTable::BSP2DNodes, 0, n as int) is None,
            decreases bsp_2d_node_count - n,
        {
            proof {
                self.bsp().lemma_first_error_step(
                    CollisionBSPTable::BSP2DNodes,
                    n as int,
                    bsp_2d_node_count as int,
                );
            }
            let node = match self.get_2d_node(n) {
                Some(node) => node,
                None => {
                    return Err(CollisionBSPError::Missing2DNode(n));
                },
            };
            match node.left_child.as_tuple() {
                (CollisionBSP2DNodeIndexType::Node, b) => {
                    if self.get_2d_node(b).is_none() {
                        return Err(CollisionBSPError::Missing2DNode(b));
                    }
                },
                (CollisionBSP2DNodeIndexType::Surface, b) => {
                    if self.get_surface(b).is_none() {
                        return Err(CollisionBSPError::MissingSurface(b));
                    }
                },
            }
            match node.right_child.as_tuple() {
                (CollisionBSP2DNodeIndexType::Node, b) => {
                    if self.get_2d_node(b).is_none() {
                        return Err(CollisionBSPError::Missing2DNode(b));
                    }
                },
                (CollisionBSP2DNodeIndexType::Surface, b) => {
                    if self.get_surface(b).is_none() {
                        return Err(CollisionBSPError::MissingSurface(b));
                    }
                },
            }
            n = n + 1;
        }

        let surface_count = self.get_surface_count();
        let mut s: usize = 0;
        while s < surface_count
            invariant
                self.bsp().first_violation() is None <==> self.bsp().is_sound(),
                s <= surface_count,
                surface_count == self.bsp().checked_count(CollisionBSPTable::Surfaces),
                self.bsp().table_error(CollisionBSPTable::BSP3DNodes) is None,
                self.bsp().table_error(CollisionBSPTable::Planes) is None,
                self.bsp().table_error(CollisionBSPTable::Leaves) is None,
                self.bsp().table_error(CollisionBSPTable::BSP2DNodeReferences) is None,
                self.bsp().table_error(CollisionBSPTable::BSP2DNodes) is None,
                self.bsp().first_error(CollisionBSPTable::Surfaces, 0, s as int) is None,
            decreases surface_count - s,
        {
            proof {
                self.bsp().lemma_first_error_step(
                    CollisionBSPTable::Surfaces,
                    s as int,
                    surface_count as int,
                );
            }
            let surface = match self.get_surface(s) {
                Some(surface) => surface,
                None => {
                    return Err(CollisionBSPError::MissingSurface(s));
                },
            };
            if self.get_plane(surface.plane).is_none() {
                return Err(CollisionBSPError::MissingPlane(surface.plane));
            }
            s = s + 1;
        }

        Ok(())
    }
}

} // verus!
