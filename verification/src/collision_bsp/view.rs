//! The tables of a collision BSP as mathematical values, and what the walk and the check
//! compute on them.

use vstd::prelude::*;
use crate::collision_bsp::index::{
    CollisionBSP2DNodeIndex, CollisionBSP2DNodeIndexType, CollisionBSP3DNodeIndex,
    CollisionBSP3DNodeIndexType,
};
use crate::collision_bsp::{
    BSP2DNodeReference, CollisionBSP2DNode, CollisionBSP3DNode, CollisionBSPError,
    CollisionBSPLeaf, CollisionBSPSurface,
};
use crate::vector::{Plane3D, Vector3D};

verus! {

/// Where one step of the walk through the 3D nodes leads.
pub enum Descent {
    /// On to the 3D node at this position.
    Node(usize),
    /// Into the leaf at this position: the walk ends.
    Leaf(usize),
    /// Out of the BSP: the walk ends.
    Outside,
    /// Nowhere: the step found the BSP malformed.
    Malformed(CollisionBSPError),
}

/// One of the six tables of a collision BSP.
#[derive(Copy, Clone, PartialEq, Eq, Structural, Debug)]
pub enum CollisionBSPTable {
    /// The 3D nodes.
    BSP3DNodes,
    /// The planes.
    Planes,
    /// The leaves.
    Leaves,
    /// The 2D node references.
    BSP2DNodeReferences,
    /// The 2D nodes.
    BSP2DNodes,
    /// The surfaces.
    Surfaces,
}

/// The six tables of a collision BSP as mathematical values.
///
/// Each table is a partial map from positions to records, beside the number of records that
/// the table is said to have; nothing ties the two together. `in_front` is what the
/// arithmetic on a plane and a point decides: whether the point is at a distance of zero or
/// more from the plane.
pub struct CollisionBSPView {
    /// The 3D nodes, by position.
    pub bsp3d_nodes: Map<usize, CollisionBSP3DNode>,
    /// The number of 3D nodes.
    pub bsp3d_node_count: usize,
    /// The planes, by position.
    pub planes: Map<usize, Plane3D>,
    /// The number of planes.
    pub plane_count: usize,
    /// The leaves, by position.
    pub leaves: Map<usize, CollisionBSPLeaf>,
    /// The number of leaves.
    pub leaf_count: usize,
    /// The 2D node references, by position.
    pub bsp2d_node_references: Map<usize, BSP2DNodeReference>,
    /// The number of 2D node references.
    pub bsp2d_node_reference_count: usize,
    /// The 2D nodes, by position.
    pub bsp2d_nodes: Map<usize, CollisionBSP2DNode>,
    /// The number of 2D nodes.
    pub bsp2d_node_count: usize,
    /// The surfaces, by position.
    pub surfaces: Map<usize, CollisionBSPSurface>,
    /// The number of surfaces.
    pub surface_count: usize,
    /// Whether a point is at a distance of zero or more from a plane.
    pub in_front: spec_fn(Plane3D, Vector3D) -> bool,
}

impl CollisionBSPView {
    /// The number of 3D nodes that a walk may evaluate, and the number of positions of the 3D
    /// node table that are checked: the node count, but at least 1.
    pub open spec fn bsp3d_node_bound(self) -> usize {
        if self.bsp3d_node_count == 0 {
            1
        } else {
            self.bsp3d_node_count
        }
    }

    /// Where the walk goes from the 3D node at `index`: to the front child if the point is at
    /// a distance of zero or more from the node's plane, else to the back child.
    pub open spec fn step(self, point: Vector3D, index: usize) -> Descent {
        match self.bsp3d_nodes.get(index) {
            None => Descent::Malformed(CollisionBSPError::Missing3DNode(index)),
            Some(node) => match self.planes.get(node.plane_index) {
                None => Descent::Malformed(CollisionBSPError::MissingPlane(node.plane_index)),
                Some(plane) => {
                    let next = if (self.in_front)(plane, point) {
                        node.front_child
                    } else {
                        node.back_child
                    };
                    match next.spec_as_tuple() {
                        Some((CollisionBSP3DNodeIndexType::Node, n)) => Descent::Node(n),
                        Some((CollisionBSP3DNodeIndexType::Leaf, l)) => Descent::Leaf(l),
                        None => Descent::Outside,
                    }
                },
            },
        }
    }

    /// The outcome of a walk that starts at the 3D node at `index` and may evaluate `budget`
    /// nodes. A walk that has no node left to evaluate fails with a loop at the node it
    /// stands at.
    pub open spec fn descend(self, point: Vector3D, index: usize, budget: nat) -> Result<
        Option<usize>,
        CollisionBSPError,
    >
        decreases budget,
    {
        if budget == 0 {
            Err(CollisionBSPError::BSP3DNodeLoop(index))
        } else {
            match self.step(point, index) {
                Descent::Node(next) => self.descend(point, next, (budget - 1) as nat),
                Descent::Leaf(leaf) => Ok(Some(leaf)),
                Descent::Outside => Ok(None),
                Descent::Malformed(e) => Err(e),
            }
        }
    }

    /// The leaf around `point`: the outcome of the walk from the 3D node at position 0.
    pub open spec fn leaf_for_point(self, point: Vector3D) -> Result<
        Option<usize>,
        CollisionBSPError,
    > {
        self.descend(point, 0, self.bsp3d_node_bound() as nat)
    }
}

impl CollisionBSPView {
    /// The error of following a child of a 3D node: none for the null index, else that the
    /// node or the leaf that the child names is missing.
    pub open spec fn child_3d_error(self, child: CollisionBSP3DNodeIndex) -> Option<
        CollisionBSPError,
    > {
        match child.spec_as_tuple() {
            None => None,
            Some((CollisionBSP3DNodeIndexType::Node, b)) => if self.bsp3d_nodes.dom().contains(b) {
                None
            } else {
                Some(CollisionBSPError::Missing3DNode(b))
            },
            Some((CollisionBSP3DNodeIndexType::Leaf, b)) => if self.leaves.dom().contains(b) {
                None
            } else {
                Some(CollisionBSPError::MissingLeaf(b))
            },
        }
    }

    /// The error of following a child of a 2D node: that the 2D node or the surface that the
    /// child names is missing.
    pub open spec fn child_2d_error(self, child: CollisionBSP2DNodeIndex) -> Option<
        CollisionBSPError,
    > {
        match child.spec_as_tuple() {
            (CollisionBSP2DNodeIndexType::Node, b) => if self.bsp2d_nodes.dom().contains(b) {
                None
            } else {
                Some(CollisionBSPError::Missing2DNode(b))
            },
            (CollisionBSP2DNodeIndexType::Surface, b) => if self.surfaces.dom().contains(b) {
                None
            } else {
                Some(CollisionBSPError::MissingSurface(b))
            },
        }
    }

    /// The error of looking up a plane.
    pub open spec fn plane_error(self, plane: usize) -> Option<CollisionBSPError> {
        if self.planes.dom().contains(plane) {
            None
        } else {
            Some(CollisionBSPError::MissingPlane(plane))
        }
    }

    /// The last position from `lo` up to `hi` that holds no 2D node reference, as an error:
    /// a run of references is looked at from its end.
    pub open spec fn last_missing_reference(self, lo: int, hi: int) -> Option<CollisionBSPError>
        decreases hi - lo,
    {
        if lo >= hi {
            None
        } else if !self.bsp2d_node_references.dom().contains((hi - 1) as usize) {
            Some(CollisionBSPError::Missing2DNodeReference((hi - 1) as usize))
        } else {
            self.last_missing_reference(lo, hi - 1)
        }
    }

    /// The first thing wrong with position `index` of `table`, in the order in which the
    /// record's parts are looked at: the record itself, its plane, then what it refers to.
    /// What a leaf refers to is its run of 2D node references, looked at from the end of the
    /// run: its error is the last position of the run that holds no reference.
    pub open spec fn record_error(self, table: CollisionBSPTable, index: usize) -> Option<
        CollisionBSPError,
    > {
        match table {
            CollisionBSPTable::BSP3DNodes => match self.bsp3d_nodes.get(index) {
                None => Some(CollisionBSPError::Missing3DNode(index)),
                Some(node) => if self.plane_error(node.plane_index) is Some {
                    self.plane_error(node.plane_index)
                } else if self.child_3d_error(node.front_child) is Some {
                    self.child_3d_error(node.front_child)
                } else {
                    self.child_3d_error(node.back_child)
                },
            },
            CollisionBSPTable::Planes => self.plane_error(index),
            CollisionBSPTable::Leaves => match self.leaves.get(index) {
                None => Some(CollisionBSPError::MissingLeaf(index)),
                Some(leaf) => if leaf.bsp_2d_node_reference_start + leaf.bsp_2d_node_reference_count
                    > usize::MAX {
                    Some(CollisionBSPError::BadLeaf(index))
                } else {
                    self.last_missing_reference(
                        leaf.bsp_2d_node_reference_start as int,
                        leaf.bsp_2d_node_reference_start + leaf.bsp_2d_node_reference_count,
                    )
                },
            },
            CollisionBSPTable::BSP2DNodeReferences => match self.bsp2d_node_references.get(index) {
                None => Some(CollisionBSPError::Missing2DNodeReference(index)),
                Some(reference) => if self.plane_error(reference.plane) is Some {
                    self.plane_error(reference.plane)
                } else {
                    match reference.node.spec_as_tuple() {
                        (CollisionBSP2DNodeIndexType::Node, n) => if self.bsp2d_nodes.dom().contains(
                            n,
                        ) {
                            None
                        } else {
                            Some(CollisionBSPError::Missing2DNode(n))
                        },
                        (CollisionBSP2DNodeIndexType::Surface, _) => Some(
                            CollisionBSPError::Bad2DReference(index),
                        ),
                    }
                },
            },
            CollisionBSPTable::BSP2DNodes => match self.bsp2d_nodes.get(index) {
                None => Some(CollisionBSPError::Missing2DNode(index)),
                Some(node) => if self.child_2d_error(node.left_child) is Some {
                    self.child_2d_error(node.left_child)
                } else {
                    self.child_2d_error(node.right_child)
                },
            },
            CollisionBSPTable::Surfaces => match self.surfaces.get(index) {
                None => Some(CollisionBSPError::MissingSurface(index)),
                Some(surface) => self.plane_error(surface.plane),
            },
        }
    }

    /// The number of positions of `table` that are checked, from position 0 on: the table's
    /// count, and for the 3D nodes at least 1.
    pub open spec fn checked_count(self, table: CollisionBSPTable) -> usize {
        match table {
            CollisionBSPTable::BSP3DNodes => self.bsp3d_node_bound(),
            CollisionBSPTable::Planes => self.plane_count,
            CollisionBSPTable::Leaves => self.leaf_count,
            CollisionBSPTable::BSP2DNodeReferences => self.bsp2d_node_reference_count,
            CollisionBSPTable::BSP2DNodes => self.bsp2d_node_count,
            CollisionBSPTable::Surfaces => self.surface_count,
        }
    }

    /// The error of the first position of `table`, from `lo` up to `hi`, that has one.
    pub open spec fn first_error(self, table: CollisionBSPTable, lo: int, hi: int) -> Option<
        CollisionBSPError,
    >
        decreases hi - lo,
    {
        if lo >= hi {
            None
        } else if self.record_error(table, lo as usize) is Some {
            self.record_error(table, lo as usize)
        } else {
            self.first_error(table, lo + 1, hi)
        }
    }

    /// The first error among the checked positions of `table`.
    pub open spec fn table_error(self, table: CollisionBSPTable) -> Option<CollisionBSPError> {
        self.first_error(table, 0, self.checked_count(table) as int)
    }

    /// The first error in the tables, taken in the order 3D nodes, planes, leaves, 2D node
    /// references, 2D nodes, surfaces.
    pub open spec fn first_violation(self) -> Option<CollisionBSPError> {
        if self.table_error(CollisionBSPTable::BSP3DNodes) is Some {
            self.table_error(CollisionBSPTable::BSP3DNodes)
        } else if self.table_error(CollisionBSPTable::Planes) is Some {
            self.table_error(CollisionBSPTable::Planes)
        } else if self.table_error(CollisionBSPTable::Leaves) is Some {
            self.table_error(CollisionBSPTable::Leaves)
        } else if self.table_error(CollisionBSPTable::BSP2DNodeReferences) is Some {
            self.table_error(CollisionBSPTable::BSP2DNodeReferences)
        } else if self.table_error(CollisionBSPTable::BSP2DNodes) is Some {
            self.table_error(CollisionBSPTable::BSP2DNodes)
        } else {
            self.table_error(CollisionBSPTable::Surfaces)
        }
    }

    /// Whether a child of a 3D node leads somewhere: it is null, or the node or leaf that it
    /// names is there.
    pub open spec fn child_3d_resolves(self, child: CollisionBSP3DNodeIndex) -> bool {
        match child.spec_as_tuple() {
            None => true,
            Some((CollisionBSP3DNodeIndexType::Node, b)) => self.bsp3d_nodes.dom().contains(b),
            Some((CollisionBSP3DNodeIndexType::Leaf, b)) => self.leaves.dom().contains(b),
        }
    }

    /// Whether a child of a 2D node leads somewhere: the 2D node or surface that it names is
    /// there.
    pub open spec fn child_2d_resolves(self, child: CollisionBSP2DNodeIndex) -> bool {
        match child.spec_as_tuple() {
            (CollisionBSP2DNodeIndexType::Node, b) => self.bsp2d_nodes.dom().contains(b),
            (CollisionBSP2DNodeIndexType::Surface, b) => self.surfaces.dom().contains(b),
        }
    }

    /// Whether the record at position `index` of `table` is there and everything that it
    /// refers to is there too. For a leaf, the end of its run of references must also be a
    /// `usize`; for a 2D node reference, what it refers to must be a 2D node.
    pub open spec fn record_resolves(self, table: CollisionBSPTable, index: usize) -> bool {
        match table {
            CollisionBSPTable::BSP3DNodes => {
                &&& self.bsp3d_nodes.dom().contains(index)
                &&& self.planes.dom().contains(self.bsp3d_nodes[index].plane_index)
                &&& self.child_3d_resolves(self.bsp3d_nodes[index].front_child)
                &&& self.child_3d_resolves(self.bsp3d_nodes[index].back_child)
            },
            CollisionBSPTable::Planes => self.planes.dom().contains(index),
            CollisionBSPTable::Leaves => {
                &&& self.leaves.dom().contains(index)
                &&& self.leaves[index].bsp_2d_node_reference_start
                    + self.leaves[index].bsp_2d_node_reference_count <= usize::MAX
                &&& forall|r: usize|
                    self.leaves[index].bsp_2d_node_reference_start <= r
                        < self.leaves[index].bsp_2d_node_reference_start
                        + self.leaves[index].bsp_2d_node_reference_count
                        ==> self.bsp2d_node_references.dom().contains(r)
            },
            CollisionBSPTable::BSP2DNodeReferences => {
                &&& self.bsp2d_node_references.dom().contains(index)
                &&& self.planes.dom().contains(self.bsp2d_node_references[index].plane)
                &&& self.bsp2d_node_references[index].node.spec_as_tuple().0
                    == CollisionBSP2DNodeIndexType::Node
                &&& self.bsp2d_nodes.dom().contains(
                    self.bsp2d_node_references[index].node.spec_as_tuple().1,
                )
            },
            CollisionBSPTable::BSP2DNodes => {
                &&& self.bsp2d_nodes.dom().contains(index)
                &&& self.child_2d_resolves(self.bsp2d_nodes[index].left_child)
                &&& self.child_2d_resolves(self.bsp2d_nodes[index].right_child)
            },
            CollisionBSPTable::Surfaces => {
                &&& self.surfaces.dom().contains(index)
                &&& self.planes.dom().contains(self.surfaces[index].plane)
            },
        }
    }

    /// Whether the tables are sound: every checked position of every table holds a record,
    /// and every reference in it resolves.
    pub open spec fn is_sound(self) -> bool {
        forall|table: CollisionBSPTable, index: usize|
            index < self.checked_count(table) ==> #[trigger] self.record_resolves(table, index)
    }

    /// A run of positions has no missing 2D node reference exactly if each of them holds one,
    /// and else its last missing reference is the last position that holds none.
    pub proof fn lemma_last_missing_reference(self, lo: int, hi: int)
        requires
            0 <= lo,
            hi <= usize::MAX + 1,
        ensures
            self.last_missing_reference(lo, hi) is None <==> forall|r: usize|
                lo <= r < hi ==> self.bsp2d_node_references.dom().contains(r),
            self.last_missing_reference(lo, hi) matches Some(e) ==> exists|r: usize|
                lo <= r < hi && e == CollisionBSPError::Missing2DNodeReference(r)
                    && !self.bsp2d_node_references.dom().contains(r) && forall|q: usize|
                    r < q < hi ==> self.bsp2d_node_references.dom().contains(q),
        decreases hi - lo,
    {
        if lo < hi {
            self.lemma_last_missing_reference(lo, hi - 1);
            if self.bsp2d_node_references.dom().contains((hi - 1) as usize) {
                assert forall|r: usize| lo <= r < hi && (forall|q: usize|
                    lo <= q < hi - 1 ==> self.bsp2d_node_references.dom().contains(
                        q,
                    )) implies self.bsp2d_node_references.dom().contains(r) by {
                    if r != hi - 1 {
                        assert(lo <= r < hi - 1);
                    }
                }
                if self.last_missing_reference(lo, hi) is Some {
                    let r = choose|r: usize|
                        lo <= r < hi - 1 && self.last_missing_reference(lo, hi - 1) == Some(
                            CollisionBSPError::Missing2DNodeReference(r),
                        ) && !self.bsp2d_node_references.dom().contains(r) && forall|q: usize|
                            r < q < hi - 1 ==> self.bsp2d_node_references.dom().contains(q);
                    assert forall|q: usize| r < q < hi implies self.bsp2d_node_references.dom().contains(
                        q,
                    ) by {
                        if q != hi - 1 {
                            assert(r < q < hi - 1);
                        }
                    }
                    assert(lo <= r < hi);
                }
            } else {
                assert(lo <= ((hi - 1) as usize) < hi);
            }
        }
    }

    /// A run whose last position holds no 2D node reference has its error there, whatever the
    /// positions before it hold.
    pub proof fn lemma_run_beyond_the_table(self, lo: int, hi: int)
        requires
            0 <= lo < hi <= usize::MAX + 1,
            !self.bsp2d_node_references.dom().contains((hi - 1) as usize),
        ensures
            self.last_missing_reference(lo, hi) == Some(
                CollisionBSPError::Missing2DNodeReference((hi - 1) as usize),
            ),
    {
    }

    /// Splitting a run of positions: its first error is that of the front part, or else that
    /// of the rest.
    pub proof fn lemma_first_error_split(self, table: CollisionBSPTable, lo: int, mid: int, hi: int)
        requires
            lo <= mid <= hi,
        ensures
            self.first_error(table, lo, hi) == if self.first_error(table, lo, mid) is Some {
                self.first_error(table, lo, mid)
            } else {
                self.first_error(table, mid, hi)
            },
        decreases mid - lo,
    {
        if lo < mid {
            self.lemma_first_error_split(table, lo + 1, mid, hi);
        }
    }

    /// Past a front part without an error, the first error of a run of positions is that of
    /// the next position if it has one, and else lies in the rest.
    pub proof fn lemma_first_error_step(self, table: CollisionBSPTable, mid: int, hi: int)
        requires
            0 <= mid < hi,
            self.first_error(table, 0, mid) is None,
        ensures
            self.first_error(table, 0, hi) == if self.record_error(table, mid as usize) is Some {
                self.record_error(table, mid as usize)
            } else {
                self.first_error(table, mid + 1, hi)
            },
            self.record_error(table, mid as usize) is None ==> self.first_error(table, 0, mid + 1)
                is None,
    {
        self.lemma_first_error_split(table, 0, mid, hi);
        self.lemma_first_error_split(table, 0, mid, mid + 1);
        assert(self.first_error(table, mid + 1, mid + 1) is None);
    }

    /// The first error of a run of positions is the error of the first position that has one.
    pub proof fn lemma_first_error(self, table: CollisionBSPTable, lo: int, hi: int)
        requires
            0 <= lo,
            hi <= usize::MAX + 1,
        ensures
            self.first_error(table, lo, hi) is None <==> forall|i: usize|
                lo <= i < hi ==> self.record_error(table, i) is None,
            self.first_error(table, lo, hi) is Some ==> exists|i: usize|
                lo <= i < hi && self.record_error(table, i) == self.first_error(table, lo, hi)
                    && forall|j: usize| lo <= j < i ==> self.record_error(table, j) is None,
        decreases hi - lo,
    {
        if lo < hi {
            self.lemma_first_error(table, lo + 1, hi);
            if self.record_error(table, lo as usize) is Some {
                assert(lo <= (lo as usize) < hi);
            } else {
                assert forall|i: usize| lo <= i < hi && (forall|q: usize|
                    lo + 1 <= q < hi ==> self.record_error(table, q) is None)
                    implies self.record_error(table, i) is None by {
                    if i != lo {
                        assert(lo + 1 <= i < hi);
                    }
                }
                if self.first_error(table, lo, hi) is Some {
                    let i = choose|i: usize|
                        lo + 1 <= i < hi && self.record_error(table, i) == self.first_error(
                            table,
                            lo + 1,
                            hi,
                        ) && forall|j: usize| lo + 1 <= j < i ==> self.record_error(table, j) is None;
                    assert forall|j: usize| lo <= j < i implies self.record_error(
                        table,
                        j,
                    ) is None by {
                        if j != lo {
                            assert(lo + 1 <= j < i);
                        }
                    }
                    assert(lo <= i < hi);
                }
            }
        }
    }

    /// A position has no error exactly if its record is there and all that it refers to
    /// resolves.
    pub proof fn lemma_record_error_none(self, table: CollisionBSPTable, index: usize)
        ensures
            self.record_error(table, index) is None <==> self.record_resolves(table, index),
    {
        if table == CollisionBSPTable::Leaves && self.leaves.dom().contains(index) {
            let leaf = self.leaves[index];
            if leaf.bsp_2d_node_reference_start + leaf.bsp_2d_node_reference_count <= usize::MAX {
                self.lemma_last_missing_reference(
                    leaf.bsp_2d_node_reference_start as int,
                    leaf.bsp_2d_node_reference_start + leaf.bsp_2d_node_reference_count,
                );
            }
        }
    }

    /// A table has no error exactly if each of its checked positions resolves.
    pub proof fn lemma_table_error_none(self, table: CollisionBSPTable)
        ensures
            self.table_error(table) is None <==> forall|i: usize|
                i < self.checked_count(table) ==> #[trigger] self.record_resolves(table, i),
    {
        let n = self.checked_count(table);
        self.lemma_first_error(table, 0, n as int);
        if self.table_error(table) is None {
            assert forall|i: usize| i < n implies #[trigger] self.record_resolves(table, i) by {
                assert(0 <= i < n);
                assert(self.record_error(table, i) is None);
                self.lemma_record_error_none(table, i);
            }
        }
        if forall|i: usize| i < n ==> #[trigger] self.record_resolves(table, i) {
            assert forall|i: usize| 0 <= i < n implies self.record_error(table, i) is None by {
                assert(self.record_resolves(table, i));
                self.lemma_record_error_none(table, i);
            }
        }
    }

    /// The tables have no first error exactly if they are sound.
    pub proof fn lemma_sound_iff_no_violation(self)
        ensures
            self.first_violation() is None <==> self.is_sound(),
    {
        self.lemma_table_error_none(CollisionBSPTable::BSP3DNodes);
        self.lemma_table_error_none(CollisionBSPTable::Planes);
        self.lemma_table_error_none(CollisionBSPTable::Leaves);
        self.lemma_table_error_none(CollisionBSPTable::BSP2DNodeReferences);
        self.lemma_table_error_none(CollisionBSPTable::BSP2DNodes);
        self.lemma_table_error_none(CollisionBSPTable::Surfaces);
    }
}

/// An error, if there is one, as the outcome of a check.
pub open spec fn outcome(error: Option<CollisionBSPError>) -> Result<(), CollisionBSPError> {
    match error {
        None => Ok(()),
        Some(e) => Err(e),
    }
}

} // verus!
