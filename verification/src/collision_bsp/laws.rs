//! What holds of every walk and of every check.
//!
//! A walk without a cycle, through nodes that are there with their planes, ends within as
//! many nodes as the BSP has, and a walk with a cycle fails with a loop. Tables that pass the
//! check have every reference resolve, and taking away a record that is referred to makes the
//! check fail with that record missing.

use vstd::prelude::*;
use crate::collision_bsp::index::{CollisionBSP2DNodeIndexType, CollisionBSP3DNodeIndexType};
use crate::collision_bsp::view::{CollisionBSPTable, CollisionBSPView, Descent};
use crate::collision_bsp::CollisionBSPError;
use crate::vector::Vector3D;

verus! {

impl CollisionBSPView {
    /// The 3D node that the walk for `point` stands at after `steps` steps from the node at
    /// position 0, if it has not ended before.
    pub open spec fn standing(self, point: Vector3D, steps: nat) -> Option<usize>
        decreases steps,
    {
        if steps == 0 {
            Some(0)
        } else {
            match self.standing(point, (steps - 1) as nat) {
                Some(index) => match self.step(point, index) {
                    Descent::Node(next) => Some(next),
                    _ => None,
                },
                None => None,
            }
        }
    }

    /// Whether the walk for `point` never comes to the same 3D node twice.
    pub open spec fn walk_has_no_cycle(self, point: Vector3D) -> bool {
        forall|j: nat, k: nat|
            j < k && self.standing(point, j) is Some ==> #[trigger] self.standing(point, j)
                != #[trigger] self.standing(point, k)
    }

    /// Whether the 3D node table holds nothing at or beyond its count.
    pub open spec fn bsp3d_nodes_within_count(self) -> bool {
        forall|i: usize| self.bsp3d_nodes.dom().contains(i) ==> i < self.bsp3d_node_count
    }

    /// Whether the 3D node at `index` is there, below the count, with its plane.
    pub open spec fn node_resolves(self, index: usize) -> bool {
        &&& self.bsp3d_nodes.dom().contains(index)
        &&& index < self.bsp3d_node_count
        &&& self.planes.dom().contains(self.bsp3d_nodes[index].plane_index)
    }

    /// Whether every 3D node that the walk for `point` comes to, from the node at position 0
    /// on, is there, below the count, with its plane.
    pub open spec fn walk_resolves(self, point: Vector3D) -> bool {
        forall|steps: nat| #[trigger]
            self.standing(point, steps) is Some ==> self.node_resolves(
                self.standing(point, steps)->0,
            )
    }

    /// A walk that stands at a node after some steps goes on from there with what is left of
    /// its budget.
    pub proof fn lemma_descend_from_standing(self, point: Vector3D, steps: nat, budget: nat)
        requires
            steps <= budget,
            self.standing(point, steps) is Some,
        ensures
            self.descend(point, 0, budget) == self.descend(
                point,
                self.standing(point, steps)->0,
                (budget - steps) as nat,
            ),
        decreases steps,
    {
        if steps > 0 {
            self.lemma_descend_from_standing(point, (steps - 1) as nat, budget);
        }
    }

    /// On sound tables with no 3D node beyond the count, every node that a walk stands at is
    /// there, below the count, with its plane.
    proof fn lemma_standing_resolves(self, point: Vector3D, steps: nat)
        requires
            self.is_sound(),
            self.bsp3d_nodes_within_count(),
            self.standing(point, steps) is Some,
        ensures
            self.node_resolves(self.standing(point, steps)->0),
        decreases steps,
    {
        let index = self.standing(point, steps)->0;
        if steps == 0 {
            assert(self.record_resolves(CollisionBSPTable::BSP3DNodes, 0));
        } else {
            let before = self.standing(point, (steps - 1) as nat)->0;
            self.lemma_standing_resolves(point, (steps - 1) as nat);
            assert(self.record_resolves(CollisionBSPTable::BSP3DNodes, before));
        }
        assert(self.record_resolves(CollisionBSPTable::BSP3DNodes, index));
    }

    /// On sound tables with no 3D node beyond the count, every walk comes only to nodes that
    /// are there, below the count, with their planes.
    pub proof fn lemma_walk_in_sound_tables_resolves(self, point: Vector3D)
        requires
            self.is_sound(),
            self.bsp3d_nodes_within_count(),
        ensures
            self.walk_resolves(point),
    {
        assert forall|steps: nat| #[trigger]
            self.standing(point, steps) is Some implies self.node_resolves(
            self.standing(point, steps)->0,
        ) by {
            self.lemma_standing_resolves(point, steps);
        }
    }

    /// A walk that stands at a node after each of `steps` steps, and never at the same node
    /// twice, has seen more nodes than it made steps: where all of them are below the count,
    /// it made fewer steps than the count.
    proof fn lemma_distinct_nodes_fit(self, point: Vector3D, steps: nat)
        requires
            self.walk_resolves(point),
            self.walk_has_no_cycle(point),
            forall|k: nat| k <= steps ==> self.standing(point, k) is Some,
        ensures
            steps < self.bsp3d_node_count,
    {
        let seen = Seq::new((steps + 1) as nat, |k: int| self.standing(point, k as nat)->0 as int);
        assert forall|i: int, j: int|
            0 <= i < seen.len() && 0 <= j < seen.len() && i != j implies seen[i] != seen[j] by {
            if i < j {
                assert(self.standing(point, i as nat) != self.standing(point, j as nat));
            } else {
                assert(self.standing(point, j as nat) != self.standing(point, i as nat));
            }
        }
        seen.unique_seq_to_set();
        let below = vstd::set_lib::set_int_range(0, self.bsp3d_node_count as int);
        vstd::set_lib::lemma_int_range(0, self.bsp3d_node_count as int);
        assert forall|a: int| seen.to_set().contains(a) implies below.contains(a) by {
            let k = choose|k: int| 0 <= k < seen.len() && seen[k] == a;
            assert(self.standing(point, k as nat) is Some);
            assert(self.node_resolves(self.standing(point, k as nat)->0));
        }
        vstd::set_lib::lemma_len_subset(seen.to_set(), below);
    }

    /// The number of nodes that the walk for `point` evaluates on tables where it has no
    /// cycle: the first number of steps after which it stands nowhere, looked for from `from`
    /// on.
    proof fn lemma_walk_ends_from(self, point: Vector3D, from: nat) -> (evaluated: nat)
        requires
            self.walk_resolves(point),
            self.walk_has_no_cycle(point),
            forall|k: nat| k <= from ==> self.standing(point, k) is Some,
        ensures
            from < evaluated <= self.bsp3d_node_count,
            self.standing(point, evaluated) is None,
            self.standing(point, (evaluated - 1) as nat) is Some,
        decreases self.bsp3d_node_count - from,
    {
        self.lemma_distinct_nodes_fit(point, from);
        if self.standing(point, from + 1) is None {
            from + 1
        } else {
            assert forall|k: nat| k <= from + 1 implies self.standing(point, k) is Some by {
                if k <= from {
                } else {
                    assert(k == from + 1);
                }
            }
            self.lemma_walk_ends_from(point, from + 1)
        }
    }

    /// A walk that never comes to the same node twice, and only to nodes that are there, below
    /// the count, with their planes, ends in a leaf or outside the BSP, and has by then
    /// evaluated no more nodes than the count: it gives the same with any budget from that
    /// number of nodes on.
    pub proof fn lemma_walk_without_cycle_ends(self, point: Vector3D) -> (evaluated: nat)
        requires
            self.walk_resolves(point),
            self.walk_has_no_cycle(point),
        ensures
            1 <= evaluated <= self.bsp3d_node_count,
            self.standing(point, evaluated) is None,
            self.standing(point, (evaluated - 1) as nat) is Some,
            self.leaf_for_point(point) is Ok,
            forall|budget: nat|
                evaluated <= budget ==> #[trigger] self.descend(point, 0, budget)
                    == self.leaf_for_point(point),
    {
        let evaluated = self.lemma_walk_ends_from(point, 0);
        let last = (evaluated - 1) as nat;
        assert(self.node_resolves(self.standing(point, last)->0));
        self.lemma_descend_from_standing(point, last, self.bsp3d_node_bound() as nat);
        assert forall|budget: nat| evaluated <= budget implies #[trigger] self.descend(
            point,
            0,
            budget,
        ) == self.leaf_for_point(point) by {
            self.lemma_descend_from_standing(point, last, budget);
        }
        evaluated
    }

    /// Whether the 3D node at `to` is a child of the 3D node at `from`.
    pub open spec fn is_child(self, from: usize, to: usize) -> bool {
        self.bsp3d_nodes.dom().contains(from) && (self.bsp3d_nodes[from].front_child.spec_as_tuple()
            == Some((CollisionBSP3DNodeIndexType::Node, to))
            || self.bsp3d_nodes[from].back_child.spec_as_tuple() == Some(
            (CollisionBSP3DNodeIndexType::Node, to),
        ))
    }

    /// Whether each 3D node of `path` but the first is a child of the one before it.
    pub open spec fn is_path(self, path: Seq<usize>) -> bool {
        forall|i: int| 0 <= i < path.len() - 1 ==> self.is_child(#[trigger] path[i], path[i + 1])
    }

    /// Whether the 3D nodes hold no cycle: no path from a node leads back to it.
    pub open spec fn has_no_cycle(self) -> bool {
        forall|path: Seq<usize>|
            path.len() >= 2 && #[trigger] self.is_path(path) ==> path.first() != path.last()
    }

    /// In 3D nodes without a cycle no walk comes to the same node twice.
    pub proof fn lemma_no_cycle_in_any_walk(self, point: Vector3D)
        requires
            self.has_no_cycle(),
        ensures
            self.walk_has_no_cycle(point),
    {
        assert forall|j: nat, k: nat|
            j < k && self.standing(point, j) is Some implies #[trigger] self.standing(point, j)
            != #[trigger] self.standing(point, k) by {
            if self.standing(point, j) == self.standing(point, k) {
                let path = Seq::new((k - j + 1) as nat, |i: int| self.standing(point, (j + i) as nat)->0);
                assert forall|i: int| 0 <= i < path.len() - 1 implies self.is_child(
                    #[trigger] path[i],
                    path[i + 1],
                ) by {
                    if self.standing(point, (j + i + 1) as nat) is None {
                        self.lemma_standing_stays_none(point, (j + i + 1) as nat, k);
                    }
                    assert(self.standing(point, (j + i) as nat) is Some);
                }
                assert(self.is_path(path));
                assert(path.first() == path.last());
            }
        }
    }

    /// Among 3D nodes without a cycle, a walk that comes only to nodes that are there, below
    /// the count, with their planes, ends in a leaf or outside the BSP when it has evaluated
    /// no more nodes than the count.
    pub proof fn lemma_walk_in_tables_without_cycle_ends(self, point: Vector3D) -> (evaluated: nat)
        requires
            self.walk_resolves(point),
            self.has_no_cycle(),
        ensures
            1 <= evaluated <= self.bsp3d_node_count,
            self.standing(point, evaluated) is None,
            self.leaf_for_point(point) is Ok,
            self.leaf_for_point(point) == self.descend(point, 0, evaluated),
    {
        self.lemma_no_cycle_in_any_walk(point);
        self.lemma_walk_without_cycle_ends(point)
    }

    /// A walk that stands nowhere after some steps stands nowhere after more.
    proof fn lemma_standing_stays_none(self, point: Vector3D, steps: nat, later: nat)
        requires
            steps <= later,
            self.standing(point, steps) is None,
        ensures
            self.standing(point, later) is None,
        decreases later - steps,
    {
        if steps < later {
            self.lemma_standing_stays_none(point, steps, (later - 1) as nat);
        }
    }

    /// A walk that stands at the same node after `j` and after `k` steps does so again
    /// `more` steps later.
    proof fn lemma_cycle_repeats(self, point: Vector3D, j: nat, k: nat, more: nat)
        requires
            self.standing(point, j) == self.standing(point, k),
        ensures
            self.standing(point, j + more) == self.standing(point, k + more),
        decreases more,
    {
        if more > 0 {
            self.lemma_cycle_repeats(point, j, k, (more - 1) as nat);
            assert(j + more - 1 == j + (more - 1) as nat);
            assert(k + more - 1 == k + (more - 1) as nat);
        }
    }

    /// A walk that stands at the same node after `j` and after `k` steps stands at a node
    /// after any number of steps.
    proof fn lemma_cycle_never_ends(self, point: Vector3D, j: nat, k: nat, steps: nat)
        requires
            j < k,
            self.standing(point, j) is Some,
            self.standing(point, j) == self.standing(point, k),
        ensures
            self.standing(point, steps) is Some,
        decreases steps,
    {
        if steps <= k {
            if self.standing(point, steps) is None {
                self.lemma_standing_stays_none(point, steps, k);
            }
        } else {
            let more = (steps - k) as nat;
            self.lemma_cycle_never_ends(point, j, k, j + more);
            self.lemma_cycle_repeats(point, j, k, more);
        }
    }

    /// A walk from a node that it stands at, and that stands at a node after each further
    /// step of its budget, fails with a loop at the node where the budget is used up.
    proof fn lemma_exhausted_budget_from(self, point: Vector3D, steps: nat, budget: nat)
        requires
            forall|k: nat| k <= steps + budget ==> self.standing(point, k) is Some,
        ensures
            self.descend(point, self.standing(point, steps)->0, budget) == Err::<
                Option<usize>,
                CollisionBSPError,
            >(CollisionBSPError::BSP3DNodeLoop(self.standing(point, steps + budget)->0)),
        decreases budget,
    {
        if budget > 0 {
            assert(self.standing(point, steps) is Some);
            assert(self.standing(point, steps + 1) is Some);
            assert(steps + 1 + (budget - 1) as nat == steps + budget);
            self.lemma_exhausted_budget_from(point, steps + 1, (budget - 1) as nat);
        }
    }

    /// A walk that comes to the same node twice fails with a loop: at the node that it
    /// stands at when it has evaluated as many nodes as it may.
    pub proof fn lemma_walk_with_cycle_loops(self, point: Vector3D, j: nat, k: nat)
        requires
            j < k,
            self.standing(point, j) is Some,
            self.standing(point, j) == self.standing(point, k),
        ensures
            self.standing(point, self.bsp3d_node_bound() as nat) is Some,
            self.leaf_for_point(point) == Err::<Option<usize>, CollisionBSPError>(
                CollisionBSPError::BSP3DNodeLoop(
                    self.standing(point, self.bsp3d_node_bound() as nat)->0,
                ),
            ),
    {
        let bound = self.bsp3d_node_bound() as nat;
        assert forall|n: nat| n <= 0 + bound implies self.standing(point, n) is Some by {
            self.lemma_cycle_never_ends(point, j, k, n);
        }
        self.lemma_exhausted_budget_from(point, 0, bound);
    }

    /// A walk that fails with a loop has stood at a node after each step that its budget
    /// allowed: it was stopped, and did not end.
    pub proof fn lemma_loop_is_exhausted_budget(self, point: Vector3D, index: usize, budget: nat)
        requires
            self.descend(point, 0, budget) == Err::<Option<usize>, CollisionBSPError>(
                CollisionBSPError::BSP3DNodeLoop(index),
            ),
        ensures
            self.standing(point, budget) == Some(index),
    {
        self.lemma_loop_from(point, 0, budget, 0, index);
    }

    /// A walk from a node that it stands at, failing with a loop, stands at the node of the
    /// loop when its budget is used up.
    proof fn lemma_loop_from(self, point: Vector3D, steps: nat, budget: nat, at: usize, index: usize)
        requires
            self.standing(point, steps) == Some(at),
            self.descend(point, at, budget) == Err::<Option<usize>, CollisionBSPError>(
                CollisionBSPError::BSP3DNodeLoop(index),
            ),
        ensures
            self.standing(point, steps + budget) == Some(index),
        decreases budget,
    {
        if budget > 0 {
            match self.step(point, at) {
                Descent::Node(next) => {
                    assert(self.standing(point, steps + 1) == Some(next));
                    self.lemma_loop_from(point, steps + 1, (budget - 1) as nat, next, index);
                },
                _ => {},
            }
        }
    }
}

impl CollisionBSPView {
    /// The tables without the record at position `index` of `table`.
    pub open spec fn without(self, table: CollisionBSPTable, index: usize) -> CollisionBSPView {
        match table {
            CollisionBSPTable::BSP3DNodes => CollisionBSPView {
                bsp3d_nodes: self.bsp3d_nodes.remove(index),
                ..self
            },
            CollisionBSPTable::Planes => CollisionBSPView {
                planes: self.planes.remove(index),
                ..self
            },
            CollisionBSPTable::Leaves => CollisionBSPView {
                leaves: self.leaves.remove(index),
                ..self
            },
            CollisionBSPTable::BSP2DNodeReferences => CollisionBSPView {
                bsp2d_node_references: self.bsp2d_node_references.remove(index),
                ..self
            },
            CollisionBSPTable::BSP2DNodes => CollisionBSPView {
                bsp2d_nodes: self.bsp2d_nodes.remove(index),
                ..self
            },
            CollisionBSPTable::Surfaces => CollisionBSPView {
                surfaces: self.surfaces.remove(index),
                ..self
            },
        }
    }

    /// Whether the record at position `at` of the table `from` is there and refers to
    /// position `index` of `table`.
    pub open spec fn refers_to(
        self,
        from: CollisionBSPTable,
        at: usize,
        table: CollisionBSPTable,
        index: usize,
    ) -> bool {
        match from {
            CollisionBSPTable::BSP3DNodes => self.bsp3d_nodes.dom().contains(at) && match table {
                CollisionBSPTable::Planes => self.bsp3d_nodes[at].plane_index == index,
                CollisionBSPTable::BSP3DNodes => self.bsp3d_nodes[at].front_child.spec_as_tuple()
                    == Some((CollisionBSP3DNodeIndexType::Node, index))
                    || self.bsp3d_nodes[at].back_child.spec_as_tuple() == Some(
                    (CollisionBSP3DNodeIndexType::Node, index),
                ),
                CollisionBSPTable::Leaves => self.bsp3d_nodes[at].front_child.spec_as_tuple()
                    == Some((CollisionBSP3DNodeIndexType::Leaf, index))
                    || self.bsp3d_nodes[at].back_child.spec_as_tuple() == Some(
                    (CollisionBSP3DNodeIndexType::Leaf, index),
                ),
                _ => false,
            },
            CollisionBSPTable::Planes => false,
            CollisionBSPTable::Leaves => self.leaves.dom().contains(at) && table
                == CollisionBSPTable::BSP2DNodeReferences
                && self.leaves[at].bsp_2d_node_reference_start <= index
                < self.leaves[at].bsp_2d_node_reference_start
                + self.leaves[at].bsp_2d_node_reference_count,
            CollisionBSPTable::BSP2DNodeReferences => self.bsp2d_node_references.dom().contains(at)
                && match table {
                CollisionBSPTable::Planes => self.bsp2d_node_references[at].plane == index,
                CollisionBSPTable::BSP2DNodes => self.bsp2d_node_references[at].node.spec_as_tuple()
                    == (CollisionBSP2DNodeIndexType::Node, index),
                CollisionBSPTable::Surfaces => self.bsp2d_node_references[at].node.spec_as_tuple()
                    == (CollisionBSP2DNodeIndexType::Surface, index),
                _ => false,
            },
            CollisionBSPTable::BSP2DNodes => self.bsp2d_nodes.dom().contains(at) && match table {
                CollisionBSPTable::BSP2DNodes => self.bsp2d_nodes[at].left_child.spec_as_tuple()
                    == (CollisionBSP2DNodeIndexType::Node, index)
                    || self.bsp2d_nodes[at].right_child.spec_as_tuple() == (
                    CollisionBSP2DNodeIndexType::Node,
                    index,
                ),
                CollisionBSPTable::Surfaces => self.bsp2d_nodes[at].left_child.spec_as_tuple() == (
                    CollisionBSP2DNodeIndexType::Surface,
                    index,
                ) || self.bsp2d_nodes[at].right_child.spec_as_tuple() == (
                    CollisionBSP2DNodeIndexType::Surface,
                    index,
                ),
                _ => false,
            },
            CollisionBSPTable::Surfaces => self.surfaces.dom().contains(at) && table
                == CollisionBSPTable::Planes && self.surfaces[at].plane == index,
        }
    }

    /// The error that says that the record at position `index` of `table` is missing.
    pub open spec fn missing(table: CollisionBSPTable, index: usize) -> CollisionBSPError {
        match table {
            CollisionBSPTable::BSP3DNodes => CollisionBSPError::Missing3DNode(index),
            CollisionBSPTable::Planes => CollisionBSPError::MissingPlane(index),
            CollisionBSPTable::Leaves => CollisionBSPError::MissingLeaf(index),
            CollisionBSPTable::BSP2DNodeReferences => CollisionBSPError::Missing2DNodeReference(
                index,
            ),
            CollisionBSPTable::BSP2DNodes => CollisionBSPError::Missing2DNode(index),
            CollisionBSPTable::Surfaces => CollisionBSPError::MissingSurface(index),
        }
    }

    /// In sound tables from which one record was taken, a checked position has no error but
    /// that this record is missing.
    proof fn lemma_record_error_without(
        self,
        table: CollisionBSPTable,
        index: usize,
        checked: CollisionBSPTable,
        at: usize,
    )
        requires
            self.is_sound(),
            at < self.checked_count(checked),
        ensures
            self.without(table, index).record_error(checked, at) is Some ==> self.without(
                table,
                index,
            ).record_error(checked, at) == Some(Self::missing(table, index)),
    {
        let without = self.without(table, index);
        assert(self.record_resolves(checked, at));
        if checked == CollisionBSPTable::Leaves && without.leaves.dom().contains(at) {
            let leaf = self.leaves[at];
            without.lemma_last_missing_reference(
                leaf.bsp_2d_node_reference_start as int,
                leaf.bsp_2d_node_reference_start + leaf.bsp_2d_node_reference_count,
            );
        }
    }

    /// In sound tables from which one record was taken, a table has no error but that this
    /// record is missing.
    proof fn lemma_table_error_without(
        self,
        table: CollisionBSPTable,
        index: usize,
        checked: CollisionBSPTable,
    )
        requires
            self.is_sound(),
        ensures
            self.without(table, index).table_error(checked) is Some ==> self.without(
                table,
                index,
            ).table_error(checked) == Some(Self::missing(table, index)),
    {
        let without = self.without(table, index);
        let count = without.checked_count(checked);
        assert(count == self.checked_count(checked));
        without.lemma_first_error(checked, 0, count as int);
        if without.table_error(checked) is Some {
            let at = choose|at: usize|
                0 <= at < count && without.record_error(checked, at) == without.first_error(
                    checked,
                    0,
                    count as int,
                );
            self.lemma_record_error_without(table, index, checked, at);
        }
    }

    /// Taking away a record that a checked record refers to is found out: on tables that
    /// were sound, the check then fails, and its error is that this record is missing.
    pub proof fn lemma_removed_record_is_missed(
        self,
        from: CollisionBSPTable,
        at: usize,
        table: CollisionBSPTable,
        index: usize,
    )
        requires
            self.is_sound(),
            at < self.checked_count(from),
            self.refers_to(from, at, table, index),
        ensures
            self.without(table, index).first_violation() == Some(Self::missing(table, index)),
            !self.without(table, index).is_sound(),
    {
        let without = self.without(table, index);
        self.lemma_table_error_without(table, index, CollisionBSPTable::BSP3DNodes);
        self.lemma_table_error_without(table, index, CollisionBSPTable::Planes);
        self.lemma_table_error_without(table, index, CollisionBSPTable::Leaves);
        self.lemma_table_error_without(table, index, CollisionBSPTable::BSP2DNodeReferences);
        self.lemma_table_error_without(table, index, CollisionBSPTable::BSP2DNodes);
        self.lemma_table_error_without(table, index, CollisionBSPTable::Surfaces);
        assert(self.record_resolves(from, at));
        assert(at < without.checked_count(from));
        assert(!without.record_resolves(from, at)) by {
            if from == CollisionBSPTable::Leaves && without.leaves.dom().contains(at) {
                assert(!without.bsp2d_node_references.dom().contains(index));
            }
        }
        without.lemma_sound_iff_no_violation();
    }
}

} // verus!
