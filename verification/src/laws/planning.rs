//! Joins as they are recognised, and the roles of their sides.

use crate::joins::planning::{broadcast_roles, disjoint_names, join_shape, join_tree, mapped_leaves,
    JoinShapeV, Occurrence, ResolvedJoinSide};
use crate::json::{lemma_field_decreases, JsonV};
use crate::scan::ColumnTypeV;
use vstd::prelude::*;

verus! {

/// A join tree has one condition less than it has occurrences.
pub proof fn lemma_join_tree_counts(node: JsonV)
    ensures
        join_tree(node) matches Ok(tree) ==> tree.leaves.len() == tree.conditions.len() + 1,
    decreases node,
{
    if join_tree(node) is Ok && node.is_kind("join"@) {
        lemma_field_decreases(node, "left"@);
        lemma_field_decreases(node, "right"@);
        lemma_join_tree_counts(node.field("left"@)->0);
        lemma_join_tree_counts(node.field("right"@)->0);
    }
}

proof fn lemma_mapped_count(leaves: Seq<Occurrence>, table_map: Seq<(Seq<char>, Seq<char>)>)
    ensures
        mapped_leaves(leaves, table_map) matches Ok(mapped) ==> mapped.len() == leaves.len() && (
        forall|i: int|
            0 <= i < leaves.len() ==> (#[trigger] mapped[i]).table_name == leaves[i].0
                && mapped[i].table_alias == leaves[i].1),
    decreases leaves.len(),
{
    if leaves.len() > 0 {
        lemma_mapped_count(leaves.drop_last(), table_map);
        if mapped_leaves(leaves, table_map) is Ok {
            let before = mapped_leaves(leaves.drop_last(), table_map)->Ok_0;
            let mapped = mapped_leaves(leaves, table_map)->Ok_0;
            assert forall|i: int| 0 <= i < leaves.len() implies (
            #[trigger] mapped[i]).table_name == leaves[i].0 && mapped[i].table_alias
                == leaves[i].1 by {
                if i < before.len() {
                    assert(mapped[i] == before[i]);
                    assert(leaves.drop_last()[i] == leaves[i]);
                }
            }
        }
    }
}

/// A recognised join has at least two tables, and one condition less than tables.
pub proof fn lemma_recognised_join_counts(
    pushdown_req: JsonV,
    table_map: Seq<(Seq<char>, Seq<char>)>,
)
    ensures
        join_shape(pushdown_req, table_map) matches Ok(JoinShapeV::Join(join)) ==> join.tables.len()
            >= 2 && join.conditions.len() + 1 == join.tables.len(),
{
    if let Ok(JoinShapeV::Join(join)) = join_shape(pushdown_req, table_map) {
        let from = pushdown_req.field("from"@)->0;
        lemma_join_tree_counts(from);
        lemma_mapped_count(join_tree(from)->Ok_0.leaves, table_map);
        lemma_join_tree_counts(from.field("left"@)->0);
        lemma_join_tree_counts(from.field("right"@)->0);
    }
}

/// The tables of a recognised join are the occurrences of its tree, left to right, with the names
/// and aliases that the tree gives them.
pub proof fn lemma_recognised_tables(pushdown_req: JsonV, table_map: Seq<(Seq<char>, Seq<char>)>)
    ensures
        join_shape(pushdown_req, table_map) matches Ok(JoinShapeV::Join(join)) ==> {
            let leaves = join_tree(pushdown_req.field("from"@)->0)->Ok_0.leaves;
            &&& join.tables.len() == leaves.len()
            &&& forall|i: int|
                0 <= i < leaves.len() ==> (#[trigger] join.tables[i]).table_name == leaves[i].0
                    && join.tables[i].table_alias == leaves[i].1
        },
{
    if let Ok(JoinShapeV::Join(join)) = join_shape(pushdown_req, table_map) {
        let from = pushdown_req.field("from"@)->0;
        lemma_mapped_count(join_tree(from)->Ok_0.leaves, table_map);
    }
}

/// The dimension is no larger than the fact, the two are the sides that were given, and the
/// broadcast is open exactly when the smaller side fits the threshold.
pub proof fn lemma_roles(a: ResolvedJoinSide, b: ResolvedJoinSide, max_bytes: u64)
    ensures
        ({
            let roles = broadcast_roles(a, b, max_bytes);
            &&& roles.dimension.total_bytes <= roles.fact.total_bytes
            &&& (roles.dimension == a && roles.fact == b) || (roles.dimension == b && roles.fact
                == a)
            &&& roles.broadcast_eligible == (a.total_bytes <= max_bytes || b.total_bytes
                <= max_bytes)
        }),
{
}

/// Sides of different sizes get their roles whatever order they come in.
pub proof fn lemma_roles_ignore_order(a: ResolvedJoinSide, b: ResolvedJoinSide, max_bytes: u64)
    requires
        a.total_bytes != b.total_bytes,
    ensures
        broadcast_roles(a, b, max_bytes) == broadcast_roles(b, a, max_bytes),
{
}

/// Sharing no column name is symmetric.
pub proof fn lemma_disjoint_names_symmetric(left: Seq<ColumnTypeV>, right: Seq<ColumnTypeV>)
    ensures
        disjoint_names(left, right) == disjoint_names(right, left),
{
    if disjoint_names(left, right) {
        assert forall|i: int, j: int| 0 <= i < right.len() && 0 <= j < left.len() implies (
        #[trigger] right[i]).0 != (#[trigger] left[j]).0 by {
            assert(left[j].0 != right[i].0);
        }
    }
    if disjoint_names(right, left) {
        assert forall|i: int, j: int| 0 <= i < left.len() && 0 <= j < right.len() implies (
        #[trigger] left[i]).0 != (#[trigger] right[j]).0 by {
            assert(right[j].0 != left[i].0);
        }
    }
}

} // verus!
