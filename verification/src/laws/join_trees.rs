//! Join trees, the tables they name, and the columns of those tables.

use crate::joins::planning::{broadcast_roles, clamped, declared_column, declared_columns,
    disjoint_names, identifier_of, is_inner_join, join_shape, join_tree, mapped_leaves,
    table_columns, table_named, total_size, DetectedJoinV, IneligibleJoinReason, JoinShapeV,
    JoinTreeV, Occurrence, ResolvedJoinSide};
use crate::json::JsonV;
use crate::scan::{ColumnTypeV, FileEntry};
use crate::text::{ascii_same, uppercase};
use vstd::prelude::*;

verus! {

/// Whether a node joins `left` and `right` on a condition.
pub open spec fn joins_two(node: JsonV, left: JsonV, right: JsonV, condition: JsonV) -> bool {
    &&& node.field("type"@) == Some(JsonV::Str("join"@))
    &&& node.field("left"@) == Some(left)
    &&& node.field("right"@) == Some(right)
    &&& node.field("condition"@) == Some(condition)
    &&& condition != JsonV::Null
}

/// A join is inner when it says so, in whatever ASCII case; a join that says nothing is not.
pub proof fn lemma_inner_joins(node: JsonV, kind: Seq<char>)
    ensures
        node.field("join_type"@) == Some(JsonV::Str(kind)) ==> is_inner_join(node) == ascii_same(
            kind,
            "inner"@,
        ),
        node.field("join_type"@) is None ==> !is_inner_join(node),
{
}

/// An inner join has the tables of its left side before those of its right side, the conditions of
/// its left side before those of its right side, and its own condition behind them. What cannot be
/// served on its left side comes before what cannot be served on its right side.
pub proof fn lemma_inner_joins_are_read_left_to_right(
    node: JsonV,
    left: JsonV,
    right: JsonV,
    condition: JsonV,
)
    requires
        joins_two(node, left, right, condition),
        is_inner_join(node),
    ensures
        join_tree(node) == match (join_tree(left), join_tree(right)) {
            (Ok(l), Ok(r)) => Ok(
                JoinTreeV {
                    leaves: l.leaves + r.leaves,
                    conditions: l.conditions + r.conditions + seq![condition],
                },
            ),
            (Err(reason), _) => Err(reason),
            (Ok(_), Err(reason)) => Err(reason),
        },
{
    if let (Ok(l), Ok(r)) = (join_tree(left), join_tree(right)) {
        assert((l.conditions + r.conditions).push(condition) =~= l.conditions + r.conditions
            + seq![condition]);
    }
}

/// A join that is not inner is not served, whatever it joins.
pub proof fn lemma_outer_joins_are_not_served(node: JsonV)
    requires
        node.is_kind("join"@),
        !is_inner_join(node),
    ensures
        join_tree(node) == Err::<JoinTreeV, _>(IneligibleJoinReason::NotInnerJoinType),
{
}

/// An inner join without a side or without a condition has a shape that is not served, and so has
/// everything that is neither a join nor a table.
pub proof fn lemma_unsupported_shapes(node: JsonV)
    ensures
        node.is_kind("join"@) && is_inner_join(node) && (node.field("left"@) is None || node.field(
            "right"@,
        ) is None || node.present_field("condition"@) is None) ==> join_tree(node) == Err::<
            JoinTreeV,
            _,
        >(IneligibleJoinReason::UnsupportedShape),
        !node.is_kind("join"@) && !node.is_kind("table"@) ==> join_tree(node) == Err::<
            JoinTreeV,
            _,
        >(IneligibleJoinReason::UnsupportedShape),
{
}

/// A table is one occurrence under its own name, with its alias where it has one, and no condition.
pub proof fn lemma_tables_are_occurrences(node: JsonV, name: Seq<char>, alias: Seq<char>)
    requires
        node.is_kind("table"@),
    ensures
        node.field("name"@) == Some(JsonV::Str(name)) && node.field("alias"@) == Some(
            JsonV::Str(alias),
        ) ==> join_tree(node) == Ok::<_, IneligibleJoinReason>(
            JoinTreeV { leaves: seq![(name, Some(alias))], conditions: Seq::empty() },
        ),
        node.field("name"@) == Some(JsonV::Str(name)) && node.field("alias"@) is None ==> join_tree(
            node,
        ) == Ok::<_, IneligibleJoinReason>(
            JoinTreeV { leaves: seq![(name, None)], conditions: Seq::empty() },
        ),
        node.text_field("name"@) is None ==> join_tree(node) == Err::<JoinTreeV, _>(
            IneligibleJoinReason::UnsupportedShape,
        ),
{
    reveal_strlit("table");
    reveal_strlit("join");
    assert("table"@.len() == 5);
    assert("join"@.len() == 4);
    assert(!node.is_kind("join"@));
}

/// The identifier of a table is that of the first entry for its name, and none where there is none.
pub proof fn lemma_first_entry_counts(
    table_map: Seq<(Seq<char>, Seq<char>)>,
    table: Seq<char>,
)
    ensures
        match identifier_of(table_map, table) {
            Some(identifier) => exists|i: int|
                0 <= i < table_map.len() && (#[trigger] table_map[i]).0 == table && table_map[i].1
                    == identifier && forall|j: int|
                    0 <= j < i ==> (#[trigger] table_map[j]).0 != table,
            None => forall|i: int|
                0 <= i < table_map.len() ==> (#[trigger] table_map[i]).0 != table,
        },
    decreases table_map.len(),
{
    if table_map.len() > 0 && table_map[0].0 != table {
        let rest = table_map.skip(1);
        lemma_first_entry_counts(rest, table);
        if identifier_of(rest, table) is Some {
            let identifier = identifier_of(rest, table)->0;
            let i = choose|i: int|
                0 <= i < rest.len() && (#[trigger] rest[i]).0 == table && rest[i].1 == identifier
                    && forall|j: int| 0 <= j < i ==> (#[trigger] rest[j]).0 != table;
            assert(table_map[i + 1] == rest[i]);
            assert forall|j: int| 0 <= j < i + 1 implies (#[trigger] table_map[j]).0 != table by {
                if j > 0 {
                    assert(rest[j - 1] == table_map[j]);
                }
            }
        } else {
            assert forall|i: int| 0 <= i < table_map.len() implies (#[trigger] table_map[i]).0
                != table by {
                if i > 0 {
                    assert(rest[i - 1] == table_map[i]);
                }
            }
        }
    }
}

/// Occurrences are mapped in their places, each with its name, its alias and the identifier of its
/// table. The error is that for the first one without an identifier, and there is one exactly where
/// some occurrence has none.
pub proof fn lemma_occurrences_are_mapped(
    leaves: Seq<Occurrence>,
    table_map: Seq<(Seq<char>, Seq<char>)>,
)
    ensures
        match mapped_leaves(leaves, table_map) {
            Ok(tables) => tables.len() == leaves.len() && forall|i: int|
                0 <= i < leaves.len() ==> (#[trigger] tables[i]).table_name == leaves[i].0
                    && tables[i].table_alias == leaves[i].1 && identifier_of(
                    table_map,
                    leaves[i].0,
                ) == Some(tables[i].table_identifier),
            Err(message) => exists|i: int|
                0 <= i < leaves.len() && identifier_of(table_map, (#[trigger] leaves[i]).0) is None
                    && message == "pushdown: virtual table '"@ + leaves[i].0
                    + "' is not in TABLE_MAP; drop and recreate the virtual schema"@ && forall|
                    j: int,
                |
                    0 <= j < i ==> identifier_of(table_map, (#[trigger] leaves[j]).0) is Some,
        },
    decreases leaves.len(),
{
    if leaves.len() > 0 {
        let rest = leaves.drop_last();
        lemma_occurrences_are_mapped(rest, table_map);
        match mapped_leaves(rest, table_map) {
            Ok(tables) => {
                assert forall|i: int| 0 <= i < rest.len() implies identifier_of(
                    table_map,
                    (#[trigger] leaves[i]).0,
                ) is Some by {
                    assert(tables[i].table_name == rest[i].0);
                    assert(rest[i] == leaves[i]);
                }
                assert(leaves[leaves.len() - 1] == leaves.last());
            },
            Err(message) => {
                let i = choose|i: int|
                    0 <= i < rest.len() && identifier_of(
                        table_map,
                        (#[trigger] rest[i]).0,
                    ) is None && message == "pushdown: virtual table '"@ + rest[i].0
                        + "' is not in TABLE_MAP; drop and recreate the virtual schema"@ && forall|
                        j: int,
                    |
                        0 <= j < i ==> identifier_of(table_map, (#[trigger] rest[j]).0) is Some;
                assert(leaves[i] == rest[i]);
                assert forall|j: int| 0 <= j < i implies identifier_of(
                    table_map,
                    (#[trigger] leaves[j]).0,
                ) is Some by {
                    assert(rest[j] == leaves[j]);
                }
            },
        }
    }
}

/// A request is a join exactly where its `from` is one. It is declined where the tree cannot be
/// served, and otherwise it is a join of the occurrences of the tree under its conditions, unless
/// some table is not mapped.
pub proof fn lemma_join_shapes(
    pushdown_req: JsonV,
    from: JsonV,
    table_map: Seq<(Seq<char>, Seq<char>)>,
)
    ensures
        pushdown_req.field("from"@) is None ==> join_shape(pushdown_req, table_map) == Ok::<
            _,
            Seq<char>,
        >(JoinShapeV::NotAJoin),
        pushdown_req.field("from"@) == Some(from) && !from.is_kind("join"@) ==> join_shape(
            pushdown_req,
            table_map,
        ) == Ok::<_, Seq<char>>(JoinShapeV::NotAJoin),
        pushdown_req.field("from"@) == Some(from) && from.is_kind("join"@) ==> match join_tree(
            from,
        ) {
            Err(reason) => join_shape(pushdown_req, table_map) == Ok::<_, Seq<char>>(
                JoinShapeV::Ineligible(reason),
            ),
            Ok(tree) => match mapped_leaves(tree.leaves, table_map) {
                Ok(tables) => join_shape(pushdown_req, table_map) == Ok::<_, Seq<char>>(
                    JoinShapeV::Join(DetectedJoinV { tables, conditions: tree.conditions }),
                ),
                Err(message) => join_shape(pushdown_req, table_map) == Err::<JoinShapeV, _>(
                    message,
                ),
            },
        },
{
}

/// The size of files is the sum of their sizes.
pub proof fn lemma_sizes_add_up(left: Seq<FileEntry>, right: Seq<FileEntry>, file: FileEntry)
    ensures
        total_size(Seq::empty()) == 0,
        total_size(seq![file]) == file.size,
        total_size(left + right) == total_size(left) + total_size(right),
    decreases right.len(),
{
    assert(seq![file].drop_last() =~= Seq::empty());
    assert(total_size(seq![file].drop_last()) == 0);
    if right.len() == 0 {
        assert(left + right =~= left);
    } else {
        assert((left + right).drop_last() =~= left + right.drop_last());
        lemma_sizes_add_up(left, right.drop_last(), file);
    }
}

/// A size that fits is kept, and one that does not is the largest there is.
pub proof fn lemma_sizes_saturate(bytes: nat)
    ensures
        clamped(bytes) <= bytes,
        bytes <= u64::MAX ==> clamped(bytes) == bytes,
        bytes > u64::MAX ==> clamped(bytes) == u64::MAX,
{
}

/// Of two sides of one size the first is the dimension, and a dimension of just the threshold may be
/// broadcast.
pub proof fn lemma_equal_sides(a: ResolvedJoinSide, b: ResolvedJoinSide, max_bytes: u64)
    requires
        a.total_bytes == b.total_bytes,
    ensures
        broadcast_roles(a, b, max_bytes).dimension == a,
        broadcast_roles(a, b, max_bytes).fact == b,
        broadcast_roles(a, b, a.total_bytes).broadcast_eligible,
{
}

/// A table is found by its name, and the first of that name is taken.
pub proof fn lemma_first_table_counts(tables: Seq<JsonV>, name: Seq<char>)
    ensures
        match table_named(tables, name) {
            Some(table) => exists|i: int|
                0 <= i < tables.len() && #[trigger] tables[i] == table && table.field("name"@)
                    == Some(JsonV::Str(name)) && forall|j: int|
                    0 <= j < i ==> (#[trigger] tables[j]).field("name"@) != Some(JsonV::Str(name)),
            None => forall|i: int|
                0 <= i < tables.len() ==> (#[trigger] tables[i]).field("name"@) != Some(
                    JsonV::Str(name),
                ),
        },
    decreases tables.len(),
{
    if tables.len() > 0 && tables[0].text_field("name"@) != Some(name) {
        let rest = tables.skip(1);
        lemma_first_table_counts(rest, name);
        if table_named(rest, name) is Some {
            let table = table_named(rest, name)->0;
            let i = choose|i: int|
                0 <= i < rest.len() && #[trigger] rest[i] == table && table.field("name"@) == Some(
                    JsonV::Str(name),
                ) && forall|j: int|
                    0 <= j < i ==> (#[trigger] rest[j]).field("name"@) != Some(JsonV::Str(name));
            assert(tables[i + 1] == rest[i]);
            assert forall|j: int| 0 <= j < i + 1 implies (#[trigger] tables[j]).field("name"@)
                != Some(JsonV::Str(name)) by {
                if j > 0 {
                    assert(rest[j - 1] == tables[j]);
                }
            }
        } else {
            assert forall|i: int| 0 <= i < tables.len() implies (#[trigger] tables[i]).field(
                "name"@,
            ) != Some(JsonV::Str(name)) by {
                if i > 0 {
                    assert(rest[i - 1] == tables[i]);
                }
            }
        }
    } else if tables.len() > 0 {
        assert(tables[0].field("name"@) == Some(JsonV::Str(name)));
    }
}

/// The columns of a table are those that the request declares for it, in their order, each with its
/// uppercase name and the Exasol name of its type. A column without a name or a type is left out.
pub proof fn lemma_columns_are_declared_in_order(
    columns: Seq<JsonV>,
    column: JsonV,
    exasol_type: spec_fn(JsonV) -> Seq<char>,
)
    ensures
        declared_columns(Seq::empty(), exasol_type).len() == 0,
        declared_columns(columns.push(column), exasol_type) == match (
            column.field("name"@),
            column.field("dataType"@),
        ) {
            (Some(JsonV::Str(name)), Some(data_type)) => declared_columns(
                columns,
                exasol_type,
            ).push((uppercase(name), exasol_type(data_type))),
            _ => declared_columns(columns, exasol_type),
        },
{
    let read = |c: JsonV| declared_column(c, exasol_type);
    assert(columns.push(column).drop_last() =~= columns);
    assert(columns.push(column).filter_map(read) =~= match read(column) {
        Some(found) => columns.filter_map(read).push(found),
        None => columns.filter_map(read),
    });
}

/// The columns of a table come from the first table of its name that the request involves, and a
/// table that it does not involve has none.
pub proof fn lemma_columns_come_from_the_table(
    request: JsonV,
    tables: Seq<JsonV>,
    name: Seq<char>,
    exasol_type: spec_fn(JsonV) -> Seq<char>,
)
    ensures
        request.field("involvedTables"@) == Some(JsonV::Array(tables)) ==> table_columns(
            request,
            name,
            exasol_type,
        ) == match table_named(tables, name) {
            Some(table) => match table.field("columns"@) {
                Some(JsonV::Array(columns)) => declared_columns(columns, exasol_type),
                _ => Seq::empty(),
            },
            None => Seq::empty(),
        },
        request.items_field("involvedTables"@) is None ==> table_columns(
            request,
            name,
            exasol_type,
        ).len() == 0,
{
}

/// Two lists of columns are disjoint exactly where no name is the name of a column of both.
pub proof fn lemma_disjoint_lists(left: Seq<ColumnTypeV>, right: Seq<ColumnTypeV>)
    ensures
        disjoint_names(left, right) <==> !exists|name: Seq<char>, a: Seq<char>, b: Seq<char>|
            #![trigger left.contains((name, a)), right.contains((name, b))]
            left.contains((name, a)) && right.contains((name, b)),
{
    if !disjoint_names(left, right) {
        let (i, j) = choose|i: int, j: int|
            0 <= i < left.len() && 0 <= j < right.len() && (#[trigger] left[i]).0 == (
            #[trigger] right[j]).0;
        assert(left.contains((left[i].0, left[i].1)));
        assert(right.contains((left[i].0, right[j].1)));
    }
}

} // verus!
