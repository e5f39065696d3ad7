//! A scan emits every column that the query over it refers to.

use crate::joins::attribution::{ColumnLeg, JoinLegsV};
use crate::joins::fallback::{referenced_columns, upper_column_name, upper_column_names};
use crate::joins::planning::{declared_column, table_named};
use crate::joins::rendering::{clause_values, columns_named, leg_column_name, leg_column_names,
    leg_columns};
use crate::joins::sql_builders::NScanJoinV;
use crate::json::{member_text, JsonV, MembersV};
use crate::laws::counting::lemma_filter_map_contains;
use crate::scan::ColumnTypeV;
use crate::text::{all_ascii, ascii_same, ascii_upper, ascii_upper_char, uppercase};
use crate::tree::{column_nodes, item_column_nodes};
use vstd::prelude::*;

verus! {

proof fn lemma_columns_named(
    columns: Seq<ColumnTypeV>,
    names: Seq<Seq<char>>,
    column: ColumnTypeV,
)
    ensures
        columns_named(columns, names).contains(column) <==> columns.contains(column)
            && names.contains(column.0),
{
    let wanted = |candidate: ColumnTypeV| names.contains(candidate.0);
    let kept = columns_named(columns, names);
    if kept.contains(column) {
        columns.lemma_filter_contains_rev(wanted, column);
        let i = choose|i: int| 0 <= i < kept.len() && kept[i] == column;
        columns.lemma_filter_pred(wanted, i);
    }
    if columns.contains(column) && names.contains(column.0) {
        let i = choose|i: int| 0 <= i < columns.len() && columns[i] == column;
        columns.lemma_filter_contains(wanted, i);
    }
}

/// The scan of a leg emits columns of its table only.
pub proof fn lemma_leg_columns_are_declared(
    pushdown_req: JsonV,
    condition: JsonV,
    legs: JoinLegsV,
    leg: usize,
    full_cols: Seq<ColumnTypeV>,
    column: ColumnTypeV,
)
    requires
        leg_columns(pushdown_req, condition, legs, leg, full_cols).contains(column),
    ensures
        full_cols.contains(column),
{
    let referenced = column_nodes(condition) + item_column_nodes(clause_values(pushdown_req));
    lemma_columns_named(full_cols, leg_column_names(legs, leg, referenced), column);
}

/// The scan of a leg emits something, unless its table has no columns.
pub proof fn lemma_leg_columns_are_there(
    pushdown_req: JsonV,
    condition: JsonV,
    legs: JoinLegsV,
    leg: usize,
    full_cols: Seq<ColumnTypeV>,
)
    requires
        full_cols.len() > 0,
    ensures
        leg_columns(pushdown_req, condition, legs, leg, full_cols).len() > 0,
{
}

/// The scan of a leg emits every column of its table that the join conditions or a clause of the
/// request refer to on this leg.
pub proof fn lemma_referenced_column_is_emitted(
    pushdown_req: JsonV,
    condition: JsonV,
    legs: JoinLegsV,
    leg: usize,
    full_cols: Seq<ColumnTypeV>,
    node: MembersV,
    name: Seq<char>,
    declared: Seq<char>,
)
    requires
        column_nodes(condition).contains(node) || item_column_nodes(
            clause_values(pushdown_req),
        ).contains(node),
        legs.resolve(node) == ColumnLeg::Leg(leg),
        member_text(node, "name"@) == Some(name),
        full_cols.contains((ascii_upper(name), declared)),
    ensures
        leg_columns(pushdown_req, condition, legs, leg, full_cols).contains(
            (ascii_upper(name), declared),
        ),
{
    let in_condition = column_nodes(condition);
    let in_clauses = item_column_nodes(clause_values(pushdown_req));
    let referenced = in_condition + in_clauses;
    let name_of = |column: MembersV| leg_column_name(legs, leg, column);
    if in_condition.contains(node) {
        let i = choose|i: int| 0 <= i < in_condition.len() && in_condition[i] == node;
        assert(referenced[i] == node);
        lemma_filter_map_contains(referenced, name_of, i);
    } else {
        let i = choose|i: int| 0 <= i < in_clauses.len() && in_clauses[i] == node;
        assert(referenced[in_condition.len() + i] == node);
        lemma_filter_map_contains(referenced, name_of, in_condition.len() + i);
    }
    lemma_columns_named(
        full_cols,
        leg_column_names(legs, leg, referenced),
        (ascii_upper(name), declared),
    );
}

/// Names that agree up to the case of ASCII letters have one uppercase, if they hold ASCII
/// characters only, and it is their ASCII uppercase.
pub proof fn lemma_uppercase_of_ascii(left: Seq<char>, right: Seq<char>)
    requires
        all_ascii(left),
        ascii_same(left, right),
    ensures
        all_ascii(right),
        uppercase(left) == ascii_upper(left),
        uppercase(right) == ascii_upper(left),
{
    assert(ascii_upper(right).len() == right.len());
    assert forall|i: int| 0 <= i < right.len() implies (#[trigger] right[i]) as nat <= 127 by {
        assert(ascii_upper(right)[i] == ascii_upper_char(right[i]));
        assert(ascii_upper(left)[i] == ascii_upper_char(left[i]));
        assert(left[i] as nat <= 127);
    }
}

/// Whether a request declares a column for a table.
pub open spec fn declares(request: JsonV, table: Seq<char>, column: JsonV) -> bool {
    &&& request.items_field("involvedTables"@) matches Some(tables)
    &&& table_named(tables, table) matches Some(found)
    &&& found.items_field("columns"@) matches Some(columns)
    &&& columns.contains(column)
}

/// In a query that joins scans, the scan of a leg emits every column that the request declares for
/// its table and that the join conditions or a clause refer to on this leg, whatever the case of
/// either name. The names hold ASCII characters only: of others, declarations and references are
/// folded differently.
pub proof fn lemma_join_leg_emits_its_columns(
    query: NScanJoinV,
    leg: int,
    node: MembersV,
    name: Seq<char>,
    column: JsonV,
    declared: Seq<char>,
    column_type: JsonV,
)
    requires
        0 <= leg < query.sides.len() <= usize::MAX,
        column_nodes(JsonV::Array(query.join.conditions)).contains(node) || item_column_nodes(
            clause_values(query.pushdown_req),
        ).contains(node),
        query.legs().resolve(node) == ColumnLeg::Leg(leg as usize),
        member_text(node, "name"@) == Some(name),
        all_ascii(name),
        declares(query.request, query.sides[leg].table_name@, column),
        column.text_field("name"@) == Some(declared),
        column.field("dataType"@) == Some(column_type),
        ascii_same(name, declared),
    ensures
        query.leg_columns(leg).contains(
            (uppercase(declared), (query.services.exasol_type)(column_type)),
        ),
{
    lemma_uppercase_of_ascii(name, declared);
    let exasol_type = query.services.exasol_type;
    let tables = query.request.items_field("involvedTables"@)->0;
    let table = table_named(tables, query.sides[leg].table_name@)->0;
    let columns = table.items_field("columns"@)->0;
    let i = choose|i: int| 0 <= i < columns.len() && columns[i] == column;
    lemma_filter_map_contains(columns, |column: JsonV| declared_column(column, exasol_type), i);
    lemma_referenced_column_is_emitted(
        query.pushdown_req,
        JsonV::Array(query.join.conditions),
        query.legs(),
        leg as usize,
        query.columns()[leg],
        node,
        name,
        exasol_type(column_type),
    );
}

/// The scan of one table emits every column that a clause of the request refers to.
pub proof fn lemma_single_table_column_is_emitted(
    pushdown_req: JsonV,
    all_cols: Seq<ColumnTypeV>,
    node: MembersV,
    name: Seq<char>,
    declared: Seq<char>,
)
    requires
        item_column_nodes(clause_values(pushdown_req)).contains(node),
        member_text(node, "name"@) == Some(name),
        all_cols.contains((uppercase(name), declared)),
    ensures
        referenced_columns(pushdown_req, all_cols).contains((uppercase(name), declared)),
{
    let in_clauses = item_column_nodes(clause_values(pushdown_req));
    let name_of = |column: MembersV| upper_column_name(column);
    let i = choose|i: int| 0 <= i < in_clauses.len() && in_clauses[i] == node;
    lemma_filter_map_contains(in_clauses, name_of, i);
    lemma_columns_named(
        all_cols,
        upper_column_names(in_clauses),
        (uppercase(name), declared),
    );
}

/// The scan of one table emits columns of that table only, and at least one.
pub proof fn lemma_single_table_columns_are_declared(
    pushdown_req: JsonV,
    all_cols: Seq<ColumnTypeV>,
)
    requires
        all_cols.len() > 0,
    ensures
        referenced_columns(pushdown_req, all_cols).len() > 0,
        forall|column: ColumnTypeV| #[trigger]
            referenced_columns(pushdown_req, all_cols).contains(column) ==> all_cols.contains(
                column,
            ),
{
    let names = upper_column_names(item_column_nodes(clause_values(pushdown_req)));
    assert forall|column: ColumnTypeV| #[trigger]
        referenced_columns(pushdown_req, all_cols).contains(column) implies all_cols.contains(
        column,
    ) by {
        lemma_columns_named(all_cols, names, column);
        assert(all_cols[0] == all_cols.first());
    }
}

} // verus!
