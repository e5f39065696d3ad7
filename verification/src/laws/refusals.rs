//! Which side of a join a refused column is charged to.

use crate::joins::plan::{refuse_nothing, side_refusal, touched_names, Refusal};
use crate::joins::planning::ResolvedJoinSide;
use crate::joins::rendering::{possible_column_name, possible_column_names, selects_whole_row};
use crate::json::{member_text, JsonV, MembersV};
use crate::laws::counting::{lemma_filter_map_contains, lemma_filter_map_origin};
use crate::text::{ascii_same, ascii_upper};
use crate::tree::column_nodes;
use vstd::prelude::*;

verus! {

/// A column that names no table is charged to every side.
pub proof fn lemma_untagged_column_is_charged_everywhere(
    request: JsonV,
    pushdown_req: JsonV,
    table: Seq<char>,
    exasol_type: spec_fn(JsonV) -> Seq<char>,
    node: MembersV,
    name: Seq<char>,
)
    requires
        column_nodes(request).contains(node),
        member_text(node, "name"@) == Some(name),
        member_text(node, "tableName"@) is None,
    ensures
        touched_names(request, pushdown_req, table, exasol_type).contains(ascii_upper(name)),
{
    let columns = column_nodes(request);
    let name_of = |column: MembersV| possible_column_name(table, column);
    let i = choose|i: int| 0 <= i < columns.len() && columns[i] == node;
    lemma_filter_map_contains(columns, name_of, i);
    let named = possible_column_names(request, table);
    let j = choose|j: int| 0 <= j < named.len() && named[j] == ascii_upper(name);
    assert(touched_names(request, pushdown_req, table, exasol_type)[j] == named[j]);
}

/// A name that the request reads from other tables only is not charged to a side, unless the
/// request selects whole rows.
pub proof fn lemma_column_of_another_table_is_not_charged(
    request: JsonV,
    pushdown_req: JsonV,
    table: Seq<char>,
    exasol_type: spec_fn(JsonV) -> Seq<char>,
    upper_name: Seq<char>,
)
    requires
        !selects_whole_row(pushdown_req),
        forall|i: int|
            0 <= i < column_nodes(request).len() && (member_text(
                #[trigger] column_nodes(request)[i],
                "name"@,
            ) matches Some(name) && ascii_upper(name) == upper_name) ==> (member_text(
                column_nodes(request)[i],
                "tableName"@,
            ) matches Some(owner) && !ascii_same(owner, table)),
    ensures
        !touched_names(request, pushdown_req, table, exasol_type).contains(upper_name),
{
    let columns = column_nodes(request);
    let name_of = |column: MembersV| possible_column_name(table, column);
    let named = possible_column_names(request, table);
    if named.contains(upper_name) {
        let k = choose|k: int| 0 <= k < named.len() && named[k] == upper_name;
        lemma_filter_map_origin(columns, name_of, k);
        let i = choose|i: int|
            0 <= i < columns.len() && name_of(#[trigger] columns[i]) == Some(named[k]);
        assert(member_text(columns[i], "name"@) is Some);
    }
}

/// Sides that refuse no column refuse no request.
pub proof fn lemma_nothing_refused(
    request: JsonV,
    pushdown_req: JsonV,
    sides: Seq<ResolvedJoinSide>,
    exasol_type: spec_fn(JsonV) -> Seq<char>,
    refusal: Refusal,
)
    requires
        refuse_nothing(sides),
    ensures
        side_refusal(request, pushdown_req, sides, exasol_type, refusal) is None,
{
}

} // verus!
