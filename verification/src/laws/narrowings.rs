//! Which conjuncts a scan applies, and which columns it emits.

use crate::joins::attribution::{ColumnLeg, JoinLegsV};
use crate::joins::fallback::{referenced_columns, upper_column_name, upper_column_names};
use crate::joins::rendering::{accepted_part, and_node, both_table_columns, clause_values,
    columns_named, conjoined, conjunction, conjuncts, conjuncts_of, cross_leg_part, declined_part,
    leg_column_name, leg_column_names, leg_columns, leg_part, possible_column_name,
    possible_column_names, renderable_part, selects_whole_row, type_screened, unaccepted_part,
    Rewrite};
use crate::joins::planning::{table_columns, DetectedJoinV};
use crate::joins::sql_builders::NScanJoinV;
use crate::json::{member_text, JsonV, MembersV};
use crate::laws::counting::{lemma_filter_map_contains, lemma_filter_map_origin};
use crate::laws::documents::lemma_item_columns_append;
use crate::laws::filters::{conjuncts_in, lemma_conjoined, lemma_part_keeps};
use crate::scan::ColumnTypeV;
use crate::text::{ascii_same, ascii_upper, uppercase};
use crate::tree::{column_nodes, item_column_nodes};
use vstd::prelude::*;

verus! {

/// A conjunction is split into the conjuncts of its parts, in their order, and everything else is
/// one conjunct.
pub proof fn lemma_conjunctions_are_split(filter: JsonV, parts: Seq<JsonV>, part: JsonV)
    ensures
        filter.field("type"@) == Some(JsonV::Str("predicate_and"@)) && filter.field("expressions"@)
            == Some(JsonV::Array(parts)) ==> conjuncts(filter) == conjuncts_of(parts),
        filter.field("type"@) != Some(JsonV::Str("predicate_and"@)) ==> conjuncts(filter)
            == seq![filter],
        filter.items_field("expressions"@) is None ==> conjuncts(filter) == seq![filter],
        conjuncts_of(Seq::empty()).len() == 0,
        conjuncts_of(parts.push(part)) == conjuncts_of(parts) + conjuncts(part),
{
    assert(parts.push(part).drop_last() =~= parts);
}

/// No conjuncts are no filter, one conjunct is its own filter, and several are a conjunction over
/// them, in their order.
pub proof fn lemma_conjunctions_are_built(filters: Seq<JsonV>)
    ensures
        filters.len() == 0 ==> conjunction(filters) is None,
        filters.len() == 1 ==> conjunction(filters) == Some(filters[0]),
        filters.len() > 1 ==> (conjunction(filters) matches Some(node) && node.field("type"@)
            == Some(JsonV::Str("predicate_and"@)) && node.field("expressions"@) == Some(
            JsonV::Array(filters),
        )),
{
    reveal_strlit("type");
    reveal_strlit("expressions");
    assert("type"@.len() != "expressions"@.len());
    let members = and_node(filters)->Object_0;
    assert(members.skip(1)[0] == members[1]);
    assert(crate::json::lookup(members.skip(1), "type"@) == Some(JsonV::Str("predicate_and"@)));
}

/// Two filters are a conjunction over the first and the second; one filter stays as it is.
pub proof fn lemma_filters_are_conjoined(left: JsonV, right: JsonV)
    ensures
        conjoined(None, None) is None,
        conjoined(Some(left), None) == Some(left),
        conjoined(None, Some(right)) == Some(right),
        conjoined(Some(left), Some(right)) matches Some(node) && node.field("type"@) == Some(
            JsonV::Str("predicate_and"@),
        ) && node.field("expressions"@) == Some(JsonV::Array(seq![left, right])),
{
    lemma_conjunctions_are_built(seq![left, right]);
}

/// A leg is given the conjuncts whose columns are all its own, in their order; the rest of the
/// conjuncts, in theirs, belong to no single leg.
pub proof fn lemma_legs_are_given_their_conjuncts(filter: JsonV, legs: JoinLegsV, leg: usize)
    ensures
        conjuncts_in(leg_part(filter, legs, leg)) == conjuncts(filter).filter(
            |conjunct: JsonV| legs.sole_leg(conjunct) == Some(leg),
        ),
        conjuncts_in(cross_leg_part(filter, legs)) == conjuncts(filter).filter(
            |conjunct: JsonV| legs.sole_leg(conjunct) is None,
        ),
{
    lemma_part_keeps(filter, |conjunct: JsonV| legs.sole_leg(conjunct) == Some(leg));
    lemma_part_keeps(filter, |conjunct: JsonV| legs.sole_leg(conjunct) is None);
}

/// What the scan dialect can express is kept for the scans, and what it cannot for the query over
/// them.
pub proof fn lemma_dialect_splits_the_filter(filter: JsonV, renderable: spec_fn(JsonV) -> bool)
    ensures
        conjuncts_in(renderable_part(filter, renderable)) == conjuncts(filter).filter(renderable),
        conjuncts_in(declined_part(filter, renderable)) == conjuncts(filter).filter(
            |conjunct: JsonV| !renderable(conjunct),
        ),
{
    lemma_part_keeps(filter, renderable);
    lemma_part_keeps(filter, |conjunct: JsonV| !renderable(conjunct));
}

/// A leg applies the rewrite of the conjuncts that have one of their own, and hands back the
/// conjuncts that have none, as they are. Where the former have no rewrite together it applies
/// nothing and hands back everything.
pub proof fn lemma_legs_rewrite_their_conjuncts(
    local: JsonV,
    col_types: Seq<ColumnTypeV>,
    rewrite: Rewrite,
)
    ensures
        ({
            let accepted = accepted_part(local, col_types, rewrite);
            let (applied, handed_back) = type_screened(local, col_types, rewrite);
            &&& conjuncts_in(accepted) == conjuncts(local).filter(
                |conjunct: JsonV| rewrite(conjunct, col_types) is Some,
            )
            &&& conjuncts_in(unaccepted_part(local, col_types, rewrite)) == conjuncts(local).filter(
                |conjunct: JsonV| rewrite(conjunct, col_types) is None,
            )
            &&& applied == match accepted {
                Some(tree) => rewrite(tree, col_types),
                None => None,
            }
            &&& (accepted is None || applied is Some) ==> handed_back == unaccepted_part(
                local,
                col_types,
                rewrite,
            )
            &&& accepted is Some && applied is None ==> handed_back == Some(local)
        }),
{
    lemma_part_keeps(local, |conjunct: JsonV| rewrite(conjunct, col_types) is Some);
    lemma_part_keeps(local, |conjunct: JsonV| rewrite(conjunct, col_types) is None);
}

/// The query over the legs applies the conjuncts that the scans could express but that belong to no
/// single leg, then those that the scans cannot express, then what the legs hand back, leg by leg.
pub proof fn lemma_residual_in_order(join: NScanJoinV, n: int)
    requires
        0 <= n,
    ensures
        conjuncts_in(join.residual()) == conjuncts_in(join.cross_leg()) + conjuncts_in(
            join.declined(),
        ) + conjuncts_in(join.handed_back(join.sides.len() as int)),
        conjuncts_in(join.handed_back(0)).len() == 0,
        conjuncts_in(join.handed_back(n + 1)) == conjuncts_in(join.handed_back(n)) + conjuncts_in(
            join.leg_split(n).1,
        ),
        join.leg_split(n) == match join.leg_local(n) {
            Some(local) => type_screened(local, join.columns()[n], join.services.scan.rewrite),
            None => (None, None),
        },
{
    lemma_conjoined(join.cross_leg(), join.declined());
    lemma_conjoined(
        conjoined(join.cross_leg(), join.declined()),
        join.handed_back(join.sides.len() as int),
    );
    lemma_conjoined(join.handed_back(n), join.leg_split(n).1);
}

/// What a join gives to its legs and keeps for itself comes from the filter of the request: the
/// scans may apply what their dialect can express, and nothing is applied where there is no filter.
pub proof fn lemma_filters_come_from_the_request(join: NScanJoinV, filter: JsonV, leg: int)
    requires
        0 <= leg <= usize::MAX,
    ensures
        join.pushdown_req.field("filter"@) == Some(filter) && filter != JsonV::Null ==> {
            let eligible = renderable_part(filter, join.services.scan.renderable);
            &&& join.declined() == declined_part(filter, join.services.scan.renderable)
            &&& join.leg_local(leg) == match eligible {
                Some(tree) => leg_part(tree, join.legs(), leg as usize),
                None => None,
            }
            &&& join.cross_leg() == match eligible {
                Some(tree) => cross_leg_part(tree, join.legs()),
                None => None,
            }
        },
        join.pushdown_req.present_field("filter"@) is None ==> join.declined() is None
            && join.leg_local(leg) is None && join.cross_leg() is None,
{
}

/// The columns of a list that are named keep their order, and the others are left out.
pub proof fn lemma_named_columns_keep_their_order(
    columns: Seq<ColumnTypeV>,
    column: ColumnTypeV,
    names: Seq<Seq<char>>,
)
    ensures
        columns_named(Seq::empty(), names).len() == 0,
        columns_named(columns.push(column), names) == if names.contains(column.0) {
            columns_named(columns, names).push(column)
        } else {
            columns_named(columns, names)
        },
{
    reveal(Seq::filter);
    assert(columns.push(column).drop_last() =~= columns);
}

/// The clauses that can name a column are the select list, the filter, the group keys, the sort
/// order and the `HAVING`: a column of any of them counts, and no other.
pub proof fn lemma_clauses_that_name_columns(pushdown_req: JsonV, column: MembersV)
    ensures
        item_column_nodes(clause_values(pushdown_req)).contains(column) <==> {
            ||| pushdown_req.field("selectList"@) matches Some(value) && column_nodes(
                value,
            ).contains(column)
            ||| pushdown_req.field("filter"@) matches Some(value) && column_nodes(value).contains(
                column,
            )
            ||| pushdown_req.field("groupBy"@) matches Some(value) && column_nodes(value).contains(
                column,
            )
            ||| pushdown_req.field("orderBy"@) matches Some(value) && column_nodes(value).contains(
                column,
            )
            ||| pushdown_req.field("having"@) matches Some(value) && column_nodes(value).contains(
                column,
            )
        },
{
    let select = one(pushdown_req.field("selectList"@));
    let filter = one(pushdown_req.present_field("filter"@));
    let group = one(pushdown_req.field("groupBy"@));
    let order = one(pushdown_req.field("orderBy"@));
    let having = one(pushdown_req.present_field("having"@));
    assert(clause_values(pushdown_req) =~= select + filter + group + order + having);
    lemma_item_columns_append(select + filter + group + order, having);
    lemma_item_columns_append(select + filter + group, order);
    lemma_item_columns_append(select + filter, group);
    lemma_item_columns_append(select, filter);
    lemma_one(pushdown_req.field("selectList"@));
    lemma_one(pushdown_req.present_field("filter"@));
    lemma_one(pushdown_req.field("groupBy"@));
    lemma_one(pushdown_req.field("orderBy"@));
    lemma_one(pushdown_req.present_field("having"@));
    assert(column_nodes(JsonV::Null).len() == 0);
    let a = item_column_nodes(select);
    let b = item_column_nodes(filter);
    let c = item_column_nodes(group);
    let d = item_column_nodes(order);
    let e = item_column_nodes(having);
    lemma_contains_append(a, b, column);
    lemma_contains_append(a + b, c, column);
    lemma_contains_append(a + b + c, d, column);
    lemma_contains_append(a + b + c + d, e, column);
}

spec fn one(value: Option<JsonV>) -> Seq<JsonV> {
    match value {
        Some(inner) => seq![inner],
        None => Seq::empty(),
    }
}

proof fn lemma_one(value: Option<JsonV>)
    ensures
        item_column_nodes(one(value)) == match value {
            Some(inner) => column_nodes(inner),
            None => Seq::empty(),
        },
{
    assert(item_column_nodes(Seq::empty()) =~= Seq::empty());
    if let Some(inner) = value {
        assert(seq![inner].drop_last() =~= Seq::empty());
        assert(item_column_nodes(seq![inner]) =~= column_nodes(inner));
    }
}

proof fn lemma_contains_append(left: Seq<MembersV>, right: Seq<MembersV>, column: MembersV)
    ensures
        (left + right).contains(column) <==> left.contains(column) || right.contains(column),
{
    let all = left + right;
    if left.contains(column) {
        let i = choose|i: int| 0 <= i < left.len() && left[i] == column;
        assert(all[i] == column);
    }
    if right.contains(column) {
        let i = choose|i: int| 0 <= i < right.len() && right[i] == column;
        assert(all[left.len() + i] == column);
    }
    if all.contains(column) {
        let i = choose|i: int| 0 <= i < all.len() && all[i] == column;
        if i < left.len() {
            assert(left[i] == column);
        } else {
            assert(right[i - left.len()] == column);
        }
    }
}

/// Whether a column of a tree is a column of `leg` under `upper_name`.
pub open spec fn names_on_leg(
    column: MembersV,
    legs: JoinLegsV,
    leg: usize,
    upper_name: Seq<char>,
) -> bool {
    legs.resolve(column) == ColumnLeg::Leg(leg) && (member_text(column, "name"@) matches Some(name)
        && ascii_upper(name) == upper_name)
}

/// The names that columns have on a leg are those of the columns that belong to it.
pub proof fn lemma_names_on_a_leg(
    legs: JoinLegsV,
    leg: usize,
    columns: Seq<MembersV>,
    upper_name: Seq<char>,
)
    ensures
        leg_column_names(legs, leg, columns).contains(upper_name) <==> exists|i: int|
            0 <= i < columns.len() && names_on_leg(#[trigger] columns[i], legs, leg, upper_name),
{
    let name_of = |column: MembersV| leg_column_name(legs, leg, column);
    let names = columns.filter_map(name_of);
    if names.contains(upper_name) {
        let k = choose|k: int| 0 <= k < names.len() && names[k] == upper_name;
        lemma_filter_map_origin(columns, name_of, k);
        let i = choose|i: int| 0 <= i < columns.len() && name_of(#[trigger] columns[i]) == Some(
            names[k],
        );
        assert(names_on_leg(columns[i], legs, leg, upper_name));
    }
    assert forall|i: int|
        0 <= i < columns.len() && names_on_leg(
            #[trigger] columns[i],
            legs,
            leg,
            upper_name,
        ) implies names.contains(upper_name) by {
        lemma_filter_map_contains(columns, name_of, i);
    }
}

/// The scan of a leg emits the columns of its table that the conditions or the clauses name on that
/// leg, in the order of the table; it emits the whole table where the request selects whole rows, and
/// where nothing of the table is named.
pub proof fn lemma_legs_emit_what_is_named(
    pushdown_req: JsonV,
    condition: JsonV,
    legs: JoinLegsV,
    leg: usize,
    full_cols: Seq<ColumnTypeV>,
)
    ensures
        ({
            let referenced = column_nodes(condition) + item_column_nodes(clause_values(pushdown_req));
            let named = columns_named(full_cols, leg_column_names(legs, leg, referenced));
            let whole = pushdown_req.nonempty_items_field("selectList"@) is None;
            &&& whole ==> leg_columns(pushdown_req, condition, legs, leg, full_cols) == full_cols
            &&& !whole && named.len() > 0 ==> leg_columns(
                pushdown_req,
                condition,
                legs,
                leg,
                full_cols,
            ) == named
            &&& !whole && named.len() == 0 ==> leg_columns(
                pushdown_req,
                condition,
                legs,
                leg,
                full_cols,
            ) == full_cols
            &&& selects_whole_row(pushdown_req) == whole
        }),
{
}

/// The names that a tree may read from a table are those of its columns that are tagged with that
/// table, up to ASCII case, or with none.
pub proof fn lemma_possible_names(node: JsonV, table: Seq<char>, upper_name: Seq<char>)
    ensures
        possible_column_names(node, table).contains(upper_name) <==> exists|i: int|
            0 <= i < column_nodes(node).len() && (member_text(
                #[trigger] column_nodes(node)[i],
                "name"@,
            ) matches Some(name) && ascii_upper(name) == upper_name) && (member_text(
                column_nodes(node)[i],
                "tableName"@,
            ) matches Some(owner) ==> ascii_same(owner, table)),
{
    let columns = column_nodes(node);
    let name_of = |column: MembersV| possible_column_name(table, column);
    let names = columns.filter_map(name_of);
    if names.contains(upper_name) {
        let k = choose|k: int| 0 <= k < names.len() && names[k] == upper_name;
        lemma_filter_map_origin(columns, name_of, k);
        let i = choose|i: int| 0 <= i < columns.len() && name_of(#[trigger] columns[i]) == Some(
            names[k],
        );
        assert(member_text(column_nodes(node)[i], "name"@) is Some);
    }
    assert forall|i: int|
        0 <= i < columns.len() && (member_text(#[trigger] columns[i], "name"@) matches Some(name)
            && ascii_upper(name) == upper_name) && (member_text(
            columns[i],
            "tableName"@,
        ) matches Some(owner) ==> ascii_same(owner, table)) implies names.contains(upper_name) by {
        lemma_filter_map_contains(columns, name_of, i);
    }
}

/// The scan of one table emits the whole table where the request selects whole rows; otherwise the
/// columns that a clause names, in the order of the table, and the first column where none is.
pub proof fn lemma_single_scans_emit_what_is_named(
    pushdown_req: JsonV,
    all_cols: Seq<ColumnTypeV>,
)
    requires
        all_cols.len() > 0,
    ensures
        ({
            let named = columns_named(
                all_cols,
                upper_column_names(item_column_nodes(clause_values(pushdown_req))),
            );
            referenced_columns(pushdown_req, all_cols) == if pushdown_req.nonempty_items_field(
                "selectList"@,
            ) is None {
                all_cols
            } else if named.len() > 0 {
                named
            } else {
                seq![all_cols[0]]
            }
        }),
{
}

/// The uppercase names of columns are those of the columns that have a name.
pub proof fn lemma_upper_names(columns: Seq<MembersV>, upper_name: Seq<char>)
    ensures
        upper_column_names(columns).contains(upper_name) <==> exists|i: int|
            0 <= i < columns.len() && (member_text(#[trigger] columns[i], "name"@) matches Some(name)
                && uppercase(name) == upper_name),
{
    let name_of = |column: MembersV| upper_column_name(column);
    let names = columns.filter_map(name_of);
    if names.contains(upper_name) {
        let k = choose|k: int| 0 <= k < names.len() && names[k] == upper_name;
        lemma_filter_map_origin(columns, name_of, k);
        let i = choose|i: int| 0 <= i < columns.len() && name_of(#[trigger] columns[i]) == Some(
            names[k],
        );
        assert(member_text(columns[i], "name"@) is Some);
    }
    assert forall|i: int|
        0 <= i < columns.len() && (member_text(#[trigger] columns[i], "name"@) matches Some(name)
            && uppercase(name) == upper_name) implies names.contains(upper_name) by {
        lemma_filter_map_contains(columns, name_of, i);
    }
}

/// The columns of a join of two tables are those of the first, then those of the second.
pub proof fn lemma_both_tables(
    request: JsonV,
    join: DetectedJoinV,
    exasol_type: spec_fn(JsonV) -> Seq<char>,
)
    requires
        join.tables.len() == 2,
    ensures
        both_table_columns(request, join, exasol_type) == table_columns(
            request,
            join.tables[0].table_name,
            exasol_type,
        ) + table_columns(request, join.tables[1].table_name, exasol_type),
{
}

} // verus!
