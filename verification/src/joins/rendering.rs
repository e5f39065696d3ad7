//! Splitting a filter between the legs of a join and the query over them.

use crate::handed::{callable, callable_with, computes, computes_with};
use crate::joins::attribution::{ColumnLeg, JoinLegs, JoinLegsV, UnattributableColumn,
    UnattributableColumnV};
use crate::joins::planning::{involved_table_columns, table_columns, DetectedJoin, DetectedJoinV};
use crate::json::{find_member_text, group_json_views, lemma_items_field_decreases, member_text,
    Json, JsonV, Members, MembersV};
use crate::scan::{contains_text, copied_column, copied_columns, ColumnType, ColumnTypeV};
use crate::text::{ascii_same, ascii_upper, eq_ignore_ascii_case, to_ascii_uppercase};
use crate::tree::{column_nodes, columns_of, item_column_nodes, walk_column_nodes};
use vstd::prelude::*;

verus! {

broadcast use group_json_views;

/// The conjuncts of a filter: the parts of nested `predicate_and` nodes, left to right. Any other
/// node, a disjunction too, is one conjunct.
pub open spec fn conjuncts(filter: JsonV) -> Seq<JsonV>
    decreases filter,
{
    if filter.is_kind("predicate_and"@) && filter.items_field("expressions"@) is Some {
        proof {
            lemma_items_field_decreases(filter, "expressions"@);
        }
        conjuncts_of(filter.items_field("expressions"@)->0)
    } else {
        seq![filter]
    }
}

/// The conjuncts of filters, left to right.
pub open spec fn conjuncts_of(filters: Seq<JsonV>) -> Seq<JsonV>
    decreases filters,
{
    if filters.len() == 0 {
        Seq::empty()
    } else {
        conjuncts_of(filters.drop_last()) + conjuncts(filters.last())
    }
}

/// Appends the conjuncts of a filter.
pub fn flatten_conjuncts<'a>(filter: &'a Json, out: &mut Vec<&'a Json>)
    ensures
        final(out).deep_view() == old(out).deep_view() + conjuncts(filter@),
    decreases filter@,
{
    let ghost before = out.deep_view();
    if filter.is_kind("predicate_and") {
        if let Some(exprs) = filter.get_array("expressions") {
            let ghost views = exprs.deep_view();
            proof {
                lemma_items_field_decreases(filter@, "expressions"@);
            }
            let mut i: usize = 0;
            assert(before + conjuncts_of(views.take(0)) =~= before);
            while i < exprs.len()
                invariant
                    0 <= i <= exprs.len(),
                    views == exprs.deep_view(),
                    decreases_to!(filter@ => views),
                    out.deep_view() == before + conjuncts_of(views.take(i as int)),
                decreases exprs.len() - i,
            {
                assert(decreases_to!(views => views[i as int]));
                assert(views[i as int] == exprs@[i as int]@);
                flatten_conjuncts(&exprs[i], out);
                assert(views.take(i + 1).drop_last() =~= views.take(i as int));
                assert(out.deep_view() =~= before + conjuncts_of(views.take(i + 1)));
                i += 1;
            }
            assert(views.take(i as int) =~= views);
            return;
        }
    }
    out.push(filter);
    assert(out.deep_view() =~= before + seq![filter@]);
}

/// A `predicate_and` node over filters.
pub open spec fn and_node(filters: Seq<JsonV>) -> JsonV {
    JsonV::Object(
        seq![
            ("expressions"@, JsonV::Array(filters)),
            ("type"@, JsonV::Str("predicate_and"@)),
        ],
    )
}

fn build_and_node(filters: Vec<Json>) -> (node: Json)
    ensures
        node@ == and_node(filters.deep_view()),
{
    let mut members: Members = Vec::new();
    members.push(("expressions".to_string(), Json::Array(filters)));
    members.push(("type".to_string(), Json::Str("predicate_and".to_string())));
    assert(members.deep_view() =~= and_node(filters.deep_view())->Object_0);
    Json::Object(members)
}

/// One filter for several: none for none, the filter itself for one, else a `predicate_and`.
pub open spec fn conjunction(filters: Seq<JsonV>) -> Option<JsonV> {
    if filters.len() == 0 {
        None
    } else if filters.len() == 1 {
        Some(filters[0])
    } else {
        Some(and_node(filters))
    }
}

/// The conjuncts of a filter that are kept, as one filter.
pub open spec fn part(filter: JsonV, keep: spec_fn(JsonV) -> bool) -> Option<JsonV> {
    conjunction(conjuncts(filter).filter(keep))
}

/// Keeps some conjuncts of a filter.
pub fn partition_conjuncts<K: Fn(&Json) -> bool>(filter: &Json, keep: K) -> (kept: Option<Json>)
    requires
        callable(keep),
    ensures
        forall|g: spec_fn(JsonV) -> bool| #[trigger]
            computes(keep, g) ==> kept.deep_view() == part(filter@, g),
{
    let mut all: Vec<&Json> = Vec::new();
    flatten_conjuncts(filter, &mut all);
    let ghost views = all.deep_view();
    assert(views =~= conjuncts(filter@));
    let mut kept: Vec<Json> = Vec::new();
    let mut i: usize = 0;
    proof {
        reveal(Seq::filter);
        assert(kept.deep_view() =~= Seq::empty());
        assert(views.take(0) =~= Seq::empty());
    }
    while i < all.len()
        invariant
            0 <= i <= all.len(),
            views == all.deep_view(),
            callable(keep),
            forall|g: spec_fn(JsonV) -> bool| #[trigger]
                computes(keep, g) ==> kept.deep_view() == views.take(i as int).filter(g),
        decreases all.len() - i,
    {
        proof {
            reveal(Seq::filter);
            assert(views.take(i + 1).drop_last() =~= views.take(i as int));
        }
        let ghost before = kept.deep_view();
        if keep(all[i]) {
            let conjunct = all[i].clone();
            kept.push(conjunct);
            assert(kept.deep_view() =~= before.push(conjunct@));
        }
        i += 1;
    }
    assert(views.take(i as int) =~= views);
    if kept.len() == 0 {
        None
    } else if kept.len() == 1 {
        let ghost list = kept.deep_view();
        let only = kept.pop();
        assert(only.deep_view() == Some(list[0]));
        only
    } else {
        Some(build_and_node(kept))
    }
}

/// The conjuncts whose columns all belong to `leg`.
pub open spec fn leg_part(filter: JsonV, legs: JoinLegsV, leg: usize) -> Option<JsonV> {
    part(filter, |conjunct: JsonV| legs.sole_leg(conjunct) == Some(leg))
}

/// Keeps the conjuncts whose columns all belong to `leg`, by leg and never by table name, so that
/// the occurrences of a self-joined table get only their own. A conjunct over one leg is
/// necessary for the rows of that leg to survive an inner join.
pub fn leg_local_filter(filter: &Json, legs: &JoinLegs, leg: usize) -> (local: Option<Json>)
    ensures
        local.deep_view() == leg_part(filter@, legs@, leg),
{
    let keep = |conjunct: &Json| -> (kept: bool)
        ensures
            kept == (legs@.sole_leg(conjunct@) == Some(leg)),
        {
            match legs.conjunct_leg(conjunct) {
                Some(owner) => owner == leg,
                None => false,
            }
        };
    let ghost g = |conjunct: JsonV| legs@.sole_leg(conjunct) == Some(leg);
    assert(computes(keep, g));
    partition_conjuncts(filter, keep)
}

/// The conjuncts that belong to no single leg.
pub open spec fn cross_leg_part(filter: JsonV, legs: JoinLegsV) -> Option<JsonV> {
    part(filter, |conjunct: JsonV| legs.sole_leg(conjunct) is None)
}

/// Keeps the conjuncts that belong to no single leg.
pub fn cross_leg_residual_filter(filter: &Json, legs: &JoinLegs) -> (residual: Option<Json>)
    ensures
        residual.deep_view() == cross_leg_part(filter@, legs@),
{
    let keep = |conjunct: &Json| -> (kept: bool)
        ensures
            kept == (legs@.sole_leg(conjunct@) is None),
        { legs.conjunct_leg(conjunct).is_none() };
    let ghost g = |conjunct: JsonV| legs@.sole_leg(conjunct) is None;
    assert(computes(keep, g));
    partition_conjuncts(filter, keep)
}

/// The conjuncts that the scan dialect can express.
pub open spec fn renderable_part(filter: JsonV, renderable: spec_fn(JsonV) -> bool) -> Option<
    JsonV,
> {
    part(filter, renderable)
}

/// Keeps the conjuncts that the scan dialect can express.
pub fn renderable_only<P: Fn(&Json) -> bool>(filter: &Json, renderable: &P) -> (kept: Option<
    Json,
>)
    requires
        callable(*renderable),
    ensures
        forall|g: spec_fn(JsonV) -> bool| #[trigger]
            computes(*renderable, g) ==> kept.deep_view() == renderable_part(filter@, g),
{
    let keep = |conjunct: &Json| -> (kept: bool)
        ensures
            renderable.ensures((conjunct,), kept),
        { renderable(conjunct) };
    assert forall|g: spec_fn(JsonV) -> bool| #[trigger] computes(*renderable, g) implies computes(
        keep,
        g,
    ) by {}
    partition_conjuncts(filter, keep)
}

/// The conjuncts that the scan dialect cannot express.
pub open spec fn declined_part(filter: JsonV, renderable: spec_fn(JsonV) -> bool) -> Option<
    JsonV,
> {
    part(filter, |conjunct: JsonV| !renderable(conjunct))
}

/// Keeps the conjuncts that the scan dialect cannot express.
pub fn declined_only<P: Fn(&Json) -> bool>(filter: &Json, renderable: &P) -> (kept: Option<Json>)
    requires
        callable(*renderable),
    ensures
        forall|g: spec_fn(JsonV) -> bool| #[trigger]
            computes(*renderable, g) ==> kept.deep_view() == declined_part(filter@, g),
{
    let keep = |conjunct: &Json| -> (kept: bool)
        ensures
            renderable.ensures((conjunct,), !kept),
        { !renderable(conjunct) };
    assert forall|g: spec_fn(JsonV) -> bool| #[trigger] computes(*renderable, g) implies computes(
        keep,
        |conjunct: JsonV| !g(conjunct),
    ) by {}
    partition_conjuncts(filter, keep)
}

/// A rewrite of a filter for the scan dialect, given the types of the columns, where there is one.
pub type Rewrite = spec_fn(JsonV, Seq<ColumnTypeV>) -> Option<JsonV>;

/// The conjuncts that have a rewrite of their own.
pub open spec fn accepted_part(
    side_local: JsonV,
    col_types: Seq<ColumnTypeV>,
    rewrite: Rewrite,
) -> Option<JsonV> {
    part(side_local, |conjunct: JsonV| rewrite(conjunct, col_types) is Some)
}

/// The conjuncts that have no rewrite of their own.
pub open spec fn unaccepted_part(
    side_local: JsonV,
    col_types: Seq<ColumnTypeV>,
    rewrite: Rewrite,
) -> Option<JsonV> {
    part(side_local, |conjunct: JsonV| rewrite(conjunct, col_types) is None)
}

/// A filter of one leg split in two: the rewritten conjuncts that the leg applies, and the
/// conjuncts that stay as they are for the query over the legs. When the accepted conjuncts
/// together have no rewrite, the whole filter stays.
pub open spec fn type_screened(
    side_local: JsonV,
    col_types: Seq<ColumnTypeV>,
    rewrite: Rewrite,
) -> (Option<JsonV>, Option<JsonV>) {
    match accepted_part(side_local, col_types, rewrite) {
        None => (None, unaccepted_part(side_local, col_types, rewrite)),
        Some(accepted) => match rewrite(accepted, col_types) {
            Some(rewritten) => (
                Some(rewritten),
                unaccepted_part(side_local, col_types, rewrite),
            ),
            None => (None, Some(side_local)),
        },
    }
}

/// Splits a filter of one leg by what can be rewritten for the scan dialect. It is split per
/// conjunct, so one conjunct that has no rewrite does not hold back the others, and by the column
/// types of the owning leg, since two legs may give one name two types.
pub fn type_screened_leg_filter<W: Fn(&Json, &Vec<ColumnType>) -> Option<Json>>(
    side_local: &Json,
    col_types: &Vec<ColumnType>,
    rewrite: &W,
) -> (split: (Option<Json>, Option<Json>))
    requires
        callable_with(*rewrite),
    ensures
        forall|g: Rewrite| #[trigger]
            computes_with(*rewrite, g) ==> split.deep_view() == type_screened(
                side_local@,
                col_types.deep_view(),
                g,
            ),
{
    let ghost types = col_types.deep_view();
    let refuses = |conjunct: &Json| -> (refused: bool)
        ensures
            exists|r: Option<Json>| #[trigger]
                rewrite.ensures((conjunct, col_types), r) && refused == (r is None),
        {
            let rewritten = rewrite(conjunct, col_types);
            rewritten.is_none()
        };
    let accepts = |conjunct: &Json| -> (accepted: bool)
        ensures
            exists|r: Option<Json>| #[trigger]
                rewrite.ensures((conjunct, col_types), r) && accepted == (r is Some),
        {
            let rewritten = rewrite(conjunct, col_types);
            rewritten.is_some()
        };
    assert forall|g: Rewrite| #[trigger] computes_with(*rewrite, g) implies computes(
        refuses,
        |conjunct: JsonV| g(conjunct, types) is None,
    ) && computes(accepts, |conjunct: JsonV| g(conjunct, types) is Some) by {}
    let declined = partition_conjuncts(side_local, refuses);
    match partition_conjuncts(side_local, accepts) {
        None => (None, declined),
        Some(accepted) => match rewrite(&accepted, col_types) {
            Some(rewritten) => (Some(rewritten), declined),
            None => (None, Some(side_local.clone())),
        },
    }
}

/// Two filters as one.
pub open spec fn conjoined(left: Option<JsonV>, right: Option<JsonV>) -> Option<JsonV> {
    match (left, right) {
        (Some(l), Some(r)) => Some(and_node(seq![l, r])),
        (Some(l), None) => Some(l),
        (None, r) => r,
    }
}

/// Joins two filters into one. Nothing is deduplicated, so they have to hold different conjuncts.
pub fn conjoin_filters(left: Option<Json>, right: Option<Json>) -> (both: Option<Json>)
    ensures
        both.deep_view() == conjoined(left.deep_view(), right.deep_view()),
{
    match (left, right) {
        (Some(l), Some(r)) => {
            let mut filters: Vec<Json> = Vec::new();
            filters.push(l);
            filters.push(r);
            assert(filters.deep_view() =~= seq![l@, r@]);
            Some(build_and_node(filters))
        },
        (Some(l), None) => Some(l),
        (None, r) => r,
    }
}

/// The uppercase name of a column that belongs to `leg`.
pub open spec fn leg_column_name(legs: JoinLegsV, leg: usize, column: MembersV) -> Option<
    Seq<char>,
> {
    if legs.resolve(column) == ColumnLeg::Leg(leg) {
        match member_text(column, "name"@) {
            Some(name) => Some(ascii_upper(name)),
            None => None,
        }
    } else {
        None
    }
}

/// The uppercase names of the columns that belong to `leg`.
pub open spec fn leg_column_names(
    legs: JoinLegsV,
    leg: usize,
    columns: Seq<MembersV>,
) -> Seq<Seq<char>> {
    columns.filter_map(|column: MembersV| leg_column_name(legs, leg, column))
}

fn collect_leg_column_names(legs: &JoinLegs, leg: usize, columns: &Vec<&Members>) -> (names: Vec<
    String,
>)
    ensures
        names.deep_view() == leg_column_names(legs@, leg, columns.deep_view()),
{
    let ghost views = columns.deep_view();
    let mut names: Vec<String> = Vec::new();
    let mut i: usize = 0;
    assert(names.deep_view() =~= leg_column_names(legs@, leg, views.take(0)));
    while i < columns.len()
        invariant
            0 <= i <= columns.len(),
            views == columns.deep_view(),
            names.deep_view() == leg_column_names(legs@, leg, views.take(i as int)),
        decreases columns.len() - i,
    {
        assert(views.take(i + 1).drop_last() =~= views.take(i as int));
        let ghost before = names.deep_view();
        if legs.resolve_column(columns[i]) == ColumnLeg::Leg(leg) {
            if let Some(name) = find_member_text(columns[i], "name") {
                let upper = to_ascii_uppercase(name);
                names.push(upper);
                assert(names.deep_view() =~= before + seq![upper@]);
            }
        }
        i += 1;
    }
    assert(views.take(i as int) =~= views);
    names
}

/// The uppercase name of a column that is not tagged with a table other than `table`.
pub open spec fn possible_column_name(table: Seq<char>, column: MembersV) -> Option<Seq<char>> {
    match member_text(column, "name"@) {
        Some(name) => match member_text(column, "tableName"@) {
            Some(owner) if !ascii_same(owner, table) => None,
            _ => Some(ascii_upper(name)),
        },
        None => None,
    }
}

/// The uppercase names of the columns of a tree that may belong to `table`.
pub open spec fn possible_column_names(node: JsonV, table: Seq<char>) -> Seq<Seq<char>> {
    column_nodes(node).filter_map(|column: MembersV| possible_column_name(table, column))
}

/// The uppercase names of the columns of a tree that may belong to a table: those tagged with it
/// and those tagged with no table at all.
pub fn possible_side_column_names(expr: &Json, table_name: &str) -> (names: Vec<String>)
    ensures
        names.deep_view() == possible_column_names(expr@, table_name@),
{
    let columns = columns_of(expr);
    let ghost views = columns.deep_view();
    let ghost name_of = |column: MembersV| possible_column_name(table_name@, column);
    let mut names: Vec<String> = Vec::new();
    let mut i: usize = 0;
    assert(names.deep_view() =~= views.take(0).filter_map(name_of));
    while i < columns.len()
        invariant
            0 <= i <= columns.len(),
            views == columns.deep_view(),
            name_of == |column: MembersV| possible_column_name(table_name@, column),
            names.deep_view() == views.take(i as int).filter_map(name_of),
        decreases columns.len() - i,
    {
        assert(views.take(i + 1).drop_last() =~= views.take(i as int));
        let ghost before = names.deep_view();
        if let Some(name) = find_member_text(columns[i], "name") {
            let elsewhere = match find_member_text(columns[i], "tableName") {
                Some(owner) => !eq_ignore_ascii_case(owner, table_name),
                None => false,
            };
            if !elsewhere {
                let upper = to_ascii_uppercase(name);
                names.push(upper);
                assert(names.deep_view() =~= before + seq![upper@]);
            }
        }
        i += 1;
    }
    assert(views.take(i as int) =~= views);
    names
}

/// Whether a request selects a whole row rather than listed items.
pub open spec fn selects_whole_row(pushdown_req: JsonV) -> bool {
    pushdown_req.nonempty_items_field("selectList"@) is None
}

/// Tests whether a request selects a whole row. An absent, null, empty or malformed select list
/// all do.
pub fn has_no_explicit_select_list(pushdown_req: &Json) -> (yes: bool)
    ensures
        yes == selects_whole_row(pushdown_req@),
{
    pushdown_req.get_nonempty_array("selectList").is_none()
}

/// A value as a sequence of at most one.
pub open spec fn one_or_none(value: Option<JsonV>) -> Seq<JsonV> {
    match value {
        Some(inner) => seq![inner],
        None => Seq::empty(),
    }
}

/// The clauses of a request that can name a source column.
pub open spec fn clause_values(pushdown_req: JsonV) -> Seq<JsonV> {
    one_or_none(pushdown_req.field("selectList"@)) + one_or_none(
        pushdown_req.present_field("filter"@),
    ) + one_or_none(pushdown_req.field("groupBy"@)) + one_or_none(
        pushdown_req.field("orderBy"@),
    ) + one_or_none(pushdown_req.present_field("having"@))
}

fn push_clause<'a>(clauses: &mut Vec<&'a Json>, clause: Option<&'a Json>)
    ensures
        final(clauses).deep_view() == old(clauses).deep_view() + one_or_none(clause.deep_view()),
{
    let ghost before = clauses.deep_view();
    if let Some(value) = clause {
        clauses.push(value);
    }
    assert(clauses.deep_view() =~= before + one_or_none(clause.deep_view()));
}

/// Lists the clauses of a request that can name a source column.
pub fn referenced_clause_values<'a>(pushdown_req: &'a Json) -> (clauses: Vec<&'a Json>)
    ensures
        clauses.deep_view() == clause_values(pushdown_req@),
{
    let mut clauses: Vec<&'a Json> = Vec::new();
    push_clause(&mut clauses, pushdown_req.get("selectList"));
    push_clause(&mut clauses, pushdown_req.get_present("filter"));
    push_clause(&mut clauses, pushdown_req.get("groupBy"));
    push_clause(&mut clauses, pushdown_req.get("orderBy"));
    push_clause(&mut clauses, pushdown_req.get_present("having"));
    assert(clauses.deep_view() =~= clause_values(pushdown_req@));
    clauses
}

/// Appends the columns of several trees.
pub fn walk_all<'a>(nodes: &Vec<&'a Json>, out: &mut Vec<&'a Members>)
    ensures
        final(out).deep_view() == old(out).deep_view() + item_column_nodes(nodes.deep_view()),
{
    let ghost before = out.deep_view();
    let ghost views = nodes.deep_view();
    let mut i: usize = 0;
    assert(before + item_column_nodes(views.take(0)) =~= before);
    while i < nodes.len()
        invariant
            0 <= i <= nodes.len(),
            views == nodes.deep_view(),
            out.deep_view() == before + item_column_nodes(views.take(i as int)),
        decreases nodes.len() - i,
    {
        walk_column_nodes(nodes[i], out);
        assert(views.take(i + 1).drop_last() =~= views.take(i as int));
        assert(out.deep_view() =~= before + item_column_nodes(views.take(i + 1)));
        i += 1;
    }
    assert(views.take(i as int) =~= views);
}

/// The columns whose names are among `names`, in their order.
pub open spec fn columns_named(columns: Seq<ColumnTypeV>, names: Seq<Seq<char>>) -> Seq<
    ColumnTypeV,
> {
    columns.filter(|column: ColumnTypeV| names.contains(column.0))
}

/// Keeps the columns whose names are among `names`.
pub fn keep_columns(columns: &Vec<ColumnType>, names: &Vec<String>) -> (kept: Vec<ColumnType>)
    ensures
        kept.deep_view() == columns_named(columns.deep_view(), names.deep_view()),
{
    let ghost views = columns.deep_view();
    let ghost wanted = |column: ColumnTypeV| names.deep_view().contains(column.0);
    let mut kept: Vec<ColumnType> = Vec::new();
    let mut i: usize = 0;
    proof {
        reveal(Seq::filter);
        assert(kept.deep_view() =~= views.take(0).filter(wanted));
    }
    while i < columns.len()
        invariant
            0 <= i <= columns.len(),
            views == columns.deep_view(),
            wanted == |column: ColumnTypeV| names.deep_view().contains(column.0),
            kept.deep_view() == views.take(i as int).filter(wanted),
        decreases columns.len() - i,
    {
        proof {
            reveal(Seq::filter);
            assert(views.take(i + 1).drop_last() =~= views.take(i as int));
        }
        let ghost before = kept.deep_view();
        if contains_text(names, columns[i].0.as_str()) {
            let column = copied_column(&columns[i]);
            kept.push(column);
            assert(kept.deep_view() =~= before.push(column.deep_view()));
        }
        i += 1;
    }
    assert(views.take(i as int) =~= views);
    kept
}

/// The columns of a leg that the query over the legs refers to: all of them when it selects whole
/// rows or refers to none.
pub open spec fn leg_columns(
    pushdown_req: JsonV,
    condition: JsonV,
    legs: JoinLegsV,
    leg: usize,
    full_cols: Seq<ColumnTypeV>,
) -> Seq<ColumnTypeV> {
    let referenced = column_nodes(condition) + item_column_nodes(clause_values(pushdown_req));
    let narrowed = columns_named(full_cols, leg_column_names(legs, leg, referenced));
    if selects_whole_row(pushdown_req) || narrowed.len() == 0 {
        full_cols
    } else {
        narrowed
    }
}

/// Drops the columns of a leg that the query over the legs never refers to. Kept are those of
/// this leg in the join condition, the select list, the filter, the group keys, the sort keys and
/// the `HAVING`.
pub fn referenced_leg_columns(
    pushdown_req: &Json,
    condition: &Json,
    legs: &JoinLegs,
    leg: usize,
    full_cols: &Vec<ColumnType>,
) -> (columns: Vec<ColumnType>)
    ensures
        columns.deep_view() == leg_columns(
            pushdown_req@,
            condition@,
            legs@,
            leg,
            full_cols.deep_view(),
        ),
{
    if has_no_explicit_select_list(pushdown_req) {
        return copied_columns(full_cols);
    }
    let clauses = referenced_clause_values(pushdown_req);
    let mut referenced = columns_of(condition);
    walk_all(&clauses, &mut referenced);
    let names = collect_leg_column_names(legs, leg, &referenced);
    let narrowed = keep_columns(full_cols, &names);
    if narrowed.len() == 0 {
        copied_columns(full_cols)
    } else {
        narrowed
    }
}

/// The text of a tree after each of its columns is qualified by its leg.
pub open spec fn rendered_qualified(
    node: JsonV,
    legs: JoinLegsV,
    render: spec_fn(JsonV) -> Option<Seq<char>>,
) -> Result<Option<Seq<char>>, UnattributableColumnV> {
    match legs.qualified(node) {
        Ok(tree) => Ok(render(tree)),
        Err(column) => Err(column),
    }
}

/// What a qualified rendering says: the text, or the column that has no leg.
pub open spec fn rendering(result: Result<Option<String>, UnattributableColumn>) -> Result<
    Option<Seq<char>>,
    UnattributableColumnV,
> {
    match result {
        Ok(text) => Ok(text.deep_view()),
        Err(column) => Err(column@),
    }
}

/// Qualifies each column of a tree by its leg and renders the tree with `render`.
pub fn render_qualified<R: Fn(&Json) -> Option<String>>(
    expr: &Json,
    legs: &JoinLegs,
    render: &R,
) -> (result: Result<Option<String>, UnattributableColumn>)
    requires
        callable(*render),
    ensures
        forall|g: spec_fn(JsonV) -> Option<Seq<char>>| #[trigger]
            computes(*render, g) ==> rendering(result) == rendered_qualified(expr@, legs@, g),
{
    match legs.qualify(expr) {
        Ok(tree) => Ok(render(&tree)),
        Err(column) => Err(column),
    }
}

/// The columns of both tables of a two-table join.
pub open spec fn both_table_columns(
    request: JsonV,
    join: DetectedJoinV,
    exasol_type: spec_fn(JsonV) -> Seq<char>,
) -> Seq<ColumnTypeV> {
    table_columns(request, join.tables[0].table_name, exasol_type) + table_columns(
        request,
        join.tables[1].table_name,
        exasol_type,
    )
}

/// The columns of both tables of a two-table join. Each name has one type when the tables share
/// no column name.
pub fn join_col_types<T: Fn(&Json) -> String>(
    request: &Json,
    join: &DetectedJoin,
    exasol_type: &T,
) -> (columns: Vec<ColumnType>)
    requires
        join.tables@.len() >= 2,
        callable(*exasol_type),
    ensures
        forall|g: spec_fn(JsonV) -> Seq<char>| #[trigger]
            computes(*exasol_type, g) ==> columns.deep_view() == both_table_columns(
                request@,
                join.deep_view(),
                g,
            ),
{
    let mut columns = involved_table_columns(
        request,
        join.tables[0].table_name.as_str(),
        exasol_type,
    );
    let mut right = involved_table_columns(
        request,
        join.tables[1].table_name.as_str(),
        exasol_type,
    );
    let ghost left_views = columns.deep_view();
    let ghost right_views = right.deep_view();
    columns.append(&mut right);
    assert(columns.deep_view() =~= left_views + right_views);
    columns
}

} // verus!
