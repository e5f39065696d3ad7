//! The query that joins the scans of a join, clause by clause.

use crate::joins::attribution::JoinLegsV;
use crate::joins::clauses::{clause_sql, clauses_sql, full_row_items, group_by_sql, having_sql,
    leg_column_sql, leg_row_items, order_by_sql, outer_clauses, select_items, select_text,
    self_applied_where, OuterWrapperClausesV, Renderer};
use crate::joins::rendering::type_screened;
use crate::joins::sql_builders::{attach_point, attached, join_chain, joined_query, lacks_columns,
    leg_subquery, on_text, parenthesized, scan_filter_text, side_columns, side_fan_out, side_scan,
    where_parts, NScanJoinV};
use crate::joins::dialects::{JoinServicesV, ScanDialectV};
use crate::joins::planning::{table_columns, ResolvedJoinSide};
use crate::json::JsonV;
use crate::json_text::json_text;
use crate::ordering::{limit_of, limit_offset, offset_of};
use crate::scan::{column_items, item_sql, names_of, types_of, ColumnTypeV, CommonScanSpecV,
    JoinSpecV, ProjectionItemV, ScanSpecV, ScanStorage, ScanTuning};
use crate::text::{decimal, joined, quoted};
use crate::tree::{column_nodes, without_aliases};
use vstd::prelude::*;

verus! {

/// The message of a request that is declined for good.
pub open spec fn declined_because(reason: Seq<char>) -> Seq<char> {
    "join pushdown declined: "@ + reason + "; this is a hard error, not a native re-plan"@
}

/// A clause is the text of its tree with each column qualified by its leg. It is declined where that
/// tree has no text, and where a column could belong to several legs.
pub proof fn lemma_clauses_are_qualified(
    node: JsonV,
    legs: JoinLegsV,
    render: Renderer,
    what: Seq<char>,
)
    ensures
        clause_sql(node, legs, render, what) == match legs.qualified(node) {
            Ok(tree) => match render(tree) {
                Some(sql) => Ok(sql),
                None => Err(declined_because(what)),
            },
            Err(column) => Err(
                declined_because(
                    column.description()
                        + " could not be attributed to a join leg, so no correct qualified reference exists"@,
                ),
            ),
        },
{
}

/// Clauses are written in their places, each from its own tree; the error is that of the first tree
/// that has one.
pub proof fn lemma_clauses_in_place(
    nodes: Seq<JsonV>,
    legs: JoinLegsV,
    render: Renderer,
    what: Seq<char>,
)
    ensures
        match clauses_sql(nodes, legs, render, what) {
            Ok(texts) => texts.len() == nodes.len() && forall|i: int|
                0 <= i < nodes.len() ==> clause_sql(nodes[i], legs, render, what) == Ok::<
                    _,
                    Seq<char>,
                >(#[trigger] texts[i]),
            Err(message) => exists|i: int|
                0 <= i < nodes.len() && clause_sql(#[trigger] nodes[i], legs, render, what) == Err::<
                    Seq<char>,
                    _,
                >(message) && forall|j: int|
                    0 <= j < i ==> clause_sql(#[trigger] nodes[j], legs, render, what) is Ok,
        },
    decreases nodes.len(),
{
    if nodes.len() > 0 {
        let rest = nodes.drop_last();
        lemma_clauses_in_place(rest, legs, render, what);
        assert(nodes[nodes.len() - 1] == nodes.last());
        match clauses_sql(rest, legs, render, what) {
            Ok(texts) => {
                assert forall|j: int| 0 <= j < rest.len() implies clause_sql(
                    #[trigger] nodes[j],
                    legs,
                    render,
                    what,
                ) is Ok by {
                    assert(clause_sql(rest[j], legs, render, what) == Ok::<_, Seq<char>>(texts[j]));
                }
            },
            Err(message) => {
                let i = choose|i: int|
                    0 <= i < rest.len() && clause_sql(#[trigger] rest[i], legs, render, what)
                        == Err::<Seq<char>, _>(message) && forall|j: int|
                        0 <= j < i ==> clause_sql(#[trigger] rest[j], legs, render, what) is Ok;
                assert(nodes[i] == rest[i]);
                assert forall|j: int| 0 <= j < i implies clause_sql(
                    #[trigger] nodes[j],
                    legs,
                    render,
                    what,
                ) is Ok by {
                    assert(rest[j] == nodes[j]);
                }
            },
        }
    }
}

/// A whole row is every column of every leg, leg by leg and column by column, each qualified by the
/// alias of its leg.
pub proof fn lemma_whole_rows(
    cols_per_leg: Seq<Seq<ColumnTypeV>>,
    columns: Seq<ColumnTypeV>,
    i: int,
)
    requires
        cols_per_leg.len() < usize::MAX,
        0 <= i < columns.len(),
    ensures
        full_row_items(Seq::empty()).len() == 0,
        ({
            let before = full_row_items(cols_per_leg);
            let all = full_row_items(cols_per_leg.push(columns));
            &&& all.len() == before.len() + columns.len()
            &&& all.take(before.len() as int) == before
            &&& all[before.len() + i] == (ProjectionItemV::Expr {
                expr: quoted("LHS_T"@ + decimal(cols_per_leg.len())) + "."@ + quoted(columns[i].0),
            })
        }),
{
    let before = full_row_items(cols_per_leg);
    let all = full_row_items(cols_per_leg.push(columns));
    assert(cols_per_leg.push(columns).drop_last() =~= cols_per_leg);
    let own = leg_row_items(cols_per_leg.len() as usize, columns);
    assert(all =~= before + own);
    assert(all.take(before.len() as int) =~= before);
    assert(own[i] == ProjectionItemV::Expr {
        expr: leg_column_sql(cols_per_leg.len() as usize, columns[i].0),
    });
}

/// A query selects the items of the select list, in their places, or whole rows where there is no
/// select list.
pub proof fn lemma_select_lists(
    pushdown_req: JsonV,
    list: Seq<JsonV>,
    legs: JoinLegsV,
    cols_per_leg: Seq<Seq<ColumnTypeV>>,
    render: Renderer,
)
    ensures
        list.len() > 0 && pushdown_req.field("selectList"@) == Some(JsonV::Array(list)) ==> match (
            select_items(pushdown_req, legs, cols_per_leg, render),
            clauses_sql(
                list,
                legs,
                render,
                "a select-list item could not be rendered for the qualified N-scan join"@,
            ),
        ) {
            (Ok(items), Ok(texts)) => items.len() == texts.len() && forall|i: int|
                0 <= i < texts.len() ==> #[trigger] items[i] == (ProjectionItemV::Expr {
                    expr: texts[i],
                }),
            (Err(message), Err(first)) => message == first,
            _ => false,
        },
        pushdown_req.nonempty_items_field("selectList"@) is None ==> select_items(
            pushdown_req,
            legs,
            cols_per_leg,
            render,
        ) == Ok::<_, Seq<char>>(full_row_items(cols_per_leg)),
{
}

/// A select list is written item by item: an expression as it is, and a column by its quoted name.
/// Nothing to select is written as a star.
pub proof fn lemma_select_lists_are_written(items: Seq<ProjectionItemV>)
    ensures
        items.len() == 0 ==> select_text(items) == "*"@,
        items.len() > 0 ==> select_text(items) == joined(
            Seq::new(
                items.len(),
                |i: int|
                    match items[i] {
                        ProjectionItemV::Column(name) => quoted(name),
                        ProjectionItemV::Expr { expr } => expr,
                    },
            ),
            ", "@,
        ),
{
    assert(crate::joins::clauses::items_sql(items) =~= Seq::new(
        items.len(),
        |i: int|
            match items[i] {
                ProjectionItemV::Column(name) => quoted(name),
                ProjectionItemV::Expr { expr } => expr,
            },
    ));
}

/// A query groups by the keys of the request, in their order, and filters groups by its `HAVING`; it
/// does neither where the request has none.
pub proof fn lemma_groups_are_written(
    pushdown_req: JsonV,
    keys: Seq<JsonV>,
    having: JsonV,
    legs: JoinLegsV,
    render: Renderer,
)
    ensures
        keys.len() > 0 && pushdown_req.field("groupBy"@) == Some(JsonV::Array(keys))
            ==> group_by_sql(pushdown_req, legs, render) == match clauses_sql(
            keys,
            legs,
            render,
            "a GROUP BY key could not be rendered for the qualified N-scan join"@,
        ) {
            Ok(texts) => Ok(Some(joined(texts, ", "@))),
            Err(message) => Err(message),
        },
        pushdown_req.nonempty_items_field("groupBy"@) is None ==> group_by_sql(
            pushdown_req,
            legs,
            render,
        ) == Ok::<Option<Seq<char>>, Seq<char>>(None),
        having != JsonV::Null && pushdown_req.field("having"@) == Some(having) ==> having_sql(
            pushdown_req,
            legs,
            render,
        ) == match clause_sql(
            having,
            legs,
            render,
            "HAVING could not be rendered for the qualified N-scan join"@,
        ) {
            Ok(text) => Ok(Some(text)),
            Err(message) => Err(message),
        },
        pushdown_req.present_field("having"@) is None ==> having_sql(pushdown_req, legs, render)
            == Ok::<Option<Seq<char>>, Seq<char>>(None),
{
}

/// A clause that is there, behind its keyword.
pub open spec fn led_by(keyword: Seq<char>, clause: Option<Seq<char>>) -> Seq<char> {
    match clause {
        Some(text) => keyword + text,
        None => Seq::empty(),
    }
}

/// Behind the joined rows a query groups, filters groups, sorts and cuts, in this order, as the
/// request says; the first of its clauses that cannot be written decides the error.
pub proof fn lemma_outer_clauses_are_written(
    pushdown_req: JsonV,
    legs: JoinLegsV,
    cols_per_leg: Seq<Seq<ColumnTypeV>>,
    render: Renderer,
)
    ensures
        outer_clauses(pushdown_req, legs, cols_per_leg, render) == match (
            select_items(pushdown_req, legs, cols_per_leg, render),
            group_by_sql(pushdown_req, legs, render),
            having_sql(pushdown_req, legs, render),
            order_by_sql(pushdown_req, legs, render),
        ) {
            (Ok(items), Ok(group_by), Ok(having), Ok(order_by)) => Ok(
                OuterWrapperClausesV {
                    select: select_text(items),
                    trailing: led_by(" GROUP BY "@, group_by) + led_by(" HAVING "@, having)
                        + led_by(" ORDER BY "@, order_by) + limit_offset(
                        limit_of(pushdown_req),
                        offset_of(pushdown_req),
                    ),
                },
            ),
            (Err(message), _, _, _) => Err(message),
            (Ok(_), Err(message), _, _) => Err(message),
            (Ok(_), Ok(_), Err(message), _) => Err(message),
            (Ok(_), Ok(_), Ok(_), Err(message)) => Err(message),
        },
{
}

/// A filter that the query applies itself is written as a filter, over qualified columns. Where it
/// has no such text it is dropped if it can be written as an expression, since it is trivially true
/// then, and declined otherwise.
pub proof fn lemma_own_filters_are_written(
    tree: JsonV,
    legs: JoinLegsV,
    subject: Seq<char>,
    expression: Renderer,
    filter: Renderer,
)
    ensures
        self_applied_where(tree, legs, subject, expression, filter) == match legs.qualified(tree) {
            Err(column) => Err(
                declined_because(
                    column.description()
                        + " could not be attributed to a join leg, so no correct qualified reference exists"@,
                ),
            ),
            Ok(qualified) => match (filter(qualified), expression(qualified)) {
                (Some(sql), _) => Ok(Some(sql)),
                (None, Some(_)) => Ok(None),
                (None, None) => Err(
                    declined_because(
                        subject
                            + " could be rendered by neither dialect, so it could be applied nowhere: "@
                            + json_text(tree),
                    ),
                ),
            },
        },
{
}

/// A condition has no point in the chain exactly where it has no columns, where one of them belongs
/// to no leg, or where the chain has no second leg.
pub proof fn lemma_unattached_conditions(legs: JoinLegsV, condition: JsonV, last: int)
    ensures
        attach_point(legs, condition, last) is None <==> last < 1 || column_nodes(condition).len()
            == 0 || exists|i: int|
            0 <= i < column_nodes(condition).len() && legs.resolve(
                #[trigger] column_nodes(condition)[i],
            ) !is Leg,
{
}

/// The conditions of a point are those that are attached there, in their order.
pub proof fn lemma_conditions_keep_their_order(
    legs: JoinLegsV,
    conditions: Seq<JsonV>,
    texts: Seq<Seq<char>>,
    condition: JsonV,
    text: Seq<char>,
    last: int,
    point: Option<int>,
)
    requires
        conditions.len() == texts.len(),
    ensures
        attached(legs, Seq::empty(), Seq::empty(), last, point).len() == 0,
        attached(legs, conditions.push(condition), texts.push(text), last, point) == if attach_point(
            legs,
            condition,
            last,
        ) == point {
            attached(legs, conditions, texts, last, point).push(text)
        } else {
            attached(legs, conditions, texts, last, point)
        },
{
    assert(conditions.push(condition).drop_last() =~= conditions);
    assert(texts.push(text).drop_last() =~= texts);
}

/// The scans are joined left to right, each as a subquery under the alias of its leg and on every
/// condition that is attached at its point; a point without one joins on a condition that holds.
pub proof fn lemma_scans_are_chained(
    legs: JoinLegsV,
    fan_outs: Seq<Seq<char>>,
    fan_out: Seq<char>,
    conditions: Seq<JsonV>,
    texts: Seq<Seq<char>>,
    last: int,
)
    requires
        fan_outs.len() < usize::MAX,
    ensures
        join_chain(legs, seq![fan_out], conditions, texts, last) == "("@ + fan_out + ") AS "@
            + quoted("LHS_T"@ + decimal(0)),
        fan_outs.len() > 0 ==> ({
            let here = attached(legs, conditions, texts, last, Some(fan_outs.len() as int));
            join_chain(legs, fan_outs.push(fan_out), conditions, texts, last) == join_chain(
                legs,
                fan_outs,
                conditions,
                texts,
                last,
            ) + " INNER JOIN "@ + ("("@ + fan_out + ") AS "@ + quoted(
                "LHS_T"@ + decimal(fan_outs.len()),
            )) + " ON "@ + if here.len() == 0 {
                "1=1"@
            } else {
                joined(Seq::new(here.len(), |i: int| "("@ + here[i] + ")"@), " AND "@)
            }
        }),
{
    assert(fan_outs.push(fan_out).drop_last() =~= fan_outs);
    let here = attached(legs, conditions, texts, last, Some(fan_outs.len() as int));
    assert(parenthesized(here) =~= Seq::new(here.len(), |i: int| "("@ + here[i] + ")"@));
    assert(on_text(here) == if here.len() == 0 {
        "1=1"@
    } else {
        joined(parenthesized(here), " AND "@)
    });
    assert(leg_subquery(fan_out, fan_outs.len() as usize) == "("@ + fan_out + ") AS "@ + quoted(
        "LHS_T"@ + decimal(fan_outs.len()),
    ));
}

/// The scan of a side reads the table of that side with its own schema, partitions and storage, and
/// the projection, filter and join that it is given; it holds no files of its own.
pub proof fn lemma_scans_read_their_side(
    side: ResolvedJoinSide,
    projection: Seq<ProjectionItemV>,
    filter: Option<Seq<char>>,
    join: Option<JoinSpecV>,
    storage: ScanStorage,
    tuning: ScanTuning,
)
    ensures
        side_scan(side, projection, filter, join, storage, tuning) == (ScanSpecV {
            common: CommonScanSpecV {
                table_root: side.table_root@,
                projection,
                filter,
                limit: None,
                order_by: Seq::empty(),
                aggregates: None,
                group_keys: None,
                distinct: false,
                logical_schema: side.logical_schema@,
                name_mapping: side.name_mapping@,
                join,
                partition_columns: side.partition_columns.deep_view(),
                storage,
                tuning,
            },
            files: Seq::empty(),
        }),
{
}

/// A scan filters by the text of its filter without aliases, and not at all where it has none.
pub proof fn lemma_scans_filter(filter: JsonV, scan: ScanDialectV)
    ensures
        scan_filter_text(Some(filter), scan) == (scan.filter)(without_aliases(filter)),
        scan_filter_text(None, scan) is None,
{
}

/// The query of a side scans the given columns by their names and with their types, over the shards
/// of that side, from the storage of that side, and uncut. It fails exactly where that storage does.
pub proof fn lemma_sides_are_scanned(
    side: ResolvedJoinSide,
    columns: Seq<ColumnTypeV>,
    filter: Option<JsonV>,
    services: JoinServicesV,
)
    ensures
        side_fan_out(side, columns, filter, services) == match (services.builder.storage)(
            side.effective_storage,
        ) {
            Ok(storage) => Ok(
                (services.builder.driving_sql)(
                    side_scan(
                        side,
                        Seq::new(
                            columns.len(),
                            |i: int| ProjectionItemV::Column(columns[i].0),
                        ),
                        scan_filter_text(filter, services.scan),
                        None,
                        storage,
                        services.builder.tuning,
                    ),
                    (services.builder.shards)(side),
                    Seq::new(columns.len(), |i: int| columns[i].1),
                    None,
                ),
            ),
            Err(message) => Err(message),
        },
{
    assert(column_items(columns) =~= Seq::new(
        columns.len(),
        |i: int| ProjectionItemV::Column(columns[i].0),
    ));
    assert(types_of(columns) =~= Seq::new(columns.len(), |i: int| columns[i].1));
}

/// The names and the types of columns are those of the columns, place by place, and an item is
/// written by its quoted name or by its expression.
pub proof fn lemma_columns_in_place(columns: Seq<ColumnTypeV>, i: int, name: Seq<char>)
    requires
        0 <= i < columns.len(),
    ensures
        names_of(columns).len() == columns.len(),
        names_of(columns)[i] == columns[i].0,
        types_of(columns).len() == columns.len(),
        types_of(columns)[i] == columns[i].1,
        column_items(columns).len() == columns.len(),
        column_items(columns)[i] == ProjectionItemV::Column(columns[i].0),
        item_sql(ProjectionItemV::Column(name)) == quoted(name),
        item_sql(ProjectionItemV::Expr { expr: name }) == name,
{
}

/// Each side has the columns that the request declares for its table, and a side lacks columns where
/// it declares none.
pub proof fn lemma_sides_have_their_columns(
    request: JsonV,
    sides: Seq<ResolvedJoinSide>,
    exasol_type: spec_fn(JsonV) -> Seq<char>,
    i: int,
)
    requires
        0 <= i < sides.len(),
    ensures
        side_columns(request, sides, exasol_type).len() == sides.len(),
        side_columns(request, sides, exasol_type)[i] == table_columns(
            request,
            sides[i].table_name@,
            exasol_type,
        ),
        lacks_columns(side_columns(request, sides, exasol_type)) <==> exists|j: int|
            0 <= j < sides.len() && table_columns(
                request,
                (#[trigger] sides[j]).table_name@,
                exasol_type,
            ).len() == 0,
{
    let columns = side_columns(request, sides, exasol_type);
    if lacks_columns(columns) {
        let j = choose|j: int| 0 <= j < columns.len() && (#[trigger] columns[j]).len() == 0;
        assert(table_columns(request, sides[j].table_name@, exasol_type).len() == 0);
    }
    assert forall|j: int|
        0 <= j < sides.len() && table_columns(
            request,
            (#[trigger] sides[j]).table_name@,
            exasol_type,
        ).len() == 0 implies lacks_columns(columns) by {
        assert(columns[j].len() == 0);
    }
}

/// Each leg is scanned by the query of its own side, over its own columns and with what it applies of
/// its own conjuncts.
pub proof fn lemma_legs_scan_their_side(join: NScanJoinV, leg: int)
    requires
        0 <= leg < join.sides.len(),
    ensures
        join.fan_out(leg) == side_fan_out(
            join.sides[leg],
            join.leg_columns(leg),
            match join.leg_local(leg) {
                Some(local) => type_screened(
                    local,
                    join.columns()[leg],
                    join.services.scan.rewrite,
                ).0,
                None => None,
            },
            join.services,
        ),
        join.columns()[leg] == table_columns(
            join.request,
            join.sides[leg].table_name@,
            join.services.exasol_type,
        ),
        join.legs() == JoinLegsV::of_leaves(join.join.tables),
{
}

/// The queries of the legs are in the places of the legs; the error is that of the first leg that
/// has one.
pub proof fn lemma_legs_in_place(join: NScanJoinV, n: int)
    requires
        0 <= n,
    ensures
        match join.fan_outs(n) {
            Ok(texts) => texts.len() == n && forall|i: int|
                0 <= i < n ==> join.fan_out(i) == Ok::<_, Seq<char>>(#[trigger] texts[i]),
            Err(message) => exists|i: int|
                0 <= i < n && #[trigger] join.fan_out(i) == Err::<Seq<char>, _>(message) && forall|
                    j: int,
                | 0 <= j < i ==> #[trigger] join.fan_out(j) is Ok,
        },
    decreases n,
{
    if n > 0 {
        lemma_legs_in_place(join, n - 1);
        if let Ok(texts) = join.fan_outs(n - 1) {
            assert forall|j: int| 0 <= j < n - 1 implies #[trigger] join.fan_out(j) is Ok by {
                assert(join.fan_out(j) == Ok::<_, Seq<char>>(texts[j]));
            }
        }
    }
}

/// A query over the legs filters by the conditions that no point of the chain holds, and by its own
/// filter behind them, each between parentheses; it does not filter where there is neither.
pub proof fn lemma_joined_queries_are_written(
    select: Seq<char>,
    from: Seq<char>,
    residual: Seq<Seq<char>>,
    filter: Option<Seq<char>>,
    trailing: Seq<char>,
)
    ensures
        ({
            let all = match filter {
                Some(text) => residual.push(text),
                None => residual,
            };
            joined_query(select, from, residual, filter, trailing) == if all.len() == 0 {
                "SELECT "@ + select + " FROM "@ + from + trailing
            } else {
                "SELECT "@ + select + " FROM "@ + from + " WHERE "@ + joined(
                    Seq::new(all.len(), |i: int| "("@ + all[i] + ")"@),
                    " AND "@,
                ) + trailing
            }
        }),
{
    let all = match filter {
        Some(text) => residual.push(text),
        None => residual,
    };
    assert(where_parts(residual, filter) =~= Seq::new(all.len(), |i: int| "("@ + all[i] + ")"@));
}

/// The query of a join selects and trails as the request says, from the chain of all its scans, and
/// filters by what no scan applies.
pub proof fn lemma_join_query_is_assembled(join: NScanJoinV)
    requires
        join.sides.len() == join.join.tables.len(),
        0 < join.sides.len() <= usize::MAX,
        forall|i: int|
            0 <= i < join.sides.len() ==> table_columns(
                join.request,
                (#[trigger] join.sides[i]).table_name@,
                join.services.exasol_type,
            ).len() > 0,
    ensures
        ({
            let legs = join.legs();
            let query = join.services.query;
            let last = join.sides.len() - 1;
            join.sql() == match (
                clauses_sql(
                    join.join.conditions,
                    legs,
                    query.expression,
                    "a join condition could not be rendered against the qualified N-scan schema"@,
                ),
                join.fan_outs(join.sides.len() as int),
                join.residual_where(),
                outer_clauses(join.pushdown_req, legs, join.columns(), query.expression),
            ) {
                (Ok(texts), Ok(fan_outs), Ok(filter), Ok(clauses)) => Ok(
                    joined_query(
                        clauses.select,
                        join_chain(legs, fan_outs, join.join.conditions, texts, last),
                        attached(legs, join.join.conditions, texts, last, None),
                        filter,
                        clauses.trailing,
                    ),
                ),
                (Err(message), _, _, _) => Err(message),
                (Ok(_), Err(message), _, _) => Err(message),
                (Ok(_), Ok(_), Err(message), _) => Err(message),
                (Ok(_), Ok(_), Ok(_), Err(message)) => Err(message),
            }
        }),
{
    lemma_sides_have_their_columns(join.request, join.sides, join.services.exasol_type, 0);
    lemma_legs_in_place(join, join.sides.len() as int);
}

/// A join is declined where a table has no columns, and where its sides are not as many as its
/// tables.
pub proof fn lemma_join_queries_are_declined(join: NScanJoinV, i: int)
    requires
        0 <= i < join.sides.len(),
        join.join.tables.len() <= usize::MAX,
    ensures
        table_columns(
            join.request,
            join.sides[i].table_name@,
            join.services.exasol_type,
        ).len() == 0 ==> join.sql() == Err::<Seq<char>, _>(
            declined_because(
                "an involved table carries no column metadata, so the unaccelerated N-scan fallback cannot be built"@,
            ),
        ),
        (forall|j: int|
            0 <= j < join.sides.len() ==> table_columns(
                join.request,
                (#[trigger] join.sides[j]).table_name@,
                join.services.exasol_type,
            ).len() > 0) && join.join.tables.len() != join.sides.len() ==> join.sql() == Err::<
            Seq<char>,
            _,
        >(
            declined_because(
                "leg count ("@ + decimal(join.join.tables.len()) + ") and resolved-side count ("@
                    + decimal(join.sides.len())
                    + ") disagree, so a leg index cannot index the resolved sides"@,
            ),
        ),
{
    lemma_sides_have_their_columns(join.request, join.sides, join.services.exasol_type, i);
}

/// What the query over the legs filters by is written over qualified columns, and nothing is where
/// the scans apply everything.
pub proof fn lemma_residual_filters_are_written(join: NScanJoinV)
    ensures
        join.residual_where() == match join.residual() {
            Some(tree) => self_applied_where(
                tree,
                JoinLegsV::of_leaves(join.join.tables),
                "a residual WHERE conjunct"@,
                join.services.query.expression,
                join.services.query.filter,
            ),
            None => Ok(None),
        },
{
}

} // verus!
