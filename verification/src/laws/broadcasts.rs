//! The broadcast of a small side, the query over one scan, and the choice between plans.

use crate::joins::attribution::JoinLegsV;
use crate::joins::broadcast_join::{all_bind, binds, broadcast_rendering, broadcast_scan,
    broadcast_sql, dimension_spec, serves_window, shard_cap, BroadcastServicesV,
    RenderedJoinPushdownV};
use crate::joins::clauses::{outer_clauses, self_applied_where};
use crate::joins::dialects::{DrivingSql, JoinServicesV, QueryDialectV, ScanBuilderV};
use crate::joins::fallback::{declined_where, pushdown_response, raw_scan, referenced_columns,
    single_table_response, single_table_sql, typed_columns};
use crate::joins::plan::{all_leaf_columns, broadcast_plan, empty_join, first_refusal,
    ineligible_text, join_response, may_broadcast, qualified_udf, refuse_nothing, resolutions,
    side_refusal, some_side_empty, touched_names, EmptyResult, Refusal};
use crate::joins::planning::{broadcast_roles, disjoint_names, join_window, table_columns,
    DetectedJoin, DetectedJoinV, IneligibleJoinReason, JoinLeafV, JoinSides, JoinWindowPlanV,
    ResolvedJoinSide};
use crate::joins::rendering::{leg_part, possible_column_names};
use crate::joins::sql_builders::{n_scan_join, side_scan};
use crate::json::{Json, JsonV};
use crate::laws::join_queries::led_by;
use crate::ordering::{ordered_wrapper, ParsedSortKeyV};
use crate::scan::{types_of, ColumnTypeV, CommonScanSpecV, FileEntryV, JoinSpecV, JoinType,
    ProjectionItemV, ScanSpecV, ScanStorage};
use crate::text::{decimal, quoted};
use crate::tree::without_aliases;
use vstd::prelude::*;

verus! {

/// The parts of a broadcast over bare names, when there are any: the condition and the filter of the
/// request as the scan dialect writes them without aliases, and its projection.
pub proof fn lemma_broadcast_parts(
    request: JsonV,
    pushdown_req: JsonV,
    join: DetectedJoinV,
    exasol_type: spec_fn(JsonV) -> Seq<char>,
    services: BroadcastServicesV,
)
    requires
        join.tables.len() == 2,
        join.conditions.len() == 1,
    ensures
        ({
            let left = table_columns(request, join.tables[0].table_name, exasol_type);
            let right = table_columns(request, join.tables[1].table_name, exasol_type);
            let bare = without_aliases(pushdown_req);
            let (filter, declined) = (services.classify)(bare.present_field("filter"@), left + right);
            let condition = (services.expression)(without_aliases(join.conditions[0]));
            let open = disjoint_names(left, right) && condition is Some && declined is None;
            broadcast_rendering(request, pushdown_req, join, exasol_type, services) == if !open {
                Ok(None)
            } else {
                match (services.project)(bare, left + right) {
                    Err(message) => Err(message),
                    Ok(projected) => Ok(
                        if projected.widened {
                            None
                        } else {
                            Some(
                                RenderedJoinPushdownV {
                                    condition: condition->0,
                                    filter,
                                    projection: projected.items,
                                    projection_types: projected.types,
                                },
                            )
                        },
                    ),
                }
            }
        }),
{
}

/// A sort key binds to a projection that holds the column of its name; an expression never does.
pub proof fn lemma_keys_bind_by_name(
    key: ParsedSortKeyV,
    projection: Seq<ProjectionItemV>,
    keys: Seq<ParsedSortKeyV>,
)
    ensures
        binds(key, projection) <==> (key matches ParsedSortKeyV::Column(column) && exists|i: int|
            0 <= i < projection.len() && #[trigger] projection[i] == ProjectionItemV::Column(
                column.column,
            )),
        all_bind(keys, projection) <==> forall|i: int|
            0 <= i < keys.len() ==> binds(#[trigger] keys[i], projection),
{
}

/// The dimension is told with its own table, schema and partitions, the files and the storage that
/// are given for it, the condition, and the cap on joined rows; it is joined inner.
pub proof fn lemma_dimensions_are_told(
    dimension: ResolvedJoinSide,
    files: Seq<FileEntryV>,
    condition: Seq<char>,
    cap: Option<u64>,
    storage: ScanStorage,
)
    ensures
        dimension_spec(dimension, files, condition, cap, storage) == (JoinSpecV {
            table_root: dimension.table_root@,
            files,
            logical_schema: dimension.logical_schema@,
            name_mapping: dimension.name_mapping@,
            join_type: JoinType::Inner,
            condition,
            post_join_limit: cap,
            partition_columns: dimension.partition_columns.deep_view(),
            storage,
        }),
{
}

/// A broadcast scans the fact side with its own storage, joined to the dimension side with its own
/// storage and files.
pub proof fn lemma_broadcast_scans(
    sides: JoinSides,
    rendered: RenderedJoinPushdownV,
    cap: Option<u64>,
    dimension_storage: ScanStorage,
    fact_storage: ScanStorage,
    builder: ScanBuilderV,
    services: BroadcastServicesV,
)
    ensures
        broadcast_scan(
            sides,
            rendered,
            cap,
            dimension_storage,
            fact_storage,
            builder,
            services,
        ) == side_scan(
            sides.fact,
            rendered.projection,
            rendered.filter,
            Some(
                dimension_spec(
                    sides.dimension,
                    (services.relative_files)(sides.dimension),
                    rendered.condition,
                    cap,
                    dimension_storage,
                ),
            ),
            fact_storage,
            builder.tuning,
        ),
{
}

/// A broadcast serves no window that is left to the reading engine and no sort order that does not
/// bind to its projection, and every other window.
pub proof fn lemma_windows_that_are_served(
    rendered: RenderedJoinPushdownV,
    keys: Seq<ParsedSortKeyV>,
    limit: Option<u64>,
    offset: u64,
    rows: u64,
    sides: JoinSides,
    builder: ScanBuilderV,
    services: BroadcastServicesV,
)
    ensures
        broadcast_sql(sides, rendered, JoinWindowPlanV::ExasolPostProcessed, builder, services)
            == Ok::<Option<Seq<char>>, Seq<char>>(None),
        (exists|i: int| 0 <= i < keys.len() && !binds(#[trigger] keys[i], rendered.projection))
            ==> broadcast_sql(
            sides,
            rendered,
            JoinWindowPlanV::Ordered { keys, limit, offset },
            builder,
            services,
        ) == Ok::<Option<Seq<char>>, Seq<char>>(None),
        serves_window(JoinWindowPlanV::Unbounded, rendered.projection),
        serves_window(JoinWindowPlanV::BareLimit(rows), rendered.projection),
        (forall|i: int| 0 <= i < keys.len() ==> binds(#[trigger] keys[i], rendered.projection))
            ==> serves_window(JoinWindowPlanV::Ordered { keys, limit, offset }, rendered.projection),
        shard_cap(JoinWindowPlanV::BareLimit(rows)) == Some(rows),
        shard_cap(JoinWindowPlanV::Unbounded) is None,
        shard_cap(JoinWindowPlanV::Ordered { keys, limit, offset }) is None,
        shard_cap(JoinWindowPlanV::ExasolPostProcessed) is None,
{
}

/// A broadcast that sorts does so around the uncut query over the shards of the fact side, by the
/// keys, the limit and the offset of the window, and over the visible columns of its projection. It
/// fails where a storage does, that of the dimension before that of the fact.
pub proof fn lemma_sorted_broadcasts(
    sides: JoinSides,
    rendered: RenderedJoinPushdownV,
    keys: Seq<ParsedSortKeyV>,
    limit: Option<u64>,
    offset: u64,
    builder: ScanBuilderV,
    services: BroadcastServicesV,
)
    requires
        forall|i: int| 0 <= i < keys.len() ==> binds(#[trigger] keys[i], rendered.projection),
    ensures
        broadcast_sql(
            sides,
            rendered,
            JoinWindowPlanV::Ordered { keys, limit, offset },
            builder,
            services,
        ) == match (
            (builder.storage)(sides.dimension.effective_storage),
            (builder.storage)(sides.fact.effective_storage),
        ) {
            (Ok(dimension_storage), Ok(fact_storage)) => Ok(
                Some(
                    ordered_wrapper(
                        (builder.driving_sql)(
                            broadcast_scan(
                                sides,
                                rendered,
                                None,
                                dimension_storage,
                                fact_storage,
                                builder,
                                services,
                            ),
                            (builder.shards)(sides.fact),
                            rendered.projection_types,
                            None,
                        ),
                        (services.visible_names)(rendered.projection),
                        keys,
                        limit,
                        offset,
                    ),
                ),
            ),
            (Err(message), _) => Err(message),
            (Ok(_), Err(message)) => Err(message),
        },
{
}

/// A broadcast that does not sort is the query over the shards of the fact side, cut where the window
/// cuts. It fails where a storage does, that of the dimension before that of the fact.
pub proof fn lemma_unsorted_broadcasts(
    sides: JoinSides,
    rendered: RenderedJoinPushdownV,
    cap: Option<u64>,
    builder: ScanBuilderV,
    services: BroadcastServicesV,
)
    ensures
        ({
            let window = match cap {
                Some(rows) => JoinWindowPlanV::BareLimit(rows),
                None => JoinWindowPlanV::Unbounded,
            };
            broadcast_sql(sides, rendered, window, builder, services) == match (
                (builder.storage)(sides.dimension.effective_storage),
                (builder.storage)(sides.fact.effective_storage),
            ) {
                (Ok(dimension_storage), Ok(fact_storage)) => Ok(
                    Some(
                        (builder.driving_sql)(
                            broadcast_scan(
                                sides,
                                rendered,
                                cap,
                                dimension_storage,
                                fact_storage,
                                builder,
                                services,
                            ),
                            (builder.shards)(sides.fact),
                            rendered.projection_types,
                            cap,
                        ),
                    ),
                ),
                (Err(message), _) => Err(message),
                (Ok(_), Err(message)) => Err(message),
            }
        }),
{
}

/// A function is called behind its schema, quoted, where one is given and not empty, and bare
/// otherwise.
pub proof fn lemma_functions_are_qualified(schema: Seq<char>, udf: Seq<char>)
    ensures
        schema.len() > 0 ==> qualified_udf(Some(schema), udf) == quoted(schema) + "."@ + udf,
        qualified_udf(Some(Seq::empty()), udf) == udf,
        qualified_udf(None, udf) == udf,
{
}

/// A join that cannot be served is declined with its reason.
pub proof fn lemma_ineligible_joins_say_why()
    ensures
        ineligible_text(IneligibleJoinReason::NotInnerJoinType) == "join pushdown declined: "@
            + "the join is not an inner join"@
            + "; the adapter cannot render this join shape, so this is a hard error, not a native re-plan"@,
        ineligible_text(IneligibleJoinReason::UnsupportedShape) == "join pushdown declined: "@
            + "the join `from` clause has an unsupported shape"@
            + "; the adapter cannot render this join shape, so this is a hard error, not a native re-plan"@,
{
}

/// Each table of a join is resolved in its place: by its own name and identifier, with the columns
/// that are declared for it, and with the conjuncts of the filter that are all its own.
pub proof fn lemma_tables_are_resolved(
    request: JsonV,
    pushdown_req: JsonV,
    join: DetectedJoinV,
    exasol_type: spec_fn(JsonV) -> Seq<char>,
    i: int,
    filter: JsonV,
)
    requires
        0 <= i < join.tables.len() <= usize::MAX,
    ensures
        resolutions(request, pushdown_req, join, exasol_type).len() == join.tables.len(),
        ({
            let side = resolutions(request, pushdown_req, join, exasol_type)[i];
            &&& side.table_name == join.tables[i].table_name
            &&& side.table_identifier == join.tables[i].table_identifier
            &&& side.columns == table_columns(request, join.tables[i].table_name, exasol_type)
            &&& pushdown_req.field("filter"@) == Some(filter) && filter != JsonV::Null
                ==> side.filter == leg_part(filter, JoinLegsV::of_leaves(join.tables), i as usize)
            &&& pushdown_req.present_field("filter"@) is None ==> side.filter is None
        }),
{
}

/// A side is charged with the names that the request may read from its table, and with every name
/// that its table declares where the request selects whole rows.
pub proof fn lemma_charged_names(
    request: JsonV,
    pushdown_req: JsonV,
    table: Seq<char>,
    exasol_type: spec_fn(JsonV) -> Seq<char>,
    upper_name: Seq<char>,
)
    ensures
        touched_names(request, pushdown_req, table, exasol_type).contains(upper_name) <==> {
            ||| possible_column_names(request, table).contains(upper_name)
            ||| pushdown_req.nonempty_items_field("selectList"@) is None && exists|i: int|
                0 <= i < table_columns(request, table, exasol_type).len() && (
                #[trigger] table_columns(request, table, exasol_type)[i]).0 == upper_name
        },
{
    let named = possible_column_names(request, table);
    let columns = table_columns(request, table, exasol_type);
    let own = crate::scan::names_of(columns);
    let all = named + own;
    if named.contains(upper_name) {
        let i = choose|i: int| 0 <= i < named.len() && named[i] == upper_name;
        assert(all[i] == upper_name);
    }
    assert forall|i: int|
        0 <= i < columns.len() && (#[trigger] columns[i]).0 == upper_name implies all.contains(
        upper_name,
    ) by {
        assert(all[named.len() + i] == upper_name);
    }
    if all.contains(upper_name) {
        let i = choose|i: int| 0 <= i < all.len() && all[i] == upper_name;
        if i < named.len() {
            assert(named[i] == upper_name);
        } else {
            assert(columns[i - named.len()].0 == upper_name);
        }
    }
}

/// A request is refused by the first of its sides that refuses a name it is charged with, and by
/// none where no side does.
pub proof fn lemma_first_side_refuses(
    request: JsonV,
    pushdown_req: JsonV,
    sides: Seq<ResolvedJoinSide>,
    exasol_type: spec_fn(JsonV) -> Seq<char>,
    refusal: Refusal,
)
    ensures
        match first_refusal(request, pushdown_req, sides, exasol_type, refusal) {
            Some(message) => exists|i: int|
                0 <= i < sides.len() && refusal(
                    touched_names(
                        request,
                        pushdown_req,
                        (#[trigger] sides[i]).table_name@,
                        exasol_type,
                    ),
                    sides[i].refused_columns@,
                ) == Some(message) && forall|j: int|
                    0 <= j < i ==> refusal(
                        touched_names(
                            request,
                            pushdown_req,
                            (#[trigger] sides[j]).table_name@,
                            exasol_type,
                        ),
                        sides[j].refused_columns@,
                    ) is None,
            None => forall|i: int|
                0 <= i < sides.len() ==> refusal(
                    touched_names(
                        request,
                        pushdown_req,
                        (#[trigger] sides[i]).table_name@,
                        exasol_type,
                    ),
                    sides[i].refused_columns@,
                ) is None,
        },
        !refuse_nothing(sides) ==> side_refusal(
            request,
            pushdown_req,
            sides,
            exasol_type,
            refusal,
        ) == first_refusal(request, pushdown_req, sides, exasol_type, refusal),
        refuse_nothing(sides) <==> forall|i: int|
            0 <= i < sides.len() ==> (#[trigger] sides[i]).refused_columns@.len() == 0,
    decreases sides.len(),
{
    if sides.len() > 0 {
        let rest = sides.drop_last();
        lemma_first_side_refuses(request, pushdown_req, rest, exasol_type, refusal);
        assert forall|i: int| 0 <= i < rest.len() implies #[trigger] sides[i] == rest[i] by {}
        match first_refusal(request, pushdown_req, rest, exasol_type, refusal) {
            Some(message) => {
                let i = choose|i: int|
                    0 <= i < rest.len() && refusal(
                        touched_names(
                            request,
                            pushdown_req,
                            (#[trigger] rest[i]).table_name@,
                            exasol_type,
                        ),
                        rest[i].refused_columns@,
                    ) == Some(message) && forall|j: int|
                        0 <= j < i ==> refusal(
                            touched_names(
                                request,
                                pushdown_req,
                                (#[trigger] rest[j]).table_name@,
                                exasol_type,
                            ),
                            rest[j].refused_columns@,
                        ) is None;
                assert(sides[i] == rest[i]);
                assert forall|j: int| 0 <= j < i implies refusal(
                    touched_names(
                        request,
                        pushdown_req,
                        (#[trigger] sides[j]).table_name@,
                        exasol_type,
                    ),
                    sides[j].refused_columns@,
                ) is None by {
                    assert(rest[j] == sides[j]);
                }
            },
            None => {
                assert forall|j: int| 0 <= j < rest.len() implies refusal(
                    touched_names(
                        request,
                        pushdown_req,
                        (#[trigger] sides[j]).table_name@,
                        exasol_type,
                    ),
                    sides[j].refused_columns@,
                ) is None by {
                    assert(rest[j] == sides[j]);
                }
                assert(sides[sides.len() - 1] == sides.last());
            },
        }
    }
}

/// The columns of a join are those of its tables, table by table.
pub proof fn lemma_columns_of_all_tables(
    request: JsonV,
    leaves: Seq<JoinLeafV>,
    leaf: JoinLeafV,
    exasol_type: spec_fn(JsonV) -> Seq<char>,
)
    ensures
        all_leaf_columns(request, Seq::empty(), exasol_type).len() == 0,
        all_leaf_columns(request, leaves.push(leaf), exasol_type) == all_leaf_columns(
            request,
            leaves,
            exasol_type,
        ) + table_columns(request, leaf.table_name, exasol_type),
{
    assert(leaves.push(leaf).drop_last() =~= leaves);
}

/// An empty join is answered over the projection of the request onto the columns of all its tables.
pub proof fn lemma_empty_joins_are_projected(
    request: JsonV,
    pushdown_req: JsonV,
    join: DetectedJoinV,
    services: JoinServicesV,
    broadcast: BroadcastServicesV,
    empty_result: EmptyResult,
)
    ensures
        ({
            let columns = all_leaf_columns(request, join.tables, services.exasol_type);
            empty_join(request, pushdown_req, join, services, broadcast, empty_result) == match (
            broadcast.project)(pushdown_req, columns) {
                Ok(projected) => empty_result(pushdown_req, projected, columns),
                Err(message) => Err(message),
            }
        }),
{
}

/// A side is empty when it has no files.
pub proof fn lemma_empty_sides(sides: Seq<ResolvedJoinSide>)
    ensures
        some_side_empty(sides) <==> !(forall|i: int|
            0 <= i < sides.len() ==> (#[trigger] sides[i]).files@.len() > 0),
{
}

/// A join may be broadcast exactly where it joins two tables on an equality and its window is not
/// left to the reading engine.
pub proof fn lemma_what_may_be_broadcast(pushdown_req: JsonV, join: DetectedJoinV)
    ensures
        may_broadcast(pushdown_req, join) <==> join.tables.len() == 2 && join.conditions[0].field(
            "type"@,
        ) == Some(JsonV::Str("predicate_equal"@)) && !(join_window(
            pushdown_req,
        ) is ExasolPostProcessed),
{
}

/// A join that may be broadcast, whose smaller side fits the threshold and whose parts can be written
/// over bare names, is broadcast in its own window.
pub proof fn lemma_broadcasts_are_taken(
    request: JsonV,
    pushdown_req: JsonV,
    join: DetectedJoinV,
    sides: Seq<ResolvedJoinSide>,
    max_bytes: u64,
    services: JoinServicesV,
    broadcast: BroadcastServicesV,
)
    requires
        sides.len() == 2,
    ensures
        ({
            let roles = broadcast_roles(sides[0], sides[1], max_bytes);
            let fits = sides[0].total_bytes <= max_bytes || sides[1].total_bytes <= max_bytes;
            let plan = broadcast_plan(
                request,
                pushdown_req,
                join,
                sides,
                max_bytes,
                services,
                broadcast,
            );
            &&& !may_broadcast(pushdown_req, join) || !fits ==> plan == Ok::<
                Option<Seq<char>>,
                Seq<char>,
            >(None)
            &&& may_broadcast(pushdown_req, join) && fits ==> plan == match broadcast_rendering(
                request,
                pushdown_req,
                join,
                services.exasol_type,
                broadcast,
            ) {
                Ok(Some(rendered)) => broadcast_sql(
                    roles,
                    rendered,
                    join_window(pushdown_req),
                    services.builder,
                    broadcast,
                ),
                Ok(None) => Ok(None),
                Err(message) => Err(message),
            }
        }),
{
}

/// A join that is not refused and has no empty side is answered by its broadcast where there is one;
/// an error of the broadcast is the error of the join.
pub proof fn lemma_broadcasts_are_answers(
    request: Json,
    pushdown_req: Json,
    join: DetectedJoin,
    sides: Vec<ResolvedJoinSide>,
    max_bytes: u64,
    services: JoinServicesV,
    broadcast: BroadcastServicesV,
    refusal: Refusal,
    empty_result: EmptyResult,
)
    requires
        side_refusal(request@, pushdown_req@, sides@, services.exasol_type, refusal) is None,
        !some_side_empty(sides@),
    ensures
        ({
            let answer = join_response(
                request,
                pushdown_req,
                join,
                sides,
                max_bytes,
                services,
                broadcast,
                refusal,
                empty_result,
            );
            match broadcast_plan(
                request@,
                pushdown_req@,
                join.deep_view(),
                sides@,
                max_bytes,
                services,
                broadcast,
            ) {
                Ok(Some(sql)) => answer matches Ok(document) && document.field("sql"@) == Some(
                    JsonV::Str(sql),
                ) && document.field("type"@) == Some(JsonV::Str("pushdown"@)),
                Err(message) => answer == Err::<JsonV, _>(message),
                Ok(None) => true,
            }
        }),
{
    if let Ok(Some(sql)) = broadcast_plan(
        request@,
        pushdown_req@,
        join.deep_view(),
        sides@,
        max_bytes,
        services,
        broadcast,
    ) {
        lemma_responses(sql);
    }
}

/// A response hands over a query under the key `sql`, and is a pushdown.
pub proof fn lemma_responses(sql: Seq<char>)
    ensures
        pushdown_response(sql).field("sql"@) == Some(JsonV::Str(sql)),
        pushdown_response(sql).field("type"@) == Some(JsonV::Str("pushdown"@)),
        pushdown_response(sql)->Object_0.len() == 2,
{
    reveal_strlit("sql");
    reveal_strlit("type");
    assert("sql"@.len() != "type"@.len());
    let members = pushdown_response(sql)->Object_0;
    assert(members.skip(1)[0] == members[1]);
    assert(crate::json::lookup(members.skip(1), "type"@) == Some(JsonV::Str("pushdown"@)));
}

/// The join that is scanned is the one of the request: its documents, tables and sides.
pub proof fn lemma_scanned_joins(
    request: Json,
    pushdown_req: Json,
    join: DetectedJoin,
    sides: Vec<ResolvedJoinSide>,
    services: JoinServicesV,
)
    ensures
        ({
            let scanned = n_scan_join(request, pushdown_req, join, sides, services);
            &&& scanned.request == request@
            &&& scanned.pushdown_req == pushdown_req@
            &&& scanned.join == join.deep_view()
            &&& scanned.sides == sides@
            &&& scanned.services == services
        }),
{
}

/// The columns of a projection are its column items with the types of their places; an expression is
/// no column.
pub proof fn lemma_typed_columns(
    items: Seq<ProjectionItemV>,
    types: Seq<Seq<char>>,
    n: int,
)
    requires
        0 <= n < items.len() == types.len(),
    ensures
        typed_columns(items, types, 0).len() == 0,
        typed_columns(items, types, n + 1) == match items[n] {
            ProjectionItemV::Column(name) => typed_columns(items, types, n).push((name, types[n])),
            ProjectionItemV::Expr { expr: _ } => typed_columns(items, types, n),
        },
{
}

/// A query over one scan selects and trails as the request says, from the scan as a subquery under
/// the alias of its one leg, and filters by what the scan declines. The first of its clauses that
/// cannot be written decides the error, and the filter comes after them.
pub proof fn lemma_single_scan_queries(
    request: JsonV,
    pushdown_req: JsonV,
    scan: ScanSpecV,
    types: Seq<Seq<char>>,
    shards: Seq<Seq<FileEntryV>>,
    declined: Option<JsonV>,
    query: QueryDialectV,
    driving_sql: DrivingSql,
)
    ensures
        ({
            let legs = JoinLegsV::of_single_scan(request);
            let items = scan.common.projection;
            let columns = typed_columns(items, types, items.len() as int);
            single_table_sql(
                request,
                pushdown_req,
                scan,
                types,
                shards,
                declined,
                query,
                driving_sql,
            ) == match (
                outer_clauses(pushdown_req, legs, seq![columns], query.expression),
                declined_where(declined, legs, query),
            ) {
                (Ok(clauses), Ok(filter)) => Ok(
                    "SELECT "@ + clauses.select + " FROM ("@ + driving_sql(
                        scan,
                        shards,
                        types,
                        None,
                    ) + ") AS "@ + quoted("LHS_T"@ + decimal(0)) + led_by(" WHERE "@, filter)
                        + clauses.trailing,
                ),
                (Err(message), _) => Err(message),
                (Ok(_), Err(message)) => Err(message),
            }
        }),
{
}

/// What a scan declines is applied by the query over it.
pub proof fn lemma_declined_filters_are_applied(
    tree: JsonV,
    legs: JoinLegsV,
    query: QueryDialectV,
)
    ensures
        declined_where(Some(tree), legs, query) == self_applied_where(
            tree,
            legs,
            "a declined WHERE predicate"@,
            query.expression,
            query.filter,
        ),
        declined_where(None, legs, query) == Ok::<Option<Seq<char>>, Seq<char>>(None),
{
}

/// A scan of raw rows emits the given columns by name and applies the given filter; of the scan that
/// it is made from it keeps everything but the limit, the sort order, the aggregation and the files.
pub proof fn lemma_raw_scans(
    base: CommonScanSpecV,
    columns: Seq<ColumnTypeV>,
    filter: Option<Seq<char>>,
)
    ensures
        raw_scan(base, columns, filter) == (ScanSpecV {
            common: CommonScanSpecV {
                table_root: base.table_root,
                projection: Seq::new(columns.len(), |i: int| ProjectionItemV::Column(columns[i].0)),
                filter,
                limit: None,
                order_by: Seq::empty(),
                aggregates: None,
                group_keys: None,
                distinct: false,
                logical_schema: base.logical_schema,
                name_mapping: base.name_mapping,
                join: base.join,
                partition_columns: base.partition_columns,
                storage: base.storage,
                tuning: base.tuning,
            },
            files: Seq::empty(),
        }),
{
    assert(crate::scan::column_items(columns) =~= Seq::new(
        columns.len(),
        |i: int| ProjectionItemV::Column(columns[i].0),
    ));
}

/// A request over one table is answered by the query over the raw rows of the columns that it refers
/// to, with their types.
pub proof fn lemma_single_scan_answers(
    request: JsonV,
    pushdown_req: JsonV,
    base: CommonScanSpecV,
    filter: Option<Seq<char>>,
    shards: Seq<Seq<FileEntryV>>,
    col_types: Seq<ColumnTypeV>,
    declined: Option<JsonV>,
    query: QueryDialectV,
    driving_sql: DrivingSql,
)
    ensures
        ({
            let columns = referenced_columns(pushdown_req, col_types);
            match single_table_sql(
                request,
                pushdown_req,
                raw_scan(base, columns, filter),
                types_of(columns),
                shards,
                declined,
                query,
                driving_sql,
            ) {
                Ok(sql) => single_table_response(
                    request,
                    pushdown_req,
                    base,
                    filter,
                    shards,
                    col_types,
                    declined,
                    query,
                    driving_sql,
                ) == Ok::<_, Seq<char>>(pushdown_response(sql)),
                Err(message) => single_table_response(
                    request,
                    pushdown_req,
                    base,
                    filter,
                    shards,
                    col_types,
                    declined,
                    query,
                    driving_sql,
                ) == Err::<JsonV, _>(message),
            }
        }),
{
}

} // verus!
