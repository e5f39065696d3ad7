//! Sort orders and row windows apply to joined or merged rows, never to the rows of a shard.

use crate::grouped_agg::wrapper::GroupedScanV;
use crate::joins::broadcast_join::{
    broadcast_scan, broadcast_sql, shard_cap, BroadcastServicesV, RenderedJoinPushdownV,
};
use crate::joins::dialects::ScanBuilderV;
use crate::joins::planning::{aggregates, join_window, JoinSides, JoinWindowPlanV, ResolvedJoinSide};
use crate::joins::sql_builders::side_scan;
use crate::json::JsonV;
use crate::ordering::{limit_of, limit_offset, offset_of, ordered_wrapper, ParsedSortKeyV};
use crate::scan::{CommonScanSpecV, FileEntryV, JoinSpecV, ProjectionItemV, ScanSpecV, ScanStorage,
    ScanTuning};
use crate::text::decimal;
use vstd::prelude::*;

verus! {

/// The scan of a side carries no limit, no sort order and no aggregation.
pub proof fn lemma_side_scan_has_no_window(
    primary: ResolvedJoinSide,
    projection: Seq<ProjectionItemV>,
    filter: Option<Seq<char>>,
    join: Option<JoinSpecV>,
    storage: ScanStorage,
    tuning: ScanTuning,
)
    ensures
        ({
            let scan = side_scan(primary, projection, filter, join, storage, tuning);
            &&& scan.common.limit is None
            &&& scan.common.order_by.len() == 0
            &&& scan.common.aggregates is None
            &&& scan.common.group_keys is None
            &&& !scan.common.distinct
        }),
{
}

/// Shards of a broadcast join are cut only by a limit that comes without a sort order and without
/// an offset, and at that limit.
pub proof fn lemma_shards_are_cut_by_a_bare_limit_only(pushdown_req: JsonV)
    ensures
        shard_cap(join_window(pushdown_req)) matches Some(rows) ==> limit_of(pushdown_req) == Some(
            rows,
        ) && offset_of(pushdown_req) == 0 && pushdown_req.nonempty_items_field("orderBy"@) is None
            && !aggregates(pushdown_req),
{
}

/// A scan with `rows` as the cap on the rows of its join, and nothing else changed.
pub open spec fn with_join_cap(scan: ScanSpecV, rows: u64) -> ScanSpecV {
    ScanSpecV {
        common: CommonScanSpecV {
            join: match scan.common.join {
                Some(join) => Some(JoinSpecV { post_join_limit: Some(rows), ..join }),
                None => None,
            },
            ..scan.common
        },
        ..scan
    }
}

/// A limit without a sort order changes the scan of a broadcast join in the cap on joined rows
/// alone. It never becomes a limit of the scan, and the driving query is cut at it too.
pub proof fn lemma_bare_limit_caps_the_joined_rows(
    sides: JoinSides,
    rendered: RenderedJoinPushdownV,
    rows: u64,
    builder: ScanBuilderV,
    services: BroadcastServicesV,
)
    requires
        broadcast_sql(
            sides,
            rendered,
            JoinWindowPlanV::Unbounded,
            builder,
            services,
        ) matches Ok(Some(_)),
    ensures
        ({
            let scan = broadcast_scan(
                sides,
                rendered,
                None,
                (builder.storage)(sides.dimension.effective_storage)->Ok_0,
                (builder.storage)(sides.fact.effective_storage)->Ok_0,
                builder,
                services,
            );
            let capped = with_join_cap(scan, rows);
            let shards = (builder.shards)(sides.fact);
            let types = rendered.projection_types;
            &&& broadcast_sql(sides, rendered, JoinWindowPlanV::Unbounded, builder, services) == Ok::<
                Option<Seq<char>>,
                Seq<char>,
            >(Some((builder.driving_sql)(scan, shards, types, None)))
            &&& broadcast_sql(sides, rendered, JoinWindowPlanV::BareLimit(rows), builder, services)
                == Ok::<Option<Seq<char>>, Seq<char>>(
                Some((builder.driving_sql)(capped, shards, types, Some(rows))),
            )
            &&& scan.common.join matches Some(join) && join.post_join_limit is None
            &&& capped.common.join matches Some(join) && join.post_join_limit == Some(rows)
            &&& scan.common.limit is None
            &&& capped.common.limit is None
        }),
{
    let dimension_storage = (builder.storage)(sides.dimension.effective_storage)->Ok_0;
    let fact_storage = (builder.storage)(sides.fact.effective_storage)->Ok_0;
    let scan = broadcast_scan(
        sides,
        rendered,
        None,
        dimension_storage,
        fact_storage,
        builder,
        services,
    );
    assert(broadcast_scan(
        sides,
        rendered,
        Some(rows),
        dimension_storage,
        fact_storage,
        builder,
        services,
    ) =~= with_join_cap(scan, rows));
}

/// Whether a driving query that is cut is the one that is not, with a `LIMIT` behind it.
pub open spec fn cuts_by_limit(builder: ScanBuilderV, rows: u64) -> bool {
    forall|scan: ScanSpecV, shards: Seq<Seq<FileEntryV>>, types: Seq<Seq<char>>|
        #[trigger] (builder.driving_sql)(scan, shards, types, Some(rows)) == (builder.driving_sql)(
            scan,
            shards,
            types,
            None,
        ) + limit_offset(Some(rows), 0)
}

/// Where driving queries are cut by a `LIMIT` behind them, a limit without a sort order changes the
/// query of a broadcast join in two places: the cap on joined rows that the shards are told, and
/// the `LIMIT` behind its text.
pub proof fn lemma_bare_limit_is_written_last(
    sides: JoinSides,
    rendered: RenderedJoinPushdownV,
    rows: u64,
    builder: ScanBuilderV,
    services: BroadcastServicesV,
)
    requires
        broadcast_sql(
            sides,
            rendered,
            JoinWindowPlanV::Unbounded,
            builder,
            services,
        ) matches Ok(Some(_)),
        cuts_by_limit(builder, rows),
    ensures
        ({
            let scan = broadcast_scan(
                sides,
                rendered,
                None,
                (builder.storage)(sides.dimension.effective_storage)->Ok_0,
                (builder.storage)(sides.fact.effective_storage)->Ok_0,
                builder,
                services,
            );
            let shards = (builder.shards)(sides.fact);
            let types = rendered.projection_types;
            &&& broadcast_sql(sides, rendered, JoinWindowPlanV::Unbounded, builder, services) == Ok::<
                Option<Seq<char>>,
                Seq<char>,
            >(Some((builder.driving_sql)(scan, shards, types, None)))
            &&& broadcast_sql(sides, rendered, JoinWindowPlanV::BareLimit(rows), builder, services)
                == Ok::<Option<Seq<char>>, Seq<char>>(
                Some(
                    (builder.driving_sql)(with_join_cap(scan, rows), shards, types, None)
                        + (" LIMIT "@ + decimal(rows as nat)),
                ),
            )
        }),
{
    lemma_bare_limit_caps_the_joined_rows(sides, rendered, rows, builder, services);
}

/// An aggregation is never served by a broadcast.
pub proof fn lemma_aggregation_is_left_to_the_engine(pushdown_req: JsonV)
    requires
        aggregates(pushdown_req),
    ensures
        join_window(pushdown_req) == JoinWindowPlanV::ExasolPostProcessed,
{
}

/// A query with sort keys is never the bare scan: it renders an `ORDER BY`.
pub proof fn lemma_sort_keys_are_rendered(
    fan_out: Seq<char>,
    visible: Seq<Seq<char>>,
    keys: Seq<ParsedSortKeyV>,
    limit: Option<u64>,
    offset: u64,
)
    requires
        keys.len() > 0,
    ensures
        ordered_wrapper(fan_out, visible, keys, limit, offset) != fan_out,
{
    reveal_strlit("SELECT ");
    assert(ordered_wrapper(fan_out, visible, keys, limit, offset).len() > fan_out.len());
}

/// An offset of zero writes nothing, and an offset without a limit writes nothing.
pub proof fn lemma_window_text(rows: u64, offset: u64)
    ensures
        limit_offset(Some(rows), 0) == " LIMIT "@ + crate::text::decimal(rows as nat),
        limit_offset(None, offset) == Seq::<char>::empty(),
{
}

/// What the shards of a grouped aggregation are told does not depend on the limit, the offset, the
/// `HAVING` or the sort order, and holds no limit.
pub proof fn lemma_grouped_shards_ignore_the_window(a: GroupedScanV, b: GroupedScanV)
    requires
        a.template == b.template,
        a.group_keys == b.group_keys,
        a.aggregates == b.aggregates,
        a.aggregate_types == b.aggregate_types,
        a.col_types == b.col_types,
    ensures
        a.scan() == b.scan(),
        a.emits() == b.emits(),
        a.scan().common.limit is None,
{
}

} // verus!
