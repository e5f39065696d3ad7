//! What a join is answered with, and in which order the cases are decided.

use crate::joins::broadcast_join::{broadcast_rendering, BroadcastServicesV};
use crate::joins::dialects::JoinServicesV;
use crate::joins::fallback::pushdown_response;
use crate::joins::plan::{broadcast_plan, empty_join, join_response, may_broadcast, side_refusal,
    some_side_empty, EmptyResult, Refusal};
use crate::joins::planning::{broadcast_roles, disjoint_names, table_columns, DetectedJoin,
    DetectedJoinV, ResolvedJoinSide};
use crate::joins::sql_builders::n_scan_join;
use crate::json::{Json, JsonV};
use vstd::prelude::*;

verus! {

/// A table that declares a column is never broadcast to another occurrence of itself.
pub proof fn lemma_self_join_is_not_broadcast(
    request: JsonV,
    pushdown_req: JsonV,
    join: DetectedJoinV,
    sides: Seq<ResolvedJoinSide>,
    max_bytes: u64,
    services: JoinServicesV,
    broadcast: BroadcastServicesV,
)
    requires
        join.tables.len() == 2,
        join.tables[0].table_name == join.tables[1].table_name,
        table_columns(request, join.tables[0].table_name, services.exasol_type).len() > 0,
    ensures
        broadcast_rendering(request, pushdown_req, join, services.exasol_type, broadcast) matches Ok(None),
        broadcast_plan(request, pushdown_req, join, sides, max_bytes, services, broadcast) matches Ok(None),
{
    let columns = table_columns(request, join.tables[0].table_name, services.exasol_type);
    assert(columns[0].0 == columns[0].0);
    assert(!disjoint_names(columns, columns));
}

/// A join is broadcast only between two tables that an equality joins, with a window that the scans
/// can serve, and when the smaller side fits the threshold.
pub proof fn lemma_broadcast_has_its_conditions(
    request: JsonV,
    pushdown_req: JsonV,
    join: DetectedJoinV,
    sides: Seq<ResolvedJoinSide>,
    max_bytes: u64,
    services: JoinServicesV,
    broadcast: BroadcastServicesV,
)
    requires
        broadcast_plan(request, pushdown_req, join, sides, max_bytes, services, broadcast)
            matches Ok(Some(_)),
    ensures
        join.tables.len() == 2,
        may_broadcast(pushdown_req, join),
        sides[0].total_bytes <= max_bytes || sides[1].total_bytes <= max_bytes,
        disjoint_names(
            table_columns(request, join.tables[0].table_name, services.exasol_type),
            table_columns(request, join.tables[1].table_name, services.exasol_type),
        ),
{
    let roles = broadcast_roles(sides[0], sides[1], max_bytes);
    assert(roles.broadcast_eligible);
}

/// A refusal comes before everything else: a refused join is neither answered as empty nor scanned.
pub proof fn lemma_refusal_comes_first(
    request: Json,
    pushdown_req: Json,
    join: DetectedJoin,
    sides: Vec<ResolvedJoinSide>,
    max_bytes: u64,
    services: JoinServicesV,
    broadcast: BroadcastServicesV,
    refusal: Refusal,
    empty_result: EmptyResult,
)
    ensures
        side_refusal(
            request@,
            pushdown_req@,
            sides@,
            services.exasol_type,
            refusal,
        ) matches Some(message) ==> join_response(
            request,
            pushdown_req,
            join,
            sides,
            max_bytes,
            services,
            broadcast,
            refusal,
            empty_result,
        ) == Err::<JsonV, _>(message),
{
}

/// A join that is not refused is answered as empty exactly as soon as one of its sides is empty,
/// whatever the sizes of the other sides and the threshold are.
pub proof fn lemma_empty_side_empties_the_join(
    request: Json,
    pushdown_req: Json,
    join: DetectedJoin,
    sides: Vec<ResolvedJoinSide>,
    max_bytes: u64,
    services: JoinServicesV,
    broadcast: BroadcastServicesV,
    refusal: Refusal,
    empty_result: EmptyResult,
)
    requires
        some_side_empty(sides@),
        side_refusal(request@, pushdown_req@, sides@, services.exasol_type, refusal) is None,
    ensures
        join_response(
            request,
            pushdown_req,
            join,
            sides,
            max_bytes,
            services,
            broadcast,
            refusal,
            empty_result,
        ) == empty_join(
            request@,
            pushdown_req@,
            join.deep_view(),
            services,
            broadcast,
            empty_result,
        ),
{
}

/// A join that is not broadcast is never declined on that account: it is answered by the query
/// that scans each table and joins the scans.
pub proof fn lemma_declined_broadcast_is_scanned(
    request: Json,
    pushdown_req: Json,
    join: DetectedJoin,
    sides: Vec<ResolvedJoinSide>,
    max_bytes: u64,
    services: JoinServicesV,
    broadcast: BroadcastServicesV,
    refusal: Refusal,
    empty_result: EmptyResult,
)
    requires
        side_refusal(request@, pushdown_req@, sides@, services.exasol_type, refusal) is None,
        !some_side_empty(sides@),
        broadcast_plan(
            request@,
            pushdown_req@,
            join.deep_view(),
            sides@,
            max_bytes,
            services,
            broadcast,
        ) matches Ok(None),
    ensures
        join_response(
            request,
            pushdown_req,
            join,
            sides,
            max_bytes,
            services,
            broadcast,
            refusal,
            empty_result,
        ) == match n_scan_join(request, pushdown_req, join, sides, services).sql() {
            Ok(sql) => Ok(pushdown_response(sql)),
            Err(message) => Err(message),
        },
{
}

} // verus!
