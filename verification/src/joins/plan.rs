//! Planning a join from the request to the response.
//!
//! A caller resolves each table that [`side_requests`] lists against its catalog and hands the
//! resolved sides to [`plan_resolved_join`].

use crate::error::{outcome, UserError};
use crate::handed::{callable, callable_with, computes};
use crate::joins::attribution::JoinLegsV;
use crate::joins::broadcast_join::{broadcast_rendering, broadcast_sql, build_broadcast_join_sql,
    render_broadcast_join, BroadcastServices, BroadcastServicesV, Projected, ProjectedV};
use crate::joins::dialects::{JoinServices, JoinServicesV};
use crate::joins::fallback::{pushdown_response, respond_with};
use crate::joins::planning::{broadcast_roles, classify_join_window, involved_table_columns,
    join_window, select_broadcast_sides, table_columns, DetectedJoin, DetectedJoinV,
    IneligibleJoinReason, JoinLeafV, JoinSides, JoinWindowPlan, JoinWindowPlanV,
    ResolvedJoinSide};
use crate::joins::rendering::{has_no_explicit_select_list, leg_local_filter, leg_part,
    possible_column_names, possible_side_column_names, selects_whole_row};
use crate::joins::sql_builders::{build_n_scan_join_sql, n_scan_join};
use crate::json::{group_json_views, Json, JsonV};
use crate::scan::{names_of, ColumnType, ColumnTypeV, FileEntry, ProjectionItem, RefusedColumn,
    ScanSpec, ScanStorage, StorageBackend};
use crate::text::{quote_ident, quoted};
use vstd::prelude::*;

verus! {

broadcast use group_json_views;

/// A function name behind its schema, if there is one.
pub open spec fn qualified_udf(scan_schema: Option<Seq<char>>, udf: Seq<char>) -> Seq<char> {
    match scan_schema {
        Some(schema) if schema.len() > 0 => quoted(schema) + "."@ + udf,
        _ => udf,
    }
}

/// Qualifies a function name by its schema. The query runs outside that schema, where a bare name
/// would not resolve.
pub fn qualify_udf(scan_schema: Option<&str>, udf: &str) -> (name: String)
    ensures
        name@ == qualified_udf(scan_schema.deep_view(), udf@),
{
    match scan_schema {
        Some(schema) => if schema.unicode_len() > 0 {
            let mut name = quote_ident(schema);
            name.append(".");
            name.append(udf);
            name
        } else {
            udf.to_string()
        },
        None => udf.to_string(),
    }
}

/// The message for a join that cannot be served.
pub open spec fn ineligible_text(reason: IneligibleJoinReason) -> Seq<char> {
    let detail = match reason {
        IneligibleJoinReason::NotInnerJoinType => "the join is not an inner join"@,
        IneligibleJoinReason::UnsupportedShape => "the join `from` clause has an unsupported shape"@,
    };
    "join pushdown declined: "@ + detail
        + "; the adapter cannot render this join shape, so this is a hard error, not a native re-plan"@
}

/// Declines a join that cannot be served. Scanning its first table alone would drop the join.
pub fn ineligible_join_decline(reason: IneligibleJoinReason) -> (error: UserError)
    ensures
        error@ == ineligible_text(reason),
{
    let mut message = "join pushdown declined: ".to_string();
    match reason {
        IneligibleJoinReason::NotInnerJoinType => message.append("the join is not an inner join"),
        IneligibleJoinReason::UnsupportedShape => message.append(
            "the join `from` clause has an unsupported shape",
        ),
    }
    message.append(
        "; the adapter cannot render this join shape, so this is a hard error, not a native re-plan",
    );
    UserError { message }
}

/// What a table is resolved with: the conjuncts of the filter that are its own prune its files.
#[derive(Debug, PartialEq)]
pub struct SideRequest {
    pub table_name: String,
    pub table_identifier: String,
    pub filter: Option<Json>,
    pub columns: Vec<ColumnType>,
}

/// The value of a [`SideRequest`].
#[verifier::ext_equal]
pub struct SideRequestV {
    pub table_name: Seq<char>,
    pub table_identifier: Seq<char>,
    pub filter: Option<JsonV>,
    pub columns: Seq<ColumnTypeV>,
}

impl DeepView for SideRequest {
    type V = SideRequestV;

    open spec fn deep_view(&self) -> SideRequestV {
        SideRequestV {
            table_name: self.table_name@,
            table_identifier: self.table_identifier@,
            filter: self.filter.deep_view(),
            columns: self.columns.deep_view(),
        }
    }
}

/// What each table of a join is resolved with.
pub open spec fn resolutions(
    request: JsonV,
    pushdown_req: JsonV,
    join: DetectedJoinV,
    exasol_type: spec_fn(JsonV) -> Seq<char>,
) -> Seq<SideRequestV> {
    Seq::new(
        join.tables.len(),
        |i: int|
            SideRequestV {
                table_name: join.tables[i].table_name,
                table_identifier: join.tables[i].table_identifier,
                filter: match pushdown_req.present_field("filter"@) {
                    Some(filter) => leg_part(
                        filter,
                        JoinLegsV::of_leaves(join.tables),
                        i as usize,
                    ),
                    None => None,
                },
                columns: table_columns(request, join.tables[i].table_name, exasol_type),
            },
    )
}

/// Lists what each table of a join is resolved with, in the order of its legs. The conjuncts are
/// not screened: even one that no scan can apply may prune files.
pub fn side_requests<T: Fn(&Json) -> String>(
    request: &Json,
    pushdown_req: &Json,
    join: &DetectedJoin,
    exasol_type: &T,
) -> (requests: Vec<SideRequest>)
    requires
        callable(*exasol_type),
    ensures
        forall|t: spec_fn(JsonV) -> Seq<char>| #[trigger]
            computes(*exasol_type, t) ==> requests.deep_view() == resolutions(
                request@,
                pushdown_req@,
                join.deep_view(),
                t,
            ),
{
    let legs = join.legs();
    let where_filter = pushdown_req.get_present("filter");
    let mut requests: Vec<SideRequest> = Vec::new();
    let mut i: usize = 0;
    while i < join.tables.len()
        invariant
            0 <= i <= join.tables.len(),
            callable(*exasol_type),
            legs@ == JoinLegsV::of_leaves(join.tables.deep_view()),
            where_filter.deep_view() == pushdown_req@.present_field("filter"@),
            forall|t: spec_fn(JsonV) -> Seq<char>| #[trigger]
                computes(*exasol_type, t) ==> requests.deep_view() =~= resolutions(
                    request@,
                    pushdown_req@,
                    join.deep_view(),
                    t,
                ).take(i as int),
        decreases join.tables.len() - i,
    {
        let ghost before = requests.deep_view();
        let filter = match where_filter {
            Some(tree) => leg_local_filter(tree, &legs, i),
            None => None,
        };
        let columns = involved_table_columns(
            request,
            join.tables[i].table_name.as_str(),
            exasol_type,
        );
        let side = SideRequest {
            table_name: join.tables[i].table_name.clone(),
            table_identifier: join.tables[i].table_identifier.clone(),
            filter,
            columns,
        };
        requests.push(side);
        assert(requests.deep_view() =~= before.push(side.deep_view()));
        assert(join.tables.deep_view()[i as int] == join.tables@[i as int].deep_view());
        i += 1;
    }
    assert forall|t: spec_fn(JsonV) -> Seq<char>| #[trigger] computes(
        *exasol_type,
        t,
    ) implies requests.deep_view() == resolutions(
        request@,
        pushdown_req@,
        join.deep_view(),
        t,
    ) by {
        assert(requests.deep_view() =~= resolutions(
            request@,
            pushdown_req@,
            join.deep_view(),
            t,
        ));
    }
    requests
}

/// Refuses columns: the message when one of the names is refused.
pub type Refusal = spec_fn(Seq<Seq<char>>, Seq<RefusedColumn>) -> Option<Seq<char>>;

/// What a refusal says: nothing, or the message of the error.
pub open spec fn refusal_message(result: Result<(), UserError>) -> Option<Seq<char>> {
    match result {
        Ok(()) => None,
        Err(error) => Some(error@),
    }
}

/// Whatever `f` says of names and refused columns is what `g` says of them.
pub open spec fn refuses<K: Fn(&Vec<String>, &Vec<RefusedColumn>) -> Result<(), UserError>>(
    f: K,
    g: Refusal,
) -> bool {
    forall|names: &Vec<String>, refused: &Vec<RefusedColumn>, r: Result<(), UserError>| #[trigger]
        f.ensures((names, refused), r) ==> refusal_message(r) == g(names.deep_view(), refused@)
}

/// The names that a request may read from a side: those of the columns that are tagged with its
/// table or with none, and the whole declared row when the request selects whole rows.
pub open spec fn touched_names(
    request: JsonV,
    pushdown_req: JsonV,
    table: Seq<char>,
    exasol_type: spec_fn(JsonV) -> Seq<char>,
) -> Seq<Seq<char>> {
    let named = possible_column_names(request, table);
    if selects_whole_row(pushdown_req) {
        named + names_of(table_columns(request, table, exasol_type))
    } else {
        named
    }
}

/// The refusal of the first of the sides that refuses a name it is charged with.
pub open spec fn first_refusal(
    request: JsonV,
    pushdown_req: JsonV,
    sides: Seq<ResolvedJoinSide>,
    exasol_type: spec_fn(JsonV) -> Seq<char>,
    refusal: Refusal,
) -> Option<Seq<char>>
    decreases sides.len(),
{
    if sides.len() == 0 {
        None
    } else {
        match first_refusal(request, pushdown_req, sides.drop_last(), exasol_type, refusal) {
            Some(message) => Some(message),
            None => refusal(
                touched_names(request, pushdown_req, sides.last().table_name@, exasol_type),
                sides.last().refused_columns@,
            ),
        }
    }
}

/// Whether no side refuses any column.
pub open spec fn refuse_nothing(sides: Seq<ResolvedJoinSide>) -> bool {
    forall|i: int| 0 <= i < sides.len() ==> (#[trigger] sides[i]).refused_columns@.len() == 0
}

/// The refusal of a request by one of its sides.
pub open spec fn side_refusal(
    request: JsonV,
    pushdown_req: JsonV,
    sides: Seq<ResolvedJoinSide>,
    exasol_type: spec_fn(JsonV) -> Seq<char>,
    refusal: Refusal,
) -> Option<Seq<char>> {
    if refuse_nothing(sides) {
        None
    } else {
        first_refusal(request, pushdown_req, sides, exasol_type, refusal)
    }
}

proof fn lemma_first_refusal(
    request: JsonV,
    pushdown_req: JsonV,
    sides: Seq<ResolvedJoinSide>,
    exasol_type: spec_fn(JsonV) -> Seq<char>,
    refusal: Refusal,
    n: int,
)
    requires
        0 <= n <= sides.len(),
        first_refusal(request, pushdown_req, sides.take(n), exasol_type, refusal) is Some,
    ensures
        first_refusal(request, pushdown_req, sides, exasol_type, refusal) == first_refusal(
            request,
            pushdown_req,
            sides.take(n),
            exasol_type,
            refusal,
        ),
    decreases sides.len() - n,
{
    if n == sides.len() {
        assert(sides.take(n) =~= sides);
    } else {
        assert(sides.take(n + 1).drop_last() =~= sides.take(n));
        lemma_first_refusal(request, pushdown_req, sides, exasol_type, refusal, n + 1);
    }
}

fn no_side_refuses(sides: &Vec<ResolvedJoinSide>) -> (none: bool)
    ensures
        none == refuse_nothing(sides@),
{
    let mut i: usize = 0;
    while i < sides.len()
        invariant
            0 <= i <= sides.len(),
            forall|j: int| 0 <= j < i ==> (#[trigger] sides@[j]).refused_columns@.len() == 0,
        decreases sides.len() - i,
    {
        if sides[i].refused_columns.len() > 0 {
            assert(sides@[i as int].refused_columns@.len() > 0);
            return false;
        }
        i += 1;
    }
    true
}

fn append_names(names: &mut Vec<String>, columns: Vec<ColumnType>)
    ensures
        final(names).deep_view() == old(names).deep_view() + names_of(columns.deep_view()),
{
    let ghost start = names.deep_view();
    let ghost model = names_of(columns.deep_view());
    let mut i: usize = 0;
    assert(start + model.take(0) =~= start);
    while i < columns.len()
        invariant
            0 <= i <= columns.len(),
            model == names_of(columns.deep_view()),
            names.deep_view() == start + model.take(i as int),
        decreases columns.len() - i,
    {
        let ghost before = names.deep_view();
        let name = columns[i].0.clone();
        names.push(name);
        assert(names.deep_view() =~= before.push(name@));
        assert(start + model.take(i + 1) =~= before.push(model[i as int]));
        i += 1;
    }
    assert(model.take(i as int) =~= model);
}

/// Refuses a request that reads a column which its side cannot map. Each side is charged by its
/// own: a name that one side refuses must not refuse a request which reads only the other side's
/// column of that name.
pub fn ensure_no_side_refuses_a_referenced_column<
    T: Fn(&Json) -> String,
    K: Fn(&Vec<String>, &Vec<RefusedColumn>) -> Result<(), UserError>,
>(
    request: &Json,
    pushdown_req: &Json,
    sides: &Vec<ResolvedJoinSide>,
    exasol_type: &T,
    refuse: &K,
) -> (admitted: Result<(), UserError>)
    requires
        callable(*exasol_type),
        callable_with(*refuse),
    ensures
        forall|t: spec_fn(JsonV) -> Seq<char>, k: Refusal|
            #![trigger computes(*exasol_type, t), refuses(*refuse, k)]
            computes(*exasol_type, t) && refuses(*refuse, k) ==> refusal_message(admitted)
                == side_refusal(request@, pushdown_req@, sides@, t, k),
{
    if no_side_refuses(sides) {
        return Ok(());
    }
    let emits_unnamed_row = has_no_explicit_select_list(pushdown_req);
    let mut i: usize = 0;
    while i < sides.len()
        invariant
            0 <= i <= sides.len(),
            !refuse_nothing(sides@),
            callable(*exasol_type),
            callable_with(*refuse),
            emits_unnamed_row == selects_whole_row(pushdown_req@),
            forall|t: spec_fn(JsonV) -> Seq<char>, k: Refusal|
                #![trigger computes(*exasol_type, t), refuses(*refuse, k)]
                computes(*exasol_type, t) && refuses(*refuse, k) ==> first_refusal(
                    request@,
                    pushdown_req@,
                    sides@.take(i as int),
                    t,
                    k,
                ) is None,
        decreases sides.len() - i,
    {
        assert(sides@.take(i + 1).drop_last() =~= sides@.take(i as int));
        let mut touched = possible_side_column_names(request, sides[i].table_name.as_str());
        if emits_unnamed_row {
            append_names(
                &mut touched,
                involved_table_columns(request, sides[i].table_name.as_str(), exasol_type),
            );
        }
        match refuse(&touched, &sides[i].refused_columns) {
            Ok(()) => {},
            Err(error) => {
                proof {
                    assert forall|t: spec_fn(JsonV) -> Seq<char>, k: Refusal|
                        #![trigger computes(*exasol_type, t), refuses(*refuse, k)]
                        computes(*exasol_type, t) && refuses(*refuse, k) implies first_refusal(
                        request@,
                        pushdown_req@,
                        sides@,
                        t,
                        k,
                    ) == Some(error@) by {
                        lemma_first_refusal(request@, pushdown_req@, sides@, t, k, i + 1);
                    }
                }
                return Err(error);
            },
        }
        i += 1;
    }
    assert(sides@.take(i as int) =~= sides@);
    Ok(())
}

/// The columns of all tables of a join, left to right.
pub open spec fn all_leaf_columns(
    request: JsonV,
    leaves: Seq<JoinLeafV>,
    exasol_type: spec_fn(JsonV) -> Seq<char>,
) -> Seq<ColumnTypeV>
    decreases leaves.len(),
{
    if leaves.len() == 0 {
        Seq::empty()
    } else {
        all_leaf_columns(request, leaves.drop_last(), exasol_type) + table_columns(
            request,
            leaves.last().table_name,
            exasol_type,
        )
    }
}

fn collect_all_leaf_columns<T: Fn(&Json) -> String>(
    request: &Json,
    join: &DetectedJoin,
    exasol_type: &T,
) -> (columns: Vec<ColumnType>)
    requires
        callable(*exasol_type),
    ensures
        forall|t: spec_fn(JsonV) -> Seq<char>| #[trigger]
            computes(*exasol_type, t) ==> columns.deep_view() == all_leaf_columns(
                request@,
                join.tables.deep_view(),
                t,
            ),
{
    let ghost leaves = join.tables.deep_view();
    let mut columns: Vec<ColumnType> = Vec::new();
    let mut i: usize = 0;
    assert(columns.deep_view() =~= Seq::empty());
    while i < join.tables.len()
        invariant
            0 <= i <= join.tables.len(),
            leaves == join.tables.deep_view(),
            callable(*exasol_type),
            forall|t: spec_fn(JsonV) -> Seq<char>| #[trigger]
                computes(*exasol_type, t) ==> columns.deep_view() == all_leaf_columns(
                    request@,
                    leaves.take(i as int),
                    t,
                ),
        decreases join.tables.len() - i,
    {
        assert(leaves.take(i + 1).drop_last() =~= leaves.take(i as int));
        let ghost before = columns.deep_view();
        let mut own = involved_table_columns(
            request,
            join.tables[i].table_name.as_str(),
            exasol_type,
        );
        let ghost added = own.deep_view();
        columns.append(&mut own);
        assert(columns.deep_view() =~= before + added);
        i += 1;
    }
    assert(leaves.take(i as int) =~= leaves);
    columns
}

/// Whether some side has no files.
pub open spec fn some_side_empty(sides: Seq<ResolvedJoinSide>) -> bool {
    exists|i: int| 0 <= i < sides.len() && (#[trigger] sides[i]).files@.len() == 0
}

fn any_side_empty(sides: &Vec<ResolvedJoinSide>) -> (yes: bool)
    ensures
        yes == some_side_empty(sides@),
{
    let mut i: usize = 0;
    while i < sides.len()
        invariant
            0 <= i <= sides.len(),
            forall|j: int| 0 <= j < i ==> (#[trigger] sides@[j]).files@.len() > 0,
        decreases sides.len() - i,
    {
        if sides[i].files.len() == 0 {
            assert(sides@[i as int].files@.len() == 0);
            return true;
        }
        i += 1;
    }
    false
}

/// The response of a request without rows, for what it projects out of the given columns.
pub type EmptyResult = spec_fn(JsonV, ProjectedV, Seq<ColumnTypeV>) -> Result<JsonV, Seq<char>>;

/// `f` can be called for every request.
pub open spec fn can_answer_empty<
    Z: Fn(&Json, &Projected, &Vec<ColumnType>) -> Result<Json, UserError>,
>(f: Z) -> bool {
    forall|request: &Json, projected: &Projected, columns: &Vec<ColumnType>| #[trigger]
        f.requires((request, projected, columns))
}

/// Whatever `f` answers is what `g` says.
pub open spec fn answers_empty<
    Z: Fn(&Json, &Projected, &Vec<ColumnType>) -> Result<Json, UserError>,
>(f: Z, g: EmptyResult) -> bool {
    forall|
        request: &Json,
        projected: &Projected,
        columns: &Vec<ColumnType>,
        r: Result<Json, UserError>,
    | #[trigger]
        f.ensures((request, projected, columns), r) ==> outcome(r) == g(
            request@,
            projected.deep_view(),
            columns.deep_view(),
        )
}

/// The response for a join with an empty side: an inner join is empty with it.
pub open spec fn empty_join(
    request: JsonV,
    pushdown_req: JsonV,
    join: DetectedJoinV,
    services: JoinServicesV,
    broadcast: BroadcastServicesV,
    empty_result: EmptyResult,
) -> Result<JsonV, Seq<char>> {
    let columns = all_leaf_columns(request, join.tables, services.exasol_type);
    match (broadcast.project)(pushdown_req, columns) {
        Ok(projected) => empty_result(pushdown_req, projected, columns),
        Err(message) => Err(message),
    }
}

/// Whether a join may be broadcast at all: two tables, joined by an equality, with a window that
/// is not left to the reading engine.
pub open spec fn may_broadcast(pushdown_req: JsonV, join: DetectedJoinV) -> bool {
    join.tables.len() == 2 && join.conditions[0].is_kind("predicate_equal"@) && join_window(
        pushdown_req,
    ) !is ExasolPostProcessed
}

/// The query of the broadcast, where there is one: the smaller side has to fit the threshold and
/// the parts of the join have to render over bare names.
pub open spec fn broadcast_plan(
    request: JsonV,
    pushdown_req: JsonV,
    join: DetectedJoinV,
    sides: Seq<ResolvedJoinSide>,
    join_broadcast_max_bytes: u64,
    services: JoinServicesV,
    broadcast: BroadcastServicesV,
) -> Result<Option<Seq<char>>, Seq<char>> {
    let roles = broadcast_roles(sides[0], sides[1], join_broadcast_max_bytes);
    if !may_broadcast(pushdown_req, join) || !roles.broadcast_eligible {
        Ok(None)
    } else {
        match broadcast_rendering(request, pushdown_req, join, services.exasol_type, broadcast) {
            Ok(Some(rendered)) => broadcast_sql(
                roles,
                rendered,
                join_window(pushdown_req),
                services.builder,
                broadcast,
            ),
            Ok(None) => Ok(None),
            Err(message) => Err(message),
        }
    }
}

/// The response to a join whose sides are resolved.
pub open spec fn join_response(
    request: Json,
    pushdown_req: Json,
    join: DetectedJoin,
    sides: Vec<ResolvedJoinSide>,
    join_broadcast_max_bytes: u64,
    services: JoinServicesV,
    broadcast: BroadcastServicesV,
    refusal: Refusal,
    empty_result: EmptyResult,
) -> Result<JsonV, Seq<char>> {
    match side_refusal(
        request@,
        pushdown_req@,
        sides@,
        services.exasol_type,
        refusal,
    ) {
        Some(message) => Err(message),
        None => if some_side_empty(sides@) {
            empty_join(
                request@,
                pushdown_req@,
                join.deep_view(),
                services,
                broadcast,
                empty_result,
            )
        } else {
            match broadcast_plan(
                request@,
                pushdown_req@,
                join.deep_view(),
                sides@,
                join_broadcast_max_bytes,
                services,
                broadcast,
            ) {
                Err(message) => Err(message),
                Ok(Some(sql)) => Ok(pushdown_response(sql)),
                Ok(None) => match n_scan_join(request, pushdown_req, join, sides, services).sql() {
                    Ok(sql) => Ok(pushdown_response(sql)),
                    Err(message) => Err(message),
                },
            }
        },
    }
}

/// A window with a sort order has a sort key.
pub proof fn lemma_ordered_window_has_keys(pushdown_req: JsonV)
    ensures
        join_window(pushdown_req) matches JoinWindowPlanV::Ordered { keys, .. } ==> keys.len() > 0,
{
}

/// Writes the query of the broadcast, where there is one.
fn try_broadcast<
    T: Fn(&Json) -> String,
    E: Fn(&Json) -> Option<String>,
    F: Fn(&Json) -> Option<String>,
    P: Fn(&Json) -> bool,
    W: Fn(&Json, &Vec<ColumnType>) -> Option<Json>,
    L: Fn(&Json) -> Option<String>,
    S: Fn(&ResolvedJoinSide) -> Vec<Vec<FileEntry>>,
    G: Fn(&StorageBackend) -> Result<ScanStorage, UserError>,
    D: Fn(&ScanSpec, &Vec<Vec<FileEntry>>, &Vec<String>, Option<u64>) -> String,
    X: Fn(&Json) -> Option<String>,
    C: Fn(&Option<Json>, &Vec<ColumnType>) -> (Option<String>, Option<Json>),
    J: Fn(&Json, &Vec<ColumnType>) -> Result<Projected, UserError>,
    R: Fn(&ResolvedJoinSide) -> Vec<FileEntry>,
    N: Fn(&Vec<ProjectionItem>) -> Vec<String>,
>(
    request: &Json,
    pushdown_req: &Json,
    join: &DetectedJoin,
    roles: &JoinSides,
    window: JoinWindowPlan,
    services: &JoinServices<T, E, F, P, W, L, S, G, D>,
    broadcast: &BroadcastServices<X, C, J, R, N>,
) -> (sql: Result<Option<String>, UserError>)
    requires
        services.ready(),
        broadcast.ready(),
        join.tables@.len() == 2,
        join.conditions@.len() >= 1,
        window.deep_view() == join_window(pushdown_req@),
    ensures
        forall|m: JoinServicesV, b: BroadcastServicesV|
            #![trigger services.provides(m), broadcast.provides(b)]
            services.provides(m) && broadcast.provides(b) ==> outcome(sql) == if roles.broadcast_eligible {
                match broadcast_rendering(
                    request@,
                    pushdown_req@,
                    join.deep_view(),
                    m.exasol_type,
                    b,
                ) {
                    Ok(Some(rendered)) => broadcast_sql(
                        *roles,
                        rendered,
                        join_window(pushdown_req@),
                        m.builder,
                        b,
                    ),
                    Ok(None) => Ok(None),
                    Err(message) => Err(message),
                }
            } else {
                Ok(None)
            },
{
    if !roles.broadcast_eligible {
        return Ok(None);
    }
    proof {
        lemma_ordered_window_has_keys(pushdown_req@);
    }
    match render_broadcast_join(
        request,
        pushdown_req,
        join,
        &services.exasol_type,
        broadcast,
    ) {
        Ok(Some(rendered)) => build_broadcast_join_sql(
            roles,
            &rendered,
            window,
            &services.builder,
            broadcast,
        ),
        Ok(None) => Ok(None),
        Err(error) => Err(error),
    }
}

/// Plans a join whose sides are resolved, one for each table and in their order.
///
/// A refused column refuses the request, and an empty side empties the join. The broadcast is an
/// optimization: whatever it cannot serve is served by scans that the reading engine joins.
pub fn plan_resolved_join<
    T: Fn(&Json) -> String,
    E: Fn(&Json) -> Option<String>,
    F: Fn(&Json) -> Option<String>,
    P: Fn(&Json) -> bool,
    W: Fn(&Json, &Vec<ColumnType>) -> Option<Json>,
    L: Fn(&Json) -> Option<String>,
    S: Fn(&ResolvedJoinSide) -> Vec<Vec<FileEntry>>,
    G: Fn(&StorageBackend) -> Result<ScanStorage, UserError>,
    D: Fn(&ScanSpec, &Vec<Vec<FileEntry>>, &Vec<String>, Option<u64>) -> String,
    X: Fn(&Json) -> Option<String>,
    C: Fn(&Option<Json>, &Vec<ColumnType>) -> (Option<String>, Option<Json>),
    J: Fn(&Json, &Vec<ColumnType>) -> Result<Projected, UserError>,
    R: Fn(&ResolvedJoinSide) -> Vec<FileEntry>,
    N: Fn(&Vec<ProjectionItem>) -> Vec<String>,
    K: Fn(&Vec<String>, &Vec<RefusedColumn>) -> Result<(), UserError>,
    Z: Fn(&Json, &Projected, &Vec<ColumnType>) -> Result<Json, UserError>,
>(
    request: &Json,
    pushdown_req: &Json,
    join: &DetectedJoin,
    sides: Vec<ResolvedJoinSide>,
    join_broadcast_max_bytes: u64,
    services: &JoinServices<T, E, F, P, W, L, S, G, D>,
    broadcast: &BroadcastServices<X, C, J, R, N>,
    refuse: &K,
    empty_result: &Z,
) -> (response: Result<Json, UserError>)
    requires
        services.ready(),
        broadcast.ready(),
        callable_with(*refuse),
        can_answer_empty(*empty_result),
        join.tables@.len() >= 1,
        join.conditions@.len() >= 1,
        sides@.len() == join.tables@.len(),
    ensures
        forall|m: JoinServicesV, b: BroadcastServicesV, k: Refusal, z: EmptyResult|
            #![trigger services.provides(m), broadcast.provides(b), refuses(*refuse, k), answers_empty(*empty_result, z)]
            services.provides(m) && broadcast.provides(b) && refuses(*refuse, k) && answers_empty(
                *empty_result,
                z,
            ) ==> outcome(response) == join_response(
                *request,
                *pushdown_req,
                *join,
                sides,
                join_broadcast_max_bytes,
                m,
                b,
                k,
                z,
            ),
{
    match ensure_no_side_refuses_a_referenced_column(
        request,
        pushdown_req,
        &sides,
        &services.exasol_type,
        refuse,
    ) {
        Ok(()) => {},
        Err(error) => {
            return Err(error);
        },
    }
    if any_side_empty(&sides) {
        let columns = collect_all_leaf_columns(request, join, &services.exasol_type);
        return match (broadcast.project)(pushdown_req, &columns) {
            Ok(projected) => empty_result(pushdown_req, &projected, &columns),
            Err(error) => Err(error),
        };
    }
    let window = classify_join_window(pushdown_req);
    let left_to_engine = match &window {
        JoinWindowPlan::ExasolPostProcessed => true,
        _ => false,
    };
    let ghost given = sides@;
    let mut sides = sides;
    if join.tables.len() == 2 && join.conditions[0].is_kind("predicate_equal")
        && !left_to_engine {
        assert(may_broadcast(pushdown_req@, join.deep_view())) by {
            assert(join.conditions.deep_view()[0] == join.conditions@[0]@);
        }
        if let (Some(b), Some(a)) = (sides.pop(), sides.pop()) {
            assert(a == given[0] && b == given[1]);
            let a_is_dimension = a.total_bytes <= b.total_bytes;
            let roles = select_broadcast_sides(a, b, join_broadcast_max_bytes);
            match try_broadcast(
                request,
                pushdown_req,
                join,
                &roles,
                window,
                services,
                broadcast,
            ) {
                Ok(Some(sql)) => {
                    return Ok(respond_with(sql));
                },
                Ok(None) => {},
                Err(error) => {
                    return Err(error);
                },
            }
            if a_is_dimension {
                sides.push(roles.dimension);
                sides.push(roles.fact);
            } else {
                sides.push(roles.fact);
                sides.push(roles.dimension);
            }
            assert(sides@ =~= given);
        }
    } else {
        assert(!may_broadcast(pushdown_req@, join.deep_view())) by {
            assert(join.tables.deep_view().len() == join.tables@.len());
            assert(join.conditions.deep_view()[0] == join.conditions@[0]@);
        }
    }
    assert(sides@ == given);
    match build_n_scan_join_sql(request, pushdown_req, join, &sides, services) {
        Ok(sql) => Ok(respond_with(sql)),
        Err(error) => Err(error),
    }
}

} // verus!
