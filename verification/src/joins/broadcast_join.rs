//! A join of two tables that every shard of the larger one computes on its own.
//!
//! The larger side, the fact, is sharded. The smaller side, the dimension, is broadcast: its file
//! list goes to every shard, which joins its own rows with all of the dimension.

use crate::error::{outcome, UserError};
use crate::handed::{answers_with, callable, callable_with, computes, computes_with};
use crate::joins::clauses::Renderer;
use crate::joins::dialects::{ScanBuilder, ScanBuilderV};
use crate::joins::planning::{disjoint_names, disjoint_schema_guard, involved_table_columns,
    table_columns, DetectedJoin, DetectedJoinV, JoinSides, JoinWindowPlan, JoinWindowPlanV,
    ResolvedJoinSide};
use crate::joins::rendering::{both_table_columns, join_col_types};
use crate::joins::sql_builders::{join_fan_out_scan_spec, side_scan};
use crate::json::{group_json_views, Json, JsonV};
use crate::ordering::{ordered_wrapper, wrap_declined_order_by, ParsedSortKey, ParsedSortKeyV};
use crate::scan::{copied_projection, ColumnType, ColumnTypeV, FileEntry, FileEntryV, JoinSpec,
    JoinSpecV, JoinType, ProjectionItem, ProjectionItemV, ScanSpec, ScanSpecV, ScanStorage,
    StorageBackend};
use crate::text::same_text;
use crate::tree::{strip_table_alias, without_aliases};
use vstd::prelude::*;

verus! {

broadcast use group_json_views;

/// What a request projects: items, their types in the same order, and whether the projection was
/// widened to the whole row.
#[derive(Debug, PartialEq, Eq)]
pub struct Projected {
    pub items: Vec<ProjectionItem>,
    pub types: Vec<String>,
    pub widened: bool,
}

/// The value of a [`Projected`].
#[verifier::ext_equal]
pub struct ProjectedV {
    pub items: Seq<ProjectionItemV>,
    pub types: Seq<Seq<char>>,
    pub widened: bool,
}

impl DeepView for Projected {
    type V = ProjectedV;

    open spec fn deep_view(&self) -> ProjectedV {
        ProjectedV {
            items: self.items.deep_view(),
            types: self.types.deep_view(),
            widened: self.widened,
        }
    }
}

/// The functions that a broadcast join is handed.
pub struct BroadcastServices<X, C, J, R, N> {
    /// Renders an expression in the scan dialect, or declines it.
    pub expression: X,
    /// Splits a filter into the text that a scan applies and the tree that it cannot.
    pub classify: C,
    /// Projects the given columns as a request asks.
    pub project: J,
    /// The files of a side, their paths relative to its table root.
    pub relative_files: R,
    /// The quoted names under which a scan emits projected items.
    pub visible_names: N,
}

/// A split of a filter for the given columns.
pub type Classifier = spec_fn(Option<JsonV>, Seq<ColumnTypeV>) -> (
    Option<Seq<char>>,
    Option<JsonV>,
);

/// A projection of the given columns.
pub type Projector = spec_fn(JsonV, Seq<ColumnTypeV>) -> Result<ProjectedV, Seq<char>>;

/// The functions of a [`BroadcastServices`].
pub struct BroadcastServicesV {
    pub expression: Renderer,
    pub classify: Classifier,
    pub project: Projector,
    pub relative_files: spec_fn(ResolvedJoinSide) -> Seq<FileEntryV>,
    pub visible_names: spec_fn(Seq<ProjectionItemV>) -> Seq<Seq<char>>,
}

/// Whatever files `f` lists for a side are what `g` says of it.
pub open spec fn lists_files<R: Fn(&ResolvedJoinSide) -> Vec<FileEntry>>(
    f: R,
    g: spec_fn(ResolvedJoinSide) -> Seq<FileEntryV>,
) -> bool {
    forall|side: &ResolvedJoinSide, r: Vec<FileEntry>| #[trigger]
        f.ensures((side,), r) ==> r.deep_view() == g(*side)
}

impl<
    X: Fn(&Json) -> Option<String>,
    C: Fn(&Option<Json>, &Vec<ColumnType>) -> (Option<String>, Option<Json>),
    J: Fn(&Json, &Vec<ColumnType>) -> Result<Projected, UserError>,
    R: Fn(&ResolvedJoinSide) -> Vec<FileEntry>,
    N: Fn(&Vec<ProjectionItem>) -> Vec<String>,
> BroadcastServices<X, C, J, R, N> {
    /// Every function can be called.
    pub open spec fn ready(self) -> bool {
        callable(self.expression) && callable_with(self.classify) && callable_with(self.project)
            && callable(self.relative_files) && callable(self.visible_names)
    }

    /// The functions compute what the model says.
    pub open spec fn provides(self, model: BroadcastServicesV) -> bool {
        computes(self.expression, model.expression) && computes_with(self.classify, model.classify)
            && answers_with(self.project, model.project) && lists_files(
            self.relative_files,
            model.relative_files,
        ) && computes(self.visible_names, model.visible_names)
    }
}

/// The parts of a broadcast join, rendered over bare column names.
#[derive(Debug, Clone, PartialEq, Eq)]
pub struct RenderedJoinPushdown {
    pub condition: String,
    /// Never part of a filter: a filter that cannot be rendered whole forfeits the broadcast.
    pub filter: Option<String>,
    pub projection: Vec<ProjectionItem>,
    /// In the order of `projection`.
    pub projection_types: Vec<String>,
}

/// The value of a [`RenderedJoinPushdown`].
#[verifier::ext_equal]
pub struct RenderedJoinPushdownV {
    pub condition: Seq<char>,
    pub filter: Option<Seq<char>>,
    pub projection: Seq<ProjectionItemV>,
    pub projection_types: Seq<Seq<char>>,
}

impl DeepView for RenderedJoinPushdown {
    type V = RenderedJoinPushdownV;

    open spec fn deep_view(&self) -> RenderedJoinPushdownV {
        RenderedJoinPushdownV {
            condition: self.condition@,
            filter: self.filter.deep_view(),
            projection: self.projection.deep_view(),
            projection_types: self.projection_types.deep_view(),
        }
    }
}

/// Projects the columns of both tables as a request asks.
pub fn extract_join_projection<
    T: Fn(&Json) -> String,
    J: Fn(&Json, &Vec<ColumnType>) -> Result<Projected, UserError>,
>(
    request: &Json,
    pushdown_req: &Json,
    join: &DetectedJoin,
    exasol_type: &T,
    project: &J,
) -> (projected: Result<Projected, UserError>)
    requires
        join.tables@.len() >= 2,
        callable(*exasol_type),
        callable_with(*project),
    ensures
        forall|t: spec_fn(JsonV) -> Seq<char>, p: Projector|
            #![trigger computes(*exasol_type, t), answers_with(*project, p)]
            computes(*exasol_type, t) && answers_with(*project, p) ==> outcome(projected) == p(
                pushdown_req@,
                both_table_columns(request@, join.deep_view(), t),
            ),
{
    project(pushdown_req, &join_col_types(request, join, exasol_type))
}

/// The parts of a broadcast join over bare column names. There are none when the tables share a
/// column name, when the condition or the filter cannot be rendered, or when the projection is
/// widened to the whole row.
pub open spec fn broadcast_rendering(
    request: JsonV,
    pushdown_req: JsonV,
    join: DetectedJoinV,
    exasol_type: spec_fn(JsonV) -> Seq<char>,
    services: BroadcastServicesV,
) -> Result<Option<RenderedJoinPushdownV>, Seq<char>> {
    let left = table_columns(request, join.tables[0].table_name, exasol_type);
    let right = table_columns(request, join.tables[1].table_name, exasol_type);
    let both = both_table_columns(request, join, exasol_type);
    let bare = without_aliases(pushdown_req);
    let split = (services.classify)(bare.present_field("filter"@), both);
    if !disjoint_names(left, right) {
        Ok(None)
    } else {
        match (services.expression)(without_aliases(join.conditions[0])) {
            None => Ok(None),
            Some(condition) => if split.1 is Some {
                Ok(None)
            } else {
                match (services.project)(bare, both) {
                    Err(message) => Err(message),
                    Ok(projected) => if projected.widened {
                        Ok(None)
                    } else {
                        Ok(
                            Some(
                                RenderedJoinPushdownV {
                                    condition,
                                    filter: split.0,
                                    projection: projected.items,
                                    projection_types: projected.types,
                                },
                            ),
                        )
                    },
                }
            },
        }
    }
}

/// Renders the parts of a broadcast join. The tables must not share a column name: only then does
/// a bare name have one type and one meaning, and only then may the aliases be stripped, which the
/// unaliased scans of the two sides need.
pub fn render_broadcast_join<
    T: Fn(&Json) -> String,
    X: Fn(&Json) -> Option<String>,
    C: Fn(&Option<Json>, &Vec<ColumnType>) -> (Option<String>, Option<Json>),
    J: Fn(&Json, &Vec<ColumnType>) -> Result<Projected, UserError>,
    R: Fn(&ResolvedJoinSide) -> Vec<FileEntry>,
    N: Fn(&Vec<ProjectionItem>) -> Vec<String>,
>(
    request: &Json,
    pushdown_req: &Json,
    join: &DetectedJoin,
    exasol_type: &T,
    services: &BroadcastServices<X, C, J, R, N>,
) -> (rendered: Result<Option<RenderedJoinPushdown>, UserError>)
    requires
        join.tables@.len() >= 2,
        join.conditions@.len() >= 1,
        callable(*exasol_type),
        services.ready(),
    ensures
        forall|t: spec_fn(JsonV) -> Seq<char>, m: BroadcastServicesV|
            #![trigger computes(*exasol_type, t), services.provides(m)]
            computes(*exasol_type, t) && services.provides(m) ==> outcome(rendered)
                == broadcast_rendering(request@, pushdown_req@, join.deep_view(), t, m),
{
    let left_cols = involved_table_columns(
        request,
        join.tables[0].table_name.as_str(),
        exasol_type,
    );
    let right_cols = involved_table_columns(
        request,
        join.tables[1].table_name.as_str(),
        exasol_type,
    );
    if !disjoint_schema_guard(&left_cols, &right_cols) {
        return Ok(None);
    }
    let condition = match (services.expression)(&strip_table_alias(&join.conditions[0])) {
        Some(condition) => condition,
        None => {
            return Ok(None);
        },
    };
    let col_types = join_col_types(request, join, exasol_type);
    let bare_pushdown_req = strip_table_alias(pushdown_req);
    let bare_filter = match bare_pushdown_req.get_present("filter") {
        Some(filter) => Some(filter.clone()),
        None => None,
    };
    let (filter, declined) = (services.classify)(&bare_filter, &col_types);
    if declined.is_some() {
        return Ok(None);
    }
    match extract_join_projection(
        request,
        &bare_pushdown_req,
        join,
        exasol_type,
        &services.project,
    ) {
        Ok(projected) => if projected.widened {
            Ok(None)
        } else {
            Ok(
                Some(
                    RenderedJoinPushdown {
                        condition,
                        filter,
                        projection: projected.items,
                        projection_types: projected.types,
                    },
                ),
            )
        },
        Err(error) => Err(error),
    }
}

/// Whether a sort key is a column that the projection holds.
pub open spec fn binds(key: ParsedSortKeyV, projection: Seq<ProjectionItemV>) -> bool {
    match key {
        ParsedSortKeyV::Column(column) => projection.contains(
            ProjectionItemV::Column(column.column),
        ),
        ParsedSortKeyV::Expression { .. } => false,
    }
}

/// Whether every sort key is a column that the projection holds.
pub open spec fn all_bind(keys: Seq<ParsedSortKeyV>, projection: Seq<ProjectionItemV>) -> bool {
    forall|i: int| 0 <= i < keys.len() ==> binds(#[trigger] keys[i], projection)
}

fn binds_to_projection(key: &ParsedSortKey, projection: &Vec<ProjectionItem>) -> (yes: bool)
    ensures
        yes == binds(key.deep_view(), projection.deep_view()),
{
    let column = match key {
        ParsedSortKey::Column(column) => column,
        ParsedSortKey::Expression { .. } => {
            return false;
        },
    };
    let ghost wanted = ProjectionItemV::Column(column.column@);
    let ghost views = projection.deep_view();
    let mut i: usize = 0;
    while i < projection.len()
        invariant
            0 <= i <= projection.len(),
            views == projection.deep_view(),
            wanted == ProjectionItemV::Column(column.column@),
            key.deep_view() == ParsedSortKeyV::Column(column.deep_view()),
            forall|j: int| 0 <= j < i ==> #[trigger] views[j] != wanted,
        decreases projection.len() - i,
    {
        if let ProjectionItem::Column(name) = &projection[i] {
            if same_text(name.as_str(), column.column.as_str()) {
                assert(views[i as int] == wanted);
                return true;
            }
        }
        i += 1;
    }
    false
}

fn all_bind_to_projection(keys: &Vec<ParsedSortKey>, projection: &Vec<ProjectionItem>) -> (yes:
    bool)
    ensures
        yes == all_bind(keys.deep_view(), projection.deep_view()),
{
    let ghost views = keys.deep_view();
    let mut i: usize = 0;
    while i < keys.len()
        invariant
            0 <= i <= keys.len(),
            views == keys.deep_view(),
            forall|j: int|
                0 <= j < i ==> binds(#[trigger] views[j], projection.deep_view()),
        decreases keys.len() - i,
    {
        assert(views[i as int] == keys@[i as int].deep_view());
        if !binds_to_projection(&keys[i], projection) {
            return false;
        }
        i += 1;
    }
    true
}

/// The dimension as the shards of the fact are told of it.
pub open spec fn dimension_spec(
    dimension: ResolvedJoinSide,
    files: Seq<FileEntryV>,
    condition: Seq<char>,
    cap: Option<u64>,
    storage: ScanStorage,
) -> JoinSpecV {
    JoinSpecV {
        table_root: dimension.table_root@,
        files,
        logical_schema: dimension.logical_schema@,
        name_mapping: dimension.name_mapping@,
        join_type: JoinType::Inner,
        condition,
        post_join_limit: cap,
        partition_columns: dimension.partition_columns.deep_view(),
        storage,
    }
}

/// The rows at which each shard may stop: only a limit without a sort order cuts shards.
pub open spec fn shard_cap(window: JoinWindowPlanV) -> Option<u64> {
    match window {
        JoinWindowPlanV::BareLimit(rows) => Some(rows),
        _ => None,
    }
}

/// Whether the broadcast can serve a window: a sort order has to bind to the projection.
pub open spec fn serves_window(
    window: JoinWindowPlanV,
    projection: Seq<ProjectionItemV>,
) -> bool {
    match window {
        JoinWindowPlanV::ExasolPostProcessed => false,
        JoinWindowPlanV::Ordered { keys, .. } => all_bind(keys, projection),
        _ => true,
    }
}

/// The scan that a shard of a broadcast join runs: the fact side, joined to the dimension side, with
/// `cap` as the cap on joined rows.
pub open spec fn broadcast_scan(
    sides: JoinSides,
    rendered: RenderedJoinPushdownV,
    cap: Option<u64>,
    dimension_storage: ScanStorage,
    fact_storage: ScanStorage,
    builder: ScanBuilderV,
    services: BroadcastServicesV,
) -> ScanSpecV {
    let join = dimension_spec(
        sides.dimension,
        (services.relative_files)(sides.dimension),
        rendered.condition,
        cap,
        dimension_storage,
    );
    side_scan(
        sides.fact,
        rendered.projection,
        rendered.filter,
        Some(join),
        fact_storage,
        builder.tuning,
    )
}

/// The query of a broadcast join; none when it cannot serve the window. Each side brings its own
/// storage, and the window is applied to joined rows only.
pub open spec fn broadcast_sql(
    sides: JoinSides,
    rendered: RenderedJoinPushdownV,
    window: JoinWindowPlanV,
    builder: ScanBuilderV,
    services: BroadcastServicesV,
) -> Result<Option<Seq<char>>, Seq<char>> {
    if !serves_window(window, rendered.projection) {
        Ok(None)
    } else {
        match (builder.storage)(sides.dimension.effective_storage) {
            Err(message) => Err(message),
            Ok(dimension_storage) => match (builder.storage)(sides.fact.effective_storage) {
                Err(message) => Err(message),
                Ok(fact_storage) => {
                    let scan = broadcast_scan(
                        sides,
                        rendered,
                        shard_cap(window),
                        dimension_storage,
                        fact_storage,
                        builder,
                        services,
                    );
                    let fan_out = (builder.driving_sql)(
                        scan,
                        (builder.shards)(sides.fact),
                        rendered.projection_types,
                        shard_cap(window),
                    );
                    Ok(
                        Some(
                            match window {
                                JoinWindowPlanV::Ordered { keys, limit, offset } => {
                                    ordered_wrapper(
                                        fan_out,
                                        (services.visible_names)(rendered.projection),
                                        keys,
                                        limit,
                                        offset,
                                    )
                                },
                                _ => fan_out,
                            },
                        ),
                    )
                },
            },
        }
    }
}

fn build_dimension_spec(
    dimension: &ResolvedJoinSide,
    files: Vec<FileEntry>,
    condition: &str,
    cap: Option<u64>,
    storage: ScanStorage,
) -> (spec: JoinSpec)
    ensures
        spec.deep_view() == dimension_spec(*dimension, files.deep_view(), condition@, cap, storage),
{
    let logical_schema = dimension.logical_schema.clone();
    let name_mapping = dimension.name_mapping.clone();
    let partition_columns = dimension.partition_columns.clone();
    assert(logical_schema@ =~= dimension.logical_schema@);
    assert(name_mapping@ =~= dimension.name_mapping@);
    assert(partition_columns.deep_view() =~= dimension.partition_columns.deep_view());
    JoinSpec {
        table_root: dimension.table_root.clone(),
        files,
        logical_schema,
        name_mapping,
        join_type: JoinType::Inner,
        condition: condition.to_string(),
        post_join_limit: cap,
        partition_columns,
        storage,
    }
}

/// Writes the query of a broadcast join. Without one the join falls back to scans that the reading
/// engine joins.
pub fn build_broadcast_join_sql<
    X: Fn(&Json) -> Option<String>,
    C: Fn(&Option<Json>, &Vec<ColumnType>) -> (Option<String>, Option<Json>),
    J: Fn(&Json, &Vec<ColumnType>) -> Result<Projected, UserError>,
    R: Fn(&ResolvedJoinSide) -> Vec<FileEntry>,
    N: Fn(&Vec<ProjectionItem>) -> Vec<String>,
    S: Fn(&ResolvedJoinSide) -> Vec<Vec<FileEntry>>,
    G: Fn(&StorageBackend) -> Result<ScanStorage, UserError>,
    D: Fn(&ScanSpec, &Vec<Vec<FileEntry>>, &Vec<String>, Option<u64>) -> String,
>(
    sides: &JoinSides,
    rendered: &RenderedJoinPushdown,
    window: JoinWindowPlan,
    builder: &ScanBuilder<S, G, D>,
    services: &BroadcastServices<X, C, J, R, N>,
) -> (sql: Result<Option<String>, UserError>)
    requires
        builder.ready(),
        services.ready(),
        window.deep_view() matches JoinWindowPlanV::Ordered { keys, .. } ==> keys.len() > 0,
    ensures
        forall|b: ScanBuilderV, m: BroadcastServicesV|
            #![trigger builder.builds(b), services.provides(m)]
            builder.builds(b) && services.provides(m) ==> outcome(sql) == broadcast_sql(
                *sides,
                rendered.deep_view(),
                window.deep_view(),
                b,
                m,
            ),
{
    let mut cap: Option<u64> = None;
    match &window {
        JoinWindowPlan::Unbounded => {},
        JoinWindowPlan::BareLimit(rows) => {
            cap = Some(*rows);
        },
        JoinWindowPlan::Ordered { keys, .. } => {
            if !all_bind_to_projection(keys, &rendered.projection) {
                return Ok(None);
            }
        },
        JoinWindowPlan::ExasolPostProcessed => {
            return Ok(None);
        },
    }
    let shards = (builder.shards)(&sides.fact);
    let dimension_storage = match (builder.storage)(&sides.dimension.effective_storage) {
        Ok(storage) => storage,
        Err(error) => {
            return Err(error);
        },
    };
    let join = build_dimension_spec(
        &sides.dimension,
        (services.relative_files)(&sides.dimension),
        rendered.condition.as_str(),
        cap,
        dimension_storage,
    );
    let fact_storage = match (builder.storage)(&sides.fact.effective_storage) {
        Ok(storage) => storage,
        Err(error) => {
            return Err(error);
        },
    };
    let filter = match &rendered.filter {
        Some(text) => Some(text.clone()),
        None => None,
    };
    let scan = join_fan_out_scan_spec(
        &sides.fact,
        copied_projection(&rendered.projection),
        filter,
        Some(join),
        fact_storage,
        builder.tuning,
    );
    let fan_out = (builder.driving_sql)(&scan, &shards, &rendered.projection_types, cap);
    match &window {
        JoinWindowPlan::Ordered { keys, limit, offset } => Ok(
            Some(
                wrap_declined_order_by(
                    fan_out.as_str(),
                    &(services.visible_names)(&rendered.projection),
                    keys,
                    *limit,
                    *offset,
                ),
            ),
        ),
        _ => Ok(Some(fan_out)),
    }
}

} // verus!
