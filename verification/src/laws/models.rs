//! A value stands for what it holds, and a handed function for what it computes.

use crate::aggregates::AggregatePlan;
use crate::error::{outcome, UserError};
use crate::grouped_agg::detection::{GroupedAggregateDetection, GroupedSelectItem,
    GroupedSelectItemV};
use crate::grouped_agg::order::{GroupedOrderBy, GroupedOrderByV};
use crate::handed::{answers_with, computes, computes_with};
use crate::joins::broadcast_join::{lists_files, Projected, RenderedJoinPushdown};
use crate::joins::clauses::OuterWrapperClauses;
use crate::joins::dialects::{deals_files, picks_storage, storage_outcome, writes_queries,
    DrivingSql};
use crate::joins::fallback::misaligned_text;
use crate::joins::plan::{refusal_message, refuses, Refusal, SideRequest};
use crate::joins::planning::{DetectedJoin, IneligibleJoinReason, JoinLeaf, JoinShape, JoinShapeV,
    JoinWindowPlan, JoinWindowPlanV, ResolvedJoinSide};
use crate::json::{Json, JsonV, Members};
use crate::ordering::{ParsedSortKey, ParsedSortKeyV, SortKey};
use crate::scan::{CommonScanSpec, FileEntry, FileEntryV, JoinSpec, ProjectionItem, ProjectionItemV,
    RefusedColumn, ScanSpec, ScanStorage, StorageBackend};
use crate::text::decimal;
use vstd::prelude::*;

verus! {

/// A document stands for its own kind of value: an array for its items and an object for its
/// members, each in its place.
pub proof fn lemma_documents(
    n: u64,
    m: i64,
    b: bool,
    text: String,
    items: Vec<Json>,
    members: Members,
    i: int,
)
    ensures
        Json::Null@ == JsonV::Null,
        Json::Bool(b)@ == JsonV::Bool(b),
        Json::Unsigned(n)@ == JsonV::Unsigned(n),
        Json::Negative(m)@ == JsonV::Negative(m),
        Json::Decimal(text)@ == JsonV::Decimal(text@),
        Json::Str(text)@ == JsonV::Str(text@),
        Json::Array(items)@ matches JsonV::Array(values) && values.len() == items@.len() && (0 <= i
            < items@.len() ==> values[i] == items@[i]@),
        Json::Object(members)@ matches JsonV::Object(values) && values.len() == members@.len() && (0
            <= i < members@.len() ==> values[i] == (members@[i].0@, members@[i].1@)),
{
}

/// A sort key stands for its column or expression, its direction and its null placement.
pub proof fn lemma_sort_keys(key: SortKey, expr: String, ascending: bool, nulls_last: bool)
    ensures
        key.deep_view().column == key.column@,
        key.deep_view().ascending == key.ascending,
        key.deep_view().nulls_last == key.nulls_last,
        ParsedSortKey::Column(key).deep_view() == ParsedSortKeyV::Column(key.deep_view()),
        (ParsedSortKey::Expression { expr, ascending, nulls_last }).deep_view() == (
        ParsedSortKeyV::Expression { expr: expr@, ascending, nulls_last }),
{
}

/// A window stands for its kind and its numbers.
pub proof fn lemma_windows(
    keys: Vec<ParsedSortKey>,
    limit: Option<u64>,
    offset: u64,
    rows: u64,
)
    ensures
        JoinWindowPlan::Unbounded.deep_view() is Unbounded,
        JoinWindowPlan::ExasolPostProcessed.deep_view() is ExasolPostProcessed,
        JoinWindowPlan::BareLimit(rows).deep_view() == JoinWindowPlanV::BareLimit(rows),
        (JoinWindowPlan::Ordered { keys, limit, offset }).deep_view() == (JoinWindowPlanV::Ordered {
            keys: keys.deep_view(),
            limit,
            offset,
        }),
{
}

/// A scan stands for everything that it is told.
pub proof fn lemma_scans(scan: ScanSpec, common: CommonScanSpec, join: JoinSpec, file: FileEntry)
    ensures
        scan.deep_view().common == scan.common.deep_view(),
        scan.deep_view().files == scan.files.deep_view(),
        file.deep_view() == (FileEntryV {
            path: file.path@,
            size: file.size,
            deletes: file.deletes.deep_view(),
        }),
        ({
            let view = common.deep_view();
            &&& view.table_root == common.table_root@
            &&& view.projection == common.projection.deep_view()
            &&& view.filter == common.filter.deep_view()
            &&& view.limit == common.limit
            &&& view.order_by == common.order_by.deep_view()
            &&& view.aggregates == common.aggregates.deep_view()
            &&& view.group_keys == common.group_keys.deep_view()
            &&& view.distinct == common.distinct
            &&& view.logical_schema == common.logical_schema@
            &&& view.name_mapping == common.name_mapping@
            &&& view.join == common.join.deep_view()
            &&& view.partition_columns == common.partition_columns.deep_view()
            &&& view.storage == common.storage
            &&& view.tuning == common.tuning
        }),
        ({
            let view = join.deep_view();
            &&& view.table_root == join.table_root@
            &&& view.files == join.files.deep_view()
            &&& view.logical_schema == join.logical_schema@
            &&& view.name_mapping == join.name_mapping@
            &&& view.join_type == join.join_type
            &&& view.condition == join.condition@
            &&& view.post_join_limit == join.post_join_limit
            &&& view.partition_columns == join.partition_columns.deep_view()
            &&& view.storage == join.storage
        }),
{
}

/// A projection item stands for its name or its expression.
pub proof fn lemma_projection_items(text: String)
    ensures
        ProjectionItem::Column(text).deep_view() == ProjectionItemV::Column(text@),
        (ProjectionItem::Expr { expr: text }).deep_view() == (ProjectionItemV::Expr { expr: text@ }),
{
}

/// An aggregation stands for its keys, plans, types and items, and an item for its slot, its place
/// and what it holds.
pub proof fn lemma_aggregations(
    plan: AggregatePlan,
    found: GroupedAggregateDetection,
    slot: usize,
    place: usize,
    text: String,
    node: Json,
)
    ensures
        plan.deep_view().kind == plan.kind,
        plan.deep_view().column == plan.column.deep_view(),
        plan.deep_view().arg_expr == plan.arg_expr.deep_view(),
        found.deep_view().group_keys == found.group_keys.deep_view(),
        found.deep_view().plans == found.plans.deep_view(),
        found.deep_view().plan_types == found.plan_types.deep_view(),
        found.deep_view().select_items == found.select_items.deep_view(),
        (GroupedSelectItem::GroupKey { group_key_slot: slot, select_index: place }).deep_view() == (
        GroupedSelectItemV::GroupKey { group_key_slot: slot, select_index: place }),
        (GroupedSelectItem::Aggregate { plan_slot: slot, select_index: place }).deep_view() == (
        GroupedSelectItemV::Aggregate { plan_slot: slot, select_index: place }),
        (GroupedSelectItem::Constant { select_index: place, projection: text }).deep_view() == (
        GroupedSelectItemV::Constant { select_index: place, projection: text@ }),
        (GroupedSelectItem::ScalarOverAggregate { select_index: place, node, declared_type: text })
            .deep_view() == (GroupedSelectItemV::ScalarOverAggregate {
            select_index: place,
            node: node@,
            declared_type: text@,
        }),
        GroupedOrderBy::Clause(text).deep_view() == GroupedOrderByV::Clause(text@),
        GroupedOrderBy::Unresolvable.deep_view() is Unresolvable,
{
}

/// A join stands for its tables and its conditions, and each table for its names.
pub proof fn lemma_joins(
    leaf: JoinLeaf,
    join: DetectedJoin,
    reason: IneligibleJoinReason,
    side: SideRequest,
)
    ensures
        leaf.deep_view().table_name == leaf.table_name@,
        leaf.deep_view().table_alias == leaf.table_alias.deep_view(),
        leaf.deep_view().table_identifier == leaf.table_identifier@,
        join.deep_view().tables == join.tables.deep_view(),
        join.deep_view().conditions == join.conditions.deep_view(),
        JoinShape::NotAJoin.deep_view() is NotAJoin,
        JoinShape::Ineligible(reason).deep_view() == JoinShapeV::Ineligible(reason),
        JoinShape::Join(join).deep_view() == JoinShapeV::Join(join.deep_view()),
        side.deep_view().table_name == side.table_name@,
        side.deep_view().table_identifier == side.table_identifier@,
        side.deep_view().filter == side.filter.deep_view(),
        side.deep_view().columns == side.columns.deep_view(),
{
}

/// The parts of a query stand for their texts.
pub proof fn lemma_query_parts(
    projected: Projected,
    rendered: RenderedJoinPushdown,
    clauses: OuterWrapperClauses,
)
    ensures
        projected.deep_view().items == projected.items.deep_view(),
        projected.deep_view().types == projected.types.deep_view(),
        projected.deep_view().widened == projected.widened,
        rendered.deep_view().condition == rendered.condition@,
        rendered.deep_view().filter == rendered.filter.deep_view(),
        rendered.deep_view().projection == rendered.projection.deep_view(),
        rendered.deep_view().projection_types == rendered.projection_types.deep_view(),
        clauses.deep_view().select == clauses.select@,
        clauses.deep_view().trailing == clauses.trailing@,
{
}

/// A result says its value or the message of its error.
pub proof fn lemma_outcomes(value: Json, storage: ScanStorage, error: UserError)
    ensures
        error@ == error.message@,
        outcome(Ok::<Json, UserError>(value)) == Ok::<_, Seq<char>>(value@),
        outcome(Err::<Json, UserError>(error)) == Err::<JsonV, _>(error.message@),
        storage_outcome(Ok(storage)) == Ok::<_, Seq<char>>(storage),
        storage_outcome(Err(error)) == Err::<ScanStorage, _>(error.message@),
        refusal_message(Ok(())) is None,
        refusal_message(Err(error)) == Some(error.message@),
{
}

/// A function computes another exactly where every result that it may return is the one that the
/// other gives.
pub proof fn lemma_handed_functions<F: Fn(&Json) -> Option<String>>(
    f: F,
    g: spec_fn(JsonV) -> Option<Seq<char>>,
)
    ensures
        computes(f, g) <==> forall|x: &Json, r: Option<String>| #[trigger]
            f.ensures((x,), r) ==> r.deep_view() == g(x@),
{
}

/// So does a function of two arguments, and one that may fail.
pub proof fn lemma_handed_pairs<
    F: Fn(&Json, &Json) -> Option<String>,
    E: Fn(&Json, &Json) -> Result<Json, UserError>,
>(
    f: F,
    g: spec_fn(JsonV, JsonV) -> Option<Seq<char>>,
    e: E,
    h: spec_fn(JsonV, JsonV) -> Result<JsonV, Seq<char>>,
)
    ensures
        computes_with(f, g) <==> forall|x: &Json, y: &Json, r: Option<String>| #[trigger]
            f.ensures((x, y), r) ==> r.deep_view() == g(x@, y@),
        answers_with(e, h) <==> forall|x: &Json, y: &Json, r: Result<Json, UserError>| #[trigger]
            e.ensures((x, y), r) ==> match r {
                Ok(value) => h(x@, y@) == Ok::<_, Seq<char>>(value@),
                Err(error) => h(x@, y@) == Err::<JsonV, _>(error.message@),
            },
{
    if answers_with(e, h) {
        assert forall|x: &Json, y: &Json, r: Result<Json, UserError>| #[trigger]
            e.ensures((x, y), r) implies match r {
            Ok(value) => h(x@, y@) == Ok::<_, Seq<char>>(value@),
            Err(error) => h(x@, y@) == Err::<JsonV, _>(error.message@),
        } by {
            assert(outcome(r) == h(x.deep_view(), y.deep_view()));
        }
    }
    if forall|x: &Json, y: &Json, r: Result<Json, UserError>| #[trigger]
        e.ensures((x, y), r) ==> match r {
            Ok(value) => h(x@, y@) == Ok::<_, Seq<char>>(value@),
            Err(error) => h(x@, y@) == Err::<JsonV, _>(error.message@),
        } {
        assert forall|x: &Json, y: &Json, r: Result<Json, UserError>| #[trigger]
            e.ensures((x, y), r) implies outcome(r) == h(x.deep_view(), y.deep_view()) by {}
    }
}

/// The functions around scans do: what is written, dealt out, listed, picked and refused is what
/// their models say of the values that they are given.
pub proof fn lemma_handed_scan_functions<
    D: Fn(&ScanSpec, &Vec<Vec<FileEntry>>, &Vec<String>, Option<u64>) -> String,
    S: Fn(&ResolvedJoinSide) -> Vec<Vec<FileEntry>>,
    R: Fn(&ResolvedJoinSide) -> Vec<FileEntry>,
    G: Fn(&StorageBackend) -> Result<ScanStorage, UserError>,
    K: Fn(&Vec<String>, &Vec<RefusedColumn>) -> Result<(), UserError>,
>(
    write: D,
    written: DrivingSql,
    deal: S,
    dealt: spec_fn(ResolvedJoinSide) -> Seq<Seq<FileEntryV>>,
    list: R,
    listed: spec_fn(ResolvedJoinSide) -> Seq<FileEntryV>,
    pick: G,
    picked: spec_fn(StorageBackend) -> Result<ScanStorage, Seq<char>>,
    refuse: K,
    refused: Refusal,
)
    ensures
        writes_queries(write, written) <==> forall|
            scan: &ScanSpec,
            shards: &Vec<Vec<FileEntry>>,
            types: &Vec<String>,
            limit: Option<u64>,
            r: String,
        | #[trigger]
            write.ensures((scan, shards, types, limit), r) ==> r@ == written(
                scan.deep_view(),
                shards.deep_view(),
                types.deep_view(),
                limit,
            ),
        deals_files(deal, dealt) <==> forall|side: &ResolvedJoinSide, r: Vec<Vec<FileEntry>>|
            #[trigger]
            deal.ensures((side,), r) ==> r.deep_view() == dealt(*side),
        lists_files(list, listed) <==> forall|side: &ResolvedJoinSide, r: Vec<FileEntry>| #[trigger]
            list.ensures((side,), r) ==> r.deep_view() == listed(*side),
        picks_storage(pick, picked) <==> forall|
            backend: &StorageBackend,
            r: Result<ScanStorage, UserError>,
        | #[trigger]
            pick.ensures((backend,), r) ==> storage_outcome(r) == picked(*backend),
        refuses(refuse, refused) <==> forall|
            names: &Vec<String>,
            columns: &Vec<RefusedColumn>,
            r: Result<(), UserError>,
        | #[trigger]
            refuse.ensures((names, columns), r) ==> refusal_message(r) == refused(
                names.deep_view(),
                columns@,
            ),
{
}

/// A projection whose types do not match its items is reported with both counts.
pub proof fn lemma_misaligned_projections(items: nat, types: nat)
    ensures
        misaligned_text(items, types) == "the fan-out projection carries "@ + decimal(items)
            + " item(s) but "@ + decimal(types)
            + " declared type(s); the two must stay positionally aligned"@,
{
}

} // verus!
