//! The query that merges the partial results of shards.

use crate::aggregates::{at, cast_merge_items, cast_merged_items, cast_to, cast_to_declared_type,
    merge_select_items, merged_items, text_at, AggregatePlan, AggregatePlanV};
use crate::grouped_agg::detection::{select_item_index, GroupedSelectItem, GroupedSelectItemV};
use crate::grouped_agg::having::{can_write_scalars, writes_scalars, ScalarOverMerge};
use crate::grouped_agg::partials::{partial_emits, partial_emits_items};
use crate::joins::clauses::keyword_clause;
use crate::json::{group_json_views, Json};
use crate::ordering::{limit_offset, render_limit_offset};
use crate::scan::{ColumnType, ColumnTypeV, CommonScanSpecV, FileEntry, FileEntryV, ScanSpec,
    ScanSpecV};
use crate::text::{decimal, join, joined, number_text};
use vstd::prelude::*;

verus! {

broadcast use group_json_views;

/// The column in which shards emit a group key.
pub open spec fn key_column(slot: int) -> Seq<char> {
    "\"GK_"@ + decimal(slot as nat) + "\""@
}

/// The columns in which shards emit `n` group keys.
pub open spec fn key_columns(n: nat) -> Seq<Seq<char>> {
    Seq::new(n, |slot: int| key_column(slot))
}

/// The columns in which shards emit `n` group keys, with their types: a key is emitted as text.
pub open spec fn key_emits(n: nat) -> Seq<Seq<char>> {
    Seq::new(n, |slot: int| key_column(slot) + " VARCHAR(2000000)"@)
}

/// The group keys of the merged rows, cast back to their types.
pub open spec fn key_selects(n: nat, types: Seq<Seq<char>>) -> Seq<Seq<char>> {
    Seq::new(n, |slot: int| cast_to(key_column(slot), at(types, slot)))
}

fn render_key_column(slot: usize) -> (sql: String)
    ensures
        sql@ == key_column(slot as int),
{
    let mut sql = "\"GK_".to_string();
    sql.append(number_text(slot as u64).as_str());
    sql.append("\"");
    sql
}

fn render_key_columns(n: usize) -> (columns: Vec<String>)
    ensures
        columns.deep_view() == key_columns(n as nat),
{
    let mut columns: Vec<String> = Vec::new();
    let mut slot: usize = 0;
    while slot < n
        invariant
            0 <= slot <= n,
            columns.deep_view() =~= key_columns(n as nat).take(slot as int),
        decreases n - slot,
    {
        let ghost before = columns.deep_view();
        let column = render_key_column(slot);
        columns.push(column);
        assert(columns.deep_view() =~= before.push(column@));
        slot += 1;
    }
    assert(columns.deep_view() =~= key_columns(n as nat));
    columns
}

fn render_key_emits(n: usize) -> (columns: Vec<String>)
    ensures
        columns.deep_view() == key_emits(n as nat),
{
    let mut columns: Vec<String> = Vec::new();
    let mut slot: usize = 0;
    while slot < n
        invariant
            0 <= slot <= n,
            columns.deep_view() =~= key_emits(n as nat).take(slot as int),
        decreases n - slot,
    {
        let ghost before = columns.deep_view();
        let mut column = render_key_column(slot);
        column.append(" VARCHAR(2000000)");
        columns.push(column);
        assert(columns.deep_view() =~= before.push(column@));
        slot += 1;
    }
    assert(columns.deep_view() =~= key_emits(n as nat));
    columns
}

fn render_key_selects(n: usize, types: &Vec<String>) -> (columns: Vec<String>)
    ensures
        columns.deep_view() == key_selects(n as nat, types.deep_view()),
{
    let mut columns: Vec<String> = Vec::new();
    let mut slot: usize = 0;
    while slot < n
        invariant
            0 <= slot <= n,
            columns.deep_view() =~= key_selects(n as nat, types.deep_view()).take(slot as int),
        decreases n - slot,
    {
        let ghost before = columns.deep_view();
        let column = cast_to_declared_type(
            render_key_column(slot).as_str(),
            text_at(types, slot),
        );
        columns.push(column);
        assert(columns.deep_view() =~= before.push(column@));
        slot += 1;
    }
    assert(columns.deep_view() =~= key_selects(n as nat, types.deep_view()));
    columns
}

/// Items in the order of the select list with one more put in its place, behind the items of the
/// same place.
pub open spec fn inserted(
    items: Seq<GroupedSelectItemV>,
    item: GroupedSelectItemV,
) -> Seq<GroupedSelectItemV>
    decreases items.len(),
{
    if items.len() == 0 || items.last().index() <= item.index() {
        items.push(item)
    } else {
        inserted(items.drop_last(), item).push(items.last())
    }
}

/// Items in the order of the select list. Items of the same place keep their order.
pub open spec fn in_select_order(items: Seq<GroupedSelectItemV>) -> Seq<GroupedSelectItemV>
    decreases items.len(),
{
    if items.len() == 0 {
        Seq::empty()
    } else {
        inserted(in_select_order(items.drop_last()), items.last())
    }
}

proof fn lemma_inserted_at(
    items: Seq<GroupedSelectItemV>,
    item: GroupedSelectItemV,
    place: int,
)
    requires
        0 <= place <= items.len(),
        place > 0 ==> items[place - 1].index() <= item.index(),
        forall|k: int| place <= k < items.len() ==> (#[trigger] items[k]).index() > item.index(),
    ensures
        inserted(items, item) == items.insert(place, item),
    decreases items.len(),
{
    if place == items.len() {
        assert(inserted(items, item) =~= items.insert(place, item));
    } else {
        let rest = items.drop_last();
        assert(items[items.len() - 1].index() > item.index());
        assert forall|k: int| place <= k < rest.len() implies (#[trigger] rest[k]).index()
            > item.index() by {
            assert(rest[k] == items[k]);
        }
        lemma_inserted_at(rest, item, place);
        assert(rest.insert(place, item).push(items.last()) =~= items.insert(place, item));
    }
}

/// The items that places name.
spec fn at_places(items: Seq<GroupedSelectItemV>, places: Seq<usize>) -> Seq<GroupedSelectItemV> {
    places.map_values(|place: usize| items[place as int])
}

/// The places of items, in the order of the select list.
fn select_order(items: &Vec<GroupedSelectItem>) -> (places: Vec<usize>)
    ensures
        forall|i: int| 0 <= i < places@.len() ==> #[trigger] places@[i] < items@.len(),
        at_places(items.deep_view(), places@) == in_select_order(items.deep_view()),
{
    let ghost views = items.deep_view();
    let mut places: Vec<usize> = Vec::new();
    let mut i: usize = 0;
    assert(at_places(views, places@) =~= in_select_order(views.take(0)));
    while i < items.len()
        invariant
            0 <= i <= items.len(),
            views == items.deep_view(),
            forall|k: int| 0 <= k < places@.len() ==> #[trigger] places@[k] < items@.len(),
            places@.len() == i,
            at_places(views, places@) == in_select_order(views.take(i as int)),
        decreases items.len() - i,
    {
        assert(views.take(i + 1).drop_last() =~= views.take(i as int));
        let ghost sorted = at_places(views, places@);
        let index: usize = select_item_index(&items[i]);
        let mut place: usize = places.len();
        while place > 0 && select_item_index(&items[places[place - 1]]) > index
            invariant
                i < items.len(),
                0 <= place <= places@.len(),
                views == items.deep_view(),
                sorted == at_places(views, places@),
                index == views[i as int].index(),
                forall|k: int| 0 <= k < places@.len() ==> #[trigger] places@[k] < items@.len(),
                forall|k: int|
                    place <= k < sorted.len() ==> (#[trigger] sorted[k]).index() > index,
            decreases place,
        {
            assert(sorted[place - 1] == views[places@[place - 1] as int]);
            place -= 1;
        }
        proof {
            if place > 0 {
                assert(sorted[place - 1] == views[places@[place - 1] as int]);
                assert(sorted[place - 1].index() <= index);
            }
            lemma_inserted_at(sorted, views[i as int], place as int);
        }
        let ghost before = places@;
        places.insert(place, i);
        assert(places@ =~= before.insert(place as int, i));
        assert(at_places(views, places@) =~= sorted.insert(place as int, views[i as int]));
        i += 1;
    }
    assert(views.take(i as int) =~= views);
    places
}

/// The expression of one item over merged rows. A slot that does not exist has none.
pub open spec fn item_expression(
    item: GroupedSelectItemV,
    keys: Seq<Seq<char>>,
    aggregates: Seq<Seq<char>>,
    plans: Seq<AggregatePlanV>,
    scalar: ScalarOverMerge,
) -> Option<Seq<char>> {
    match item {
        GroupedSelectItemV::GroupKey { group_key_slot, .. } => at(keys, group_key_slot as int),
        GroupedSelectItemV::Aggregate { plan_slot, .. } => at(aggregates, plan_slot as int),
        GroupedSelectItemV::Constant { projection, .. } => Some(projection),
        GroupedSelectItemV::ScalarOverAggregate { node, declared_type, .. } => match scalar(
            node,
            plans,
            merged_items(plans),
        ) {
            Some(expr) => Some(cast_to(expr, Some(declared_type))),
            None => None,
        },
    }
}

/// The expressions of items over merged rows.
pub open spec fn item_expressions(
    items: Seq<GroupedSelectItemV>,
    keys: Seq<Seq<char>>,
    aggregates: Seq<Seq<char>>,
    plans: Seq<AggregatePlanV>,
    scalar: ScalarOverMerge,
) -> Seq<Seq<char>> {
    items.filter_map(
        |item: GroupedSelectItemV| item_expression(item, keys, aggregates, plans, scalar),
    )
}

fn owned(text: Option<&str>) -> (copy: Option<String>)
    ensures
        copy.deep_view() == text.deep_view(),
{
    match text {
        Some(inner) => Some(inner.to_string()),
        None => None,
    }
}

fn render_item_expression<M: Fn(&Json, &Vec<AggregatePlan>, &Vec<String>) -> Option<String>>(
    item: &GroupedSelectItem,
    keys: &Vec<String>,
    merge_items: &Vec<String>,
    aggregates: &Vec<AggregatePlan>,
    merged: &Vec<String>,
    scalar: &M,
) -> (sql: Option<String>)
    requires
        can_write_scalars(*scalar),
        merged.deep_view() == merged_items(aggregates.deep_view()),
    ensures
        forall|g: ScalarOverMerge| #[trigger]
            writes_scalars(*scalar, g) ==> sql.deep_view() == item_expression(
                item.deep_view(),
                keys.deep_view(),
                merge_items.deep_view(),
                aggregates.deep_view(),
                g,
            ),
{
    match item {
        GroupedSelectItem::GroupKey { group_key_slot, .. } => owned(
            text_at(keys, *group_key_slot),
        ),
        GroupedSelectItem::Aggregate { plan_slot, .. } => owned(text_at(merge_items, *plan_slot)),
        GroupedSelectItem::Constant { projection, .. } => Some(projection.clone()),
        GroupedSelectItem::ScalarOverAggregate { node, declared_type, .. } => match scalar(
            node,
            aggregates,
            merged,
        ) {
            Some(expr) => Some(
                cast_to_declared_type(expr.as_str(), Some(declared_type.as_str())),
            ),
            None => None,
        },
    }
}

/// The query that runs a scan over shards, given the columns it emits.
pub type FanOutSql = spec_fn(ScanSpecV, Seq<Seq<FileEntryV>>, Seq<char>) -> Seq<char>;

/// `f` can be called for every scan.
pub open spec fn can_write_fan_outs<
    O: Fn(&ScanSpec, &Vec<Vec<FileEntry>>, &String) -> String,
>(f: O) -> bool {
    forall|scan: &ScanSpec, shards: &Vec<Vec<FileEntry>>, emits: &String| #[trigger]
        f.requires((scan, shards, emits))
}

/// Whatever `f` writes for a scan is what `g` says of it.
pub open spec fn writes_fan_outs<O: Fn(&ScanSpec, &Vec<Vec<FileEntry>>, &String) -> String>(
    f: O,
    g: FanOutSql,
) -> bool {
    forall|scan: &ScanSpec, shards: &Vec<Vec<FileEntry>>, emits: &String, r: String| #[trigger]
        f.ensures((scan, shards, emits), r) ==> r@ == g(
            scan.deep_view(),
            shards.deep_view(),
            emits@,
        )
}

/// A clause that is there and not empty.
pub open spec fn nonempty(clause: Option<Seq<char>>) -> Option<Seq<char>> {
    match clause {
        Some(text) if text.len() > 0 => Some(text),
        _ => None,
    }
}

/// What a grouped aggregation is built from.
pub struct GroupedScanV {
    pub template: ScanSpecV,
    pub shards: Seq<Seq<FileEntryV>>,
    pub group_keys: Seq<Seq<char>>,
    pub group_key_types: Seq<Seq<char>>,
    pub aggregates: Seq<AggregatePlanV>,
    pub aggregate_types: Seq<Seq<char>>,
    pub select_items: Seq<GroupedSelectItemV>,
    pub limit: Option<u64>,
    pub offset: u64,
    pub col_types: Seq<ColumnTypeV>,
    pub having: Option<Seq<char>>,
    pub order_by: Option<Seq<char>>,
}

impl GroupedScanV {
    /// The columns that the shards emit: group keys, then partial results.
    pub open spec fn emits(self) -> Seq<Seq<char>> {
        key_emits(self.group_keys.len()) + partial_emits(
            self.aggregates,
            self.col_types,
            self.aggregate_types,
        )
    }

    /// The columns of the merged rows, in the order of the select list.
    pub open spec fn selects(self, scalar: ScalarOverMerge) -> Seq<Seq<char>> {
        item_expressions(
            in_select_order(self.select_items),
            key_selects(self.group_keys.len(), self.group_key_types),
            cast_merged_items(self.aggregates, self.aggregate_types),
            self.aggregates,
            scalar,
        )
    }

    /// What the shards are told: the template without a limit, since a limit per shard would drop
    /// groups before they are merged.
    pub open spec fn scan(self) -> ScanSpecV {
        ScanSpecV {
            common: CommonScanSpecV { limit: None, ..self.template.common },
            ..self.template
        }
    }

    /// The query that merges the partial results. The `HAVING` applies to merged groups only.
    pub open spec fn sql(self, scalar: ScalarOverMerge, fan_out: FanOutSql) -> Seq<char> {
        "SELECT "@ + joined(self.selects(scalar), ", "@) + " FROM ("@ + fan_out(
            self.scan(),
            self.shards,
            joined(self.emits(), ", "@),
        ) + ") GROUP BY "@ + joined(key_columns(self.group_keys.len()), ", "@) + keyword_clause(
            " HAVING "@,
            nonempty(self.having),
        ) + keyword_clause(" ORDER BY "@, nonempty(self.order_by)) + limit_offset(
            self.limit,
            self.offset,
        )
    }
}

fn render_selects<M: Fn(&Json, &Vec<AggregatePlan>, &Vec<String>) -> Option<String>>(
    n: usize,
    group_key_types: &Vec<String>,
    aggregates: &Vec<AggregatePlan>,
    aggregate_types: &Vec<String>,
    select_items: &Vec<GroupedSelectItem>,
    scalar: &M,
) -> (selects: Vec<String>)
    requires
        can_write_scalars(*scalar),
    ensures
        forall|g: ScalarOverMerge| #[trigger]
            writes_scalars(*scalar, g) ==> selects.deep_view() == item_expressions(
                in_select_order(select_items.deep_view()),
                key_selects(n as nat, group_key_types.deep_view()),
                cast_merged_items(aggregates.deep_view(), aggregate_types.deep_view()),
                aggregates.deep_view(),
                g,
            ),
{
    let keys = render_key_selects(n, group_key_types);
    let merge_items = cast_merge_items(aggregates, aggregate_types);
    let merged = merge_select_items(aggregates);
    let places = select_order(select_items);
    let ghost items = in_select_order(select_items.deep_view());
    let mut selects: Vec<String> = Vec::new();
    let mut i: usize = 0;
    assert(selects.deep_view() =~= Seq::empty());
    while i < places.len()
        invariant
            0 <= i <= places.len(),
            can_write_scalars(*scalar),
            merged.deep_view() == merged_items(aggregates.deep_view()),
            forall|k: int| 0 <= k < places@.len() ==> #[trigger] places@[k] < select_items@.len(),
            items == at_places(select_items.deep_view(), places@),
            forall|g: ScalarOverMerge| #[trigger]
                writes_scalars(*scalar, g) ==> selects.deep_view() == item_expressions(
                    items.take(i as int),
                    keys.deep_view(),
                    merge_items.deep_view(),
                    aggregates.deep_view(),
                    g,
                ),
        decreases places.len() - i,
    {
        assert(items.take(i + 1).drop_last() =~= items.take(i as int));
        assert(items[i as int] == select_items@[places@[i as int] as int].deep_view());
        let ghost before = selects.deep_view();
        if let Some(sql) = render_item_expression(
            &select_items[places[i]],
            &keys,
            &merge_items,
            aggregates,
            &merged,
            scalar,
        ) {
            selects.push(sql);
            assert(selects.deep_view() =~= before + seq![sql@]);
        }
        i += 1;
    }
    assert(items.take(i as int) =~= items);
    selects
}

fn append_nonempty(sql: &mut String, keyword: &str, clause: Option<&str>)
    ensures
        final(sql)@ == old(sql)@ + keyword_clause(keyword@, nonempty(clause.deep_view())),
{
    let ghost before = sql@;
    if let Some(text) = clause {
        if text.unicode_len() > 0 {
            sql.append(keyword);
            sql.append(text);
        }
    }
    assert(sql@ =~= before + keyword_clause(keyword@, nonempty(clause.deep_view())));
}

/// Writes the query that merges the partial results of shards.
pub fn build_grouped_aggregate_scan_sql<
    M: Fn(&Json, &Vec<AggregatePlan>, &Vec<String>) -> Option<String>,
    O: Fn(&ScanSpec, &Vec<Vec<FileEntry>>, &String) -> String,
>(
    spec_template: &ScanSpec,
    shards: &Vec<Vec<FileEntry>>,
    group_keys: &Vec<String>,
    group_key_types: &Vec<String>,
    aggregates: &Vec<AggregatePlan>,
    aggregate_types: &Vec<String>,
    select_items: &Vec<GroupedSelectItem>,
    limit: Option<u64>,
    offset: u64,
    col_types: &Vec<ColumnType>,
    having: Option<&str>,
    order_by: Option<&str>,
    scalar: &M,
    fan_out: &O,
) -> (sql: String)
    requires
        can_write_scalars(*scalar),
        can_write_fan_outs(*fan_out),
    ensures
        forall|g: ScalarOverMerge, o: FanOutSql|
            #![trigger writes_scalars(*scalar, g), writes_fan_outs(*fan_out, o)]
            writes_scalars(*scalar, g) && writes_fan_outs(*fan_out, o) ==> sql@ == (GroupedScanV {
                template: spec_template.deep_view(),
                shards: shards.deep_view(),
                group_keys: group_keys.deep_view(),
                group_key_types: group_key_types.deep_view(),
                aggregates: aggregates.deep_view(),
                aggregate_types: aggregate_types.deep_view(),
                select_items: select_items.deep_view(),
                limit,
                offset,
                col_types: col_types.deep_view(),
                having: having.deep_view(),
                order_by: order_by.deep_view(),
            }).sql(g, o),
{
    let mut emits = render_key_emits(group_keys.len());
    let mut partial_items = partial_emits_items(aggregates, col_types, aggregate_types);
    let ghost key_part = emits.deep_view();
    let ghost partial_part = partial_items.deep_view();
    emits.append(&mut partial_items);
    assert(emits.deep_view() =~= key_part + partial_part);
    let selects = render_selects(
        group_keys.len(),
        group_key_types,
        aggregates,
        aggregate_types,
        select_items,
        scalar,
    );
    let mut template = spec_template.clone();
    template.common.limit = None;
    let fan_out_sql = fan_out(&template, shards, &join(&emits, ", "));
    let mut sql = "SELECT ".to_string();
    sql.append(join(&selects, ", ").as_str());
    sql.append(" FROM (");
    sql.append(fan_out_sql.as_str());
    sql.append(") GROUP BY ");
    sql.append(join(&render_key_columns(group_keys.len()), ", ").as_str());
    append_nonempty(&mut sql, " HAVING ", having);
    append_nonempty(&mut sql, " ORDER BY ", order_by);
    sql.append(render_limit_offset(limit, offset).as_str());
    sql
}

} // verus!
