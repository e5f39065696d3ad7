//! Grouped aggregation: plans, slots, and the shape of the merged rows.

use crate::aggregates::{at, cast_merged_items, plan_slot, AggregatePlanV};
use crate::grouped_agg::detection::{grouped_aggregation, lemma_plan_slot_bounds, position,
    read_items, rendered_nodes, AggregateReaderV, GroupedSelectItemV, PlanTableV};
use crate::grouped_agg::having::ScalarOverMerge;
use crate::grouped_agg::key_types::padded_keys;
use crate::grouped_agg::partials::{partial_emits, well_typed};
use crate::grouped_agg::wrapper::{in_select_order, inserted, item_expression, item_expressions,
    key_selects, FanOutSql, GroupedScanV};
use crate::json::JsonV;
use crate::laws::counting::{lemma_times_contains, times};
use crate::scan::ColumnTypeV;
use crate::text::{decimal, digit_char, signed_decimal};
use crate::types::{char_type_width, decimal_args, is_numeral, numeral_value, small_signed_reading,
    sum_type, trimmed};
use vstd::prelude::*;

verus! {

/// No plan occurs twice, and each has a type.
pub open spec fn well_formed(table: PlanTableV) -> bool {
    table.plans.no_duplicates() && table.types.len() == table.plans.len()
}

/// Folding a plan in keeps the plans that are there in their slots, and puts the plan into the
/// slot that it is said to have.
pub proof fn lemma_fold(table: PlanTableV, plan: AggregatePlanV, declared: Option<Seq<char>>)
    requires
        well_formed(table),
    ensures
        well_formed(table.fold(plan, declared)),
        table.plans.is_prefix_of(table.fold(plan, declared).plans),
        0 <= table.slot_of(plan) < table.fold(plan, declared).plans.len(),
        table.fold(plan, declared).plans[table.slot_of(plan)] == plan,
{
    lemma_plan_slot_bounds(table.plans, plan);
    if plan_slot(table.plans, plan) is None {
        let after = table.plans.push(plan);
        assert forall|i: int, j: int|
            0 <= i < after.len() && 0 <= j < after.len() && i != j implies after[i] != after[j] by {
            if i == table.plans.len() {
                assert(after[j] == table.plans[j]);
            } else if j == table.plans.len() {
                assert(after[i] == table.plans[i]);
            }
        }
        assert(after.take(table.plans.len() as int) =~= table.plans);
    }
}

/// Folding plans in keeps the plans that are there in their slots.
pub proof fn lemma_fold_all(table: PlanTableV, plans: Seq<AggregatePlanV>)
    requires
        well_formed(table),
    ensures
        well_formed(table.fold_all(plans)),
        table.plans.is_prefix_of(table.fold_all(plans).plans),
    decreases plans.len(),
{
    if plans.len() > 0 {
        lemma_fold_all(table, plans.drop_last());
        let before = table.fold_all(plans.drop_last());
        lemma_fold(before, plans.last(), None);
        let after = before.fold(plans.last(), None);
        assert forall|i: int| 0 <= i < table.plans.len() implies table.plans[i]
            == after.plans[i] by {
            assert(before.plans[i] == after.plans[i]);
        }
    }
}

/// What an item of the merged row stands for: its place in the select list is its own, and its slot
/// holds what the item asks for.
pub open spec fn stands_for(
    item: GroupedSelectItemV,
    index: int,
    node: JsonV,
    group_keys: Seq<Seq<char>>,
    plans: Seq<AggregatePlanV>,
    reader: AggregateReaderV,
) -> bool {
    &&& item.index() == index
    &&& match item {
        GroupedSelectItemV::GroupKey { group_key_slot, .. } => group_key_slot < group_keys.len()
            && (reader.expression)(node) == Some(group_keys[group_key_slot as int]),
        GroupedSelectItemV::Aggregate { plan_slot, .. } => plan_slot < plans.len()
            && (reader.aggregate)(node) == Some(plans[plan_slot as int]),
        GroupedSelectItemV::Constant { .. } => true,
        GroupedSelectItemV::ScalarOverAggregate { node: kept, .. } => kept == node,
    }
}

proof fn lemma_position(texts: Seq<Seq<char>>, text: Seq<char>)
    requires
        texts.len() <= usize::MAX,
    ensures
        position(texts, text) matches Some(slot) ==> slot < texts.len() && texts[slot as int]
            == text,
    decreases texts.len(),
{
    if texts.len() > 0 {
        lemma_position(texts.drop_last(), text);
    }
}

proof fn lemma_read_items(
    pushdown_req: JsonV,
    group_keys: Seq<Seq<char>>,
    list: Seq<JsonV>,
    reader: AggregateReaderV,
    n: int,
)
    requires
        0 <= n <= list.len(),
        list.len() <= usize::MAX,
        group_keys.len() <= usize::MAX,
    ensures
        read_items(pushdown_req, group_keys, list, reader, n) matches Some(state) ==> well_formed(
            state.table,
        ) && state.items.len() == n && (state.table.plans.len() <= usize::MAX ==> forall|i: int|
            0 <= i < n ==> stands_for(
                #[trigger] state.items[i],
                i,
                list[i],
                group_keys,
                state.table.plans,
                reader,
            )),
    decreases n,
{
    if n > 0 && read_items(pushdown_req, group_keys, list, reader, n) is Some {
        lemma_read_items(pushdown_req, group_keys, list, reader, n - 1);
        let before = read_items(pushdown_req, group_keys, list, reader, n - 1)->0;
        let state = read_items(pushdown_req, group_keys, list, reader, n)->0;
        let node = list[n - 1];
        if (reader.aggregate)(node) is Some {
            let plan = (reader.aggregate)(node)->0;
            let declared = crate::grouped_agg::detection::select_type(
                pushdown_req,
                n - 1,
                reader.exasol_type,
            );
            lemma_fold(before.table, plan, Some(declared));
        }
        if (reader.nested)(node) is Some {
            lemma_fold_all(before.table, (reader.nested)(node)->0);
        }
        if (reader.expression)(node) is Some {
            lemma_position(group_keys, (reader.expression)(node)->0);
        }
        assert(before.table.plans.is_prefix_of(state.table.plans)) by {
            assert(before.table.plans.take(before.table.plans.len() as int)
                =~= before.table.plans);
        }
        if state.table.plans.len() <= usize::MAX {
            assert forall|i: int| 0 <= i < n implies stands_for(
                #[trigger] state.items[i],
                i,
                list[i],
                group_keys,
                state.table.plans,
                reader,
            ) by {
                if i < n - 1 {
                    assert(state.items[i] == before.items[i]);
                    assert(stands_for(
                        before.items[i],
                        i,
                        list[i],
                        group_keys,
                        before.table.plans,
                        reader,
                    ));
                    if let GroupedSelectItemV::Aggregate { plan_slot, .. } = before.items[i] {
                        assert(before.table.plans[plan_slot as int]
                            == state.table.plans[plan_slot as int]);
                    }
                }
            }
        }
    }
}

proof fn lemma_rendered_count(nodes: Seq<JsonV>, render: spec_fn(JsonV) -> Option<Seq<char>>)
    ensures
        rendered_nodes(nodes, render) matches Some(texts) ==> texts.len() == nodes.len(),
    decreases nodes.len(),
{
    if nodes.len() > 0 {
        lemma_rendered_count(nodes.drop_last(), render);
    }
}

/// A recognised aggregation computes no aggregate twice and knows the type of each.
pub proof fn lemma_plans_are_distinct(pushdown_req: JsonV, reader: AggregateReaderV)
    requires
        pushdown_req.nonempty_items_field("selectList"@) matches Some(list) ==> list.len()
            <= usize::MAX,
        pushdown_req.nonempty_items_field("groupBy"@) matches Some(keys) ==> keys.len()
            <= usize::MAX,
    ensures
        grouped_aggregation(pushdown_req, reader) matches Some(found) ==> found.plans.no_duplicates()
            && found.plan_types.len() == found.plans.len(),
{
    if let Some(found) = grouped_aggregation(pushdown_req, reader) {
        let list = pushdown_req.nonempty_items_field("selectList"@)->0;
        let keys = pushdown_req.nonempty_items_field("groupBy"@)->0;
        lemma_rendered_count(keys, reader.expression);
        lemma_read_items(pushdown_req, found.group_keys, list, reader, list.len() as int);
    }
}

/// A recognised aggregation has one item for each item of the select list, in its place and with a
/// slot that holds what it asks for.
pub proof fn lemma_items_follow_the_select_list(pushdown_req: JsonV, reader: AggregateReaderV)
    requires
        pushdown_req.nonempty_items_field("selectList"@) matches Some(list) ==> list.len()
            <= usize::MAX,
        pushdown_req.nonempty_items_field("groupBy"@) matches Some(keys) ==> keys.len()
            <= usize::MAX,
        grouped_aggregation(pushdown_req, reader) matches Some(found) ==> found.plans.len()
            <= usize::MAX,
    ensures
        grouped_aggregation(pushdown_req, reader) matches Some(found) ==> {
            let list = pushdown_req.nonempty_items_field("selectList"@)->0;
            &&& found.select_items.len() == list.len()
            &&& forall|i: int|
                0 <= i < list.len() ==> stands_for(
                    #[trigger] found.select_items[i],
                    i,
                    list[i],
                    found.group_keys,
                    found.plans,
                    reader,
                )
        },
{
    if let Some(found) = grouped_aggregation(pushdown_req, reader) {
        let list = pushdown_req.nonempty_items_field("selectList"@)->0;
        let keys = pushdown_req.nonempty_items_field("groupBy"@)->0;
        lemma_rendered_count(keys, reader.expression);
        lemma_read_items(pushdown_req, found.group_keys, list, reader, list.len() as int);
    }
}

/// Whether items are in the order of the select list.
pub open spec fn is_ordered(items: Seq<GroupedSelectItemV>) -> bool {
    forall|i: int, j: int|
        0 <= i < j < items.len() ==> (#[trigger] items[i]).index() <= (#[trigger] items[j]).index()
}

proof fn lemma_inserted(items: Seq<GroupedSelectItemV>, item: GroupedSelectItemV)
    requires
        is_ordered(items),
    ensures
        is_ordered(inserted(items, item)),
        inserted(items, item).len() == items.len() + 1,
        forall|i: int|
            0 <= i < inserted(items, item).len() ==> (#[trigger] inserted(items, item)[i]).index()
                <= if items.len() > 0 && items.last().index() > item.index() {
                items.last().index()
            } else {
                item.index()
            },
        forall|other: GroupedSelectItemV| #[trigger]
            times(inserted(items, item), other) == times(items.push(item), other),
    decreases items.len(),
{
    let out = inserted(items, item);
    if items.len() == 0 || items.last().index() <= item.index() {
        assert forall|i: int, j: int| 0 <= i < j < out.len() implies (#[trigger] out[i]).index()
            <= (#[trigger] out[j]).index() by {
            if j == items.len() {
                if i < items.len() - 1 {
                    assert(items[i].index() <= items[items.len() - 1].index());
                }
            }
        }
        assert forall|i: int| 0 <= i < out.len() implies (#[trigger] out[i]).index()
            <= item.index() by {
            if i < items.len() - 1 {
                assert(items[i].index() <= items[items.len() - 1].index());
            }
        }
    } else {
        let rest = items.drop_last();
        let last = items.last();
        assert forall|i: int, j: int| 0 <= i < j < rest.len() implies (#[trigger] rest[i]).index()
            <= (#[trigger] rest[j]).index() by {
            assert(items[i].index() <= items[j].index());
        }
        lemma_inserted(rest, item);
        let below = inserted(rest, item);
        assert(rest.len() > 0 ==> rest.last().index() <= last.index()) by {
            if rest.len() > 0 {
                assert(items[items.len() - 2].index() <= items[items.len() - 1].index());
            }
        }
        assert forall|i: int| 0 <= i < below.len() implies (#[trigger] below[i]).index()
            <= last.index() by {}
        assert forall|i: int, j: int| 0 <= i < j < out.len() implies (#[trigger] out[i]).index()
            <= (#[trigger] out[j]).index() by {
            if j == below.len() {
                assert(out[i] == below[i]);
            } else {
                assert(out[i] == below[i] && out[j] == below[j]);
            }
        }
        assert forall|i: int| 0 <= i < out.len() implies (#[trigger] out[i]).index()
            <= last.index() by {
            if i < below.len() {
                assert(out[i] == below[i]);
            }
        }
        assert forall|other: GroupedSelectItemV| #[trigger] times(out, other) == times(
            items.push(item),
            other,
        ) by {
            assert(out.drop_last() =~= below);
            assert(items.push(item).drop_last() =~= items);
            assert(rest.push(item).drop_last() =~= rest);
            assert(times(below, other) == times(rest.push(item), other));
            let own = if item == other {
                1nat
            } else {
                0nat
            };
            let tail = if last == other {
                1nat
            } else {
                0nat
            };
            assert(times(rest.push(item), other) == times(rest, other) + own);
            assert(times(out, other) == times(below, other) + tail);
            assert(times(items, other) == times(rest, other) + tail);
            assert(times(items.push(item), other) == times(items, other) + own);
        }
    }
}

/// The columns of the merged rows are the items of the select list, in its order.
pub proof fn lemma_select_order(items: Seq<GroupedSelectItemV>)
    ensures
        is_ordered(in_select_order(items)),
        forall|item: GroupedSelectItemV| #[trigger]
            times(in_select_order(items), item) == times(items, item),
    decreases items.len(),
{
    if items.len() > 0 {
        lemma_select_order(items.drop_last());
        let before = in_select_order(items.drop_last());
        lemma_inserted(before, items.last());
        assert forall|item: GroupedSelectItemV| #[trigger] times(
            in_select_order(items),
            item,
        ) == times(items, item) by {
            assert(before.push(items.last()).drop_last() =~= before);
            assert(times(before, item) == times(items.drop_last(), item));
            assert(times(inserted(before, items.last()), item) == times(
                before.push(items.last()),
                item,
            ));
        }
    }
}

/// Items that are in the order of the select list stay as they are.
pub proof fn lemma_ordered_items_stay(items: Seq<GroupedSelectItemV>)
    requires
        is_ordered(items),
    ensures
        in_select_order(items) == items,
    decreases items.len(),
{
    if items.len() > 0 {
        let rest = items.drop_last();
        assert forall|i: int, j: int| 0 <= i < j < rest.len() implies (#[trigger] rest[i]).index()
            <= (#[trigger] rest[j]).index() by {
            assert(items[i].index() <= items[j].index());
        }
        lemma_ordered_items_stay(rest);
        if rest.len() > 0 {
            assert(items[items.len() - 2].index() <= items[items.len() - 1].index());
        }
        assert(rest.push(items.last()) =~= items);
    } else {
        assert(in_select_order(items) =~= items);
    }
}

/// Whether no two different items claim the same place in the select list.
pub open spec fn one_item_per_place(items: Seq<GroupedSelectItemV>) -> bool {
    forall|i: int, j: int|
        #![trigger items[i], items[j]]
        0 <= i < items.len() && 0 <= j < items.len() && items[i].index() == items[j].index()
            ==> items[i] == items[j]
}

proof fn lemma_ordered_items_agree(left: Seq<GroupedSelectItemV>, right: Seq<GroupedSelectItemV>)
    requires
        is_ordered(left),
        is_ordered(right),
        one_item_per_place(left),
        forall|item: GroupedSelectItemV| #[trigger] times(left, item) == times(right, item),
    ensures
        left == right,
    decreases left.len(),
{
    if right.len() > 0 {
        lemma_times_contains(left, right.last());
        assert(times(left, right.last()) == times(right, right.last()));
    }
    if left.len() > 0 {
        lemma_times_contains(right, left.last());
        assert(times(right, left.last()) == times(left, left.last()));
        let i = choose|i: int| 0 <= i < left.len() && left[i] == right.last();
        let j = choose|j: int| 0 <= j < right.len() && right[j] == left.last();
        assert(left[i].index() <= left[left.len() - 1].index());
        assert(right[j].index() <= right[right.len() - 1].index());
        assert(left.last() == right.last());
        let left_rest = left.drop_last();
        let right_rest = right.drop_last();
        assert forall|k: int, l: int| 0 <= k < l < left_rest.len() implies (
        #[trigger] left_rest[k]).index() <= (#[trigger] left_rest[l]).index() by {
            assert(left[k].index() <= left[l].index());
        }
        assert forall|k: int, l: int| 0 <= k < l < right_rest.len() implies (
        #[trigger] right_rest[k]).index() <= (#[trigger] right_rest[l]).index() by {
            assert(right[k].index() <= right[l].index());
        }
        assert forall|k: int, l: int|
            #![trigger left_rest[k], left_rest[l]]
            0 <= k < left_rest.len() && 0 <= l < left_rest.len() && left_rest[k].index()
                == left_rest[l].index() implies left_rest[k] == left_rest[l] by {
            assert(left[k] == left_rest[k] && left[l] == left_rest[l]);
        }
        assert forall|item: GroupedSelectItemV| #[trigger] times(left_rest, item) == times(
            right_rest,
            item,
        ) by {
            assert(times(left, item) == times(right, item));
        }
        lemma_ordered_items_agree(left_rest, right_rest);
        assert(left =~= left_rest.push(left.last()));
        assert(right =~= right_rest.push(right.last()));
    } else {
        assert(left =~= right);
    }
}

/// The merging query does not depend on the order in which its items are handed over: their places
/// in the select list order the columns.
pub proof fn lemma_item_order_is_free(
    scan: GroupedScanV,
    other: Seq<GroupedSelectItemV>,
    scalar: ScalarOverMerge,
    fan_out: FanOutSql,
)
    requires
        one_item_per_place(scan.select_items),
        forall|item: GroupedSelectItemV| #[trigger]
            times(scan.select_items, item) == times(other, item),
    ensures
        (GroupedScanV { select_items: other, ..scan }).sql(scalar, fan_out) == scan.sql(
            scalar,
            fan_out,
        ),
{
    let items = scan.select_items;
    let left = in_select_order(items);
    let right = in_select_order(other);
    lemma_select_order(items);
    lemma_select_order(other);
    assert forall|item: GroupedSelectItemV| #[trigger] times(left, item) == times(right, item) by {
        assert(times(items, item) == times(other, item));
        assert(times(right, item) == times(other, item));
    }
    assert forall|i: int, j: int|
        #![trigger left[i], left[j]]
        0 <= i < left.len() && 0 <= j < left.len() && left[i].index()
            == left[j].index() implies left[i] == left[j] by {
        lemma_times_contains(left, left[i]);
        lemma_times_contains(left, left[j]);
        lemma_times_contains(items, left[i]);
        lemma_times_contains(items, left[j]);
        assert(times(left, left[i]) == times(items, left[i]));
        assert(times(left, left[j]) == times(items, left[j]));
        let k = choose|k: int| 0 <= k < items.len() && items[k] == left[i];
        let l = choose|l: int| 0 <= l < items.len() && items[l] == left[j];
        assert(items[k].index() == items[l].index());
    }
    lemma_ordered_items_agree(left, right);
}

proof fn lemma_all_expressions(
    items: Seq<GroupedSelectItemV>,
    keys: Seq<Seq<char>>,
    aggregates: Seq<Seq<char>>,
    plans: Seq<AggregatePlanV>,
    scalar: ScalarOverMerge,
)
    requires
        forall|i: int|
            0 <= i < items.len() ==> item_expression(
                #[trigger] items[i],
                keys,
                aggregates,
                plans,
                scalar,
            ) is Some,
    ensures
        item_expressions(items, keys, aggregates, plans, scalar).len() == items.len(),
        forall|i: int|
            0 <= i < items.len() ==> Some(
                #[trigger] item_expressions(items, keys, aggregates, plans, scalar)[i],
            ) == item_expression(items[i], keys, aggregates, plans, scalar),
    decreases items.len(),
{
    if items.len() > 0 {
        let rest = items.drop_last();
        assert forall|i: int| 0 <= i < rest.len() implies item_expression(
            #[trigger] rest[i],
            keys,
            aggregates,
            plans,
            scalar,
        ) is Some by {
            assert(rest[i] == items[i]);
        }
        lemma_all_expressions(rest, keys, aggregates, plans, scalar);
        assert(items[items.len() - 1] == items.last());
        let before = item_expressions(rest, keys, aggregates, plans, scalar);
        let out = item_expressions(items, keys, aggregates, plans, scalar);
        assert forall|i: int| 0 <= i < items.len() implies Some(#[trigger] out[i])
            == item_expression(items[i], keys, aggregates, plans, scalar) by {
            if i < rest.len() {
                assert(out[i] == before[i]);
                assert(rest[i] == items[i]);
            }
        }
    }
}

/// Items that are handed over in their places and can all be written give one column each, in their
/// order, and an item that cannot be written gives none.
pub proof fn lemma_columns_follow_the_items(
    items: Seq<GroupedSelectItemV>,
    item: GroupedSelectItemV,
    keys: Seq<Seq<char>>,
    merges: Seq<Seq<char>>,
    plans: Seq<AggregatePlanV>,
    scalar: ScalarOverMerge,
)
    ensures
        item_expressions(Seq::empty(), keys, merges, plans, scalar).len() == 0,
        item_expressions(items.push(item), keys, merges, plans, scalar) == match item_expression(
            item,
            keys,
            merges,
            plans,
            scalar,
        ) {
            Some(text) => item_expressions(items, keys, merges, plans, scalar).push(text),
            None => item_expressions(items, keys, merges, plans, scalar),
        },
{
    let written = |i: GroupedSelectItemV| item_expression(i, keys, merges, plans, scalar);
    assert(items.push(item).drop_last() =~= items);
    assert(items.push(item).filter_map(written) =~= match written(item) {
        Some(text) => items.filter_map(written).push(text),
        None => items.filter_map(written),
    });
}

/// The columns of the merged rows are the texts of the items in the order of the select list.
pub proof fn lemma_selects_are_the_items(scan: GroupedScanV, scalar: ScalarOverMerge)
    ensures
        scan.selects(scalar) == item_expressions(
            in_select_order(scan.select_items),
            key_selects(scan.group_keys.len(), scan.group_key_types),
            cast_merged_items(scan.aggregates, scan.aggregate_types),
            scan.aggregates,
            scalar,
        ),
{
}

/// The merged rows of a recognised aggregation have one column for each item of the select list, in
/// its order, as long as each expression over aggregates has a text.
pub proof fn lemma_merged_rows_follow_the_select_list(
    pushdown_req: JsonV,
    reader: AggregateReaderV,
    scan: GroupedScanV,
    scalar: ScalarOverMerge,
)
    requires
        pushdown_req.nonempty_items_field("selectList"@) matches Some(list) && list.len()
            <= usize::MAX,
        pushdown_req.nonempty_items_field("groupBy"@) matches Some(keys) && keys.len()
            <= usize::MAX,
        grouped_aggregation(pushdown_req, reader) matches Some(found) && found.plans.len()
            <= usize::MAX && scan.group_keys.len() == found.group_keys.len() && scan.aggregates
            == found.plans && scan.select_items == found.select_items && forall|i: int|
            0 <= i < found.select_items.len() ==> (
            #[trigger] found.select_items[i] matches GroupedSelectItemV::ScalarOverAggregate {
                node,
                ..
            } ==> scalar(
                node,
                found.plans,
                crate::aggregates::merged_items(found.plans),
            ) is Some),
    ensures
        scan.selects(scalar).len() == pushdown_req.nonempty_items_field("selectList"@)->0.len(),
        forall|i: int|
            0 <= i < scan.selects(scalar).len() ==> Some(#[trigger] scan.selects(scalar)[i])
                == item_expression(
                scan.select_items[i],
                key_selects(scan.group_keys.len(), scan.group_key_types),
                cast_merged_items(scan.aggregates, scan.aggregate_types),
                scan.aggregates,
                scalar,
            ),
{
    let found = grouped_aggregation(pushdown_req, reader)->0;
    let items = found.select_items;
    let list = pushdown_req.nonempty_items_field("selectList"@)->0;
    lemma_items_follow_the_select_list(pushdown_req, reader);
    assert(is_ordered(items)) by {
        assert forall|i: int, j: int| 0 <= i < j < items.len() implies (
        #[trigger] items[i]).index() <= (#[trigger] items[j]).index() by {
            assert(stands_for(items[i], i, list[i], found.group_keys, found.plans, reader));
            assert(stands_for(items[j], j, list[j], found.group_keys, found.plans, reader));
        }
    }
    lemma_ordered_items_stay(items);
    let keys = key_selects(scan.group_keys.len(), scan.group_key_types);
    let merged = cast_merged_items(scan.aggregates, scan.aggregate_types);
    assert forall|i: int| 0 <= i < items.len() implies item_expression(
        #[trigger] items[i],
        keys,
        merged,
        scan.aggregates,
        scalar,
    ) is Some by {
        assert(stands_for(items[i], i, list[i], found.group_keys, found.plans, reader));
    }
    lemma_all_expressions(items, keys, merged, scan.aggregates, scalar);
}

/// How many partial results plans are computed from.
pub open spec fn partial_count(plans: Seq<AggregatePlanV>) -> nat
    decreases plans.len(),
{
    if plans.len() == 0 {
        0
    } else {
        partial_count(plans.drop_last()) + plans.last().kind.partials().len()
    }
}

proof fn lemma_partial_emits_count(
    plans: Seq<AggregatePlanV>,
    col_types: Seq<ColumnTypeV>,
    types: Seq<Seq<char>>,
)
    ensures
        partial_emits(plans, col_types, types).len() == partial_count(plans),
    decreases plans.len(),
{
    if plans.len() > 0 {
        lemma_partial_emits_count(plans.drop_last(), col_types, types);
    }
}

/// Shards emit one column for each group key and one for each partial result.
pub proof fn lemma_emitted_columns(scan: GroupedScanV)
    ensures
        scan.emits().len() == scan.group_keys.len() + partial_count(scan.aggregates),
{
    lemma_partial_emits_count(scan.aggregates, scan.col_types, scan.aggregate_types);
}

/// Further plans add columns behind those of the plans before them, and change none.
pub proof fn lemma_emitted_columns_grow(
    plans: Seq<AggregatePlanV>,
    count: int,
    col_types: Seq<ColumnTypeV>,
    types: Seq<Seq<char>>,
)
    requires
        0 <= count <= plans.len(),
    ensures
        partial_emits(plans.take(count), col_types, types).is_prefix_of(
            partial_emits(plans, col_types, types),
        ),
    decreases plans.len(),
{
    let head = partial_emits(plans.take(count), col_types, types);
    let all = partial_emits(plans, col_types, types);
    if count == plans.len() {
        assert(plans.take(count) =~= plans);
        assert(all.take(all.len() as int) =~= all);
    } else {
        let rest = plans.drop_last();
        lemma_emitted_columns_grow(rest, count, col_types, types);
        assert(rest.take(count) =~= plans.take(count));
        let before = partial_emits(rest, col_types, types);
        assert(head =~= before.take(head.len() as int));
        assert(all.take(head.len() as int) =~= before.take(head.len() as int));
    }
}

/// The text of a number is made of digits and reads as the number.
pub proof fn lemma_decimal_reads_back(value: nat)
    ensures
        is_numeral(decimal(value)),
        numeral_value(decimal(value)) == value,
    decreases value,
{
    let text = decimal(value);
    let digit = value % 10;
    assert(digit_char(digit) as int == 48 + digit);
    if value < 10 {
        assert(text.drop_last() =~= Seq::empty());
        assert(numeral_value(text.drop_last()) == 0);
    } else {
        lemma_decimal_reads_back(value / 10);
        assert(text.drop_last() =~= decimal(value / 10));
        assert forall|i: int| 0 <= i < text.len() implies '0' <= #[trigger] text[i] <= '9' by {
            if i < text.len() - 1 {
                assert(text[i] == decimal(value / 10)[i]);
            }
        }
    }
}

/// A sum of sums is carried in the type of the sums.
pub proof fn lemma_sum_type_is_stable(column_type: Seq<char>)
    ensures
        sum_type(sum_type(column_type)) == sum_type(column_type),
{
    reveal_strlit("DECIMAL(");
    reveal_strlit("DECIMAL(36,");
    reveal_strlit(")");
    reveal_strlit("DOUBLE PRECISION");
    match decimal_args(column_type) {
        Some((_, scale)) => {
            let digits = signed_decimal(scale);
            let magnitude = if scale < 0 {
                -scale
            } else {
                scale
            };
            lemma_decimal_reads_back(magnitude as nat);
            assert(decimal(magnitude as nat) =~= if scale < 0 {
                digits.skip(1)
            } else {
                digits
            });
            assert(digits.len() > 0);
            assert forall|i: int| 0 <= i < digits.len() implies #[trigger] digits[i] == '-'
                || '0' <= digits[i] <= '9' by {
                if scale < 0 && i > 0 {
                    assert(digits[i] == decimal(magnitude as nat)[i - 1]);
                }
            }
            let name = sum_type(column_type);
            let args = name.subrange(8, name.len() - 1);
            assert(name.take(8) =~= "DECIMAL("@);
            assert(args =~= seq!['3', '6', ','] + digits);
            args.index_of_first_ensures(',');
            assert(args[2] == ',');
            assert(args.index_of_first(',') == Some(2int));
            assert(args.take(2) =~= seq!['3', '6']);
            assert(args.skip(3) =~= digits);
            assert(seq!['3', '6'].drop_last() =~= seq!['3']);
            assert(seq!['3'].drop_last() =~= Seq::empty());
            assert(numeral_value(Seq::empty()) == 0);
            assert(numeral_value(seq!['3']) == 3);
            assert(numeral_value(seq!['3', '6']) == 36);
            assert(trimmed(digits) == digits);
            assert(small_signed_reading(digits) == Some(scale));
        },
        None => {
            let name = "DOUBLE PRECISION"@;
            assert(name[1] != "DECIMAL("@[1]);
            assert(name.take(8)[1] == name[1]);
        },
    }
}

/// Only group keys of a `CHAR(n)` type are padded.
pub proof fn lemma_only_char_keys_are_padded(
    group_keys: Seq<Seq<char>>,
    types: Seq<Seq<char>>,
    slot: int,
)
    requires
        0 <= slot < group_keys.len(),
        at(types, slot) matches Some(declared) ==> char_type_width(declared) is None,
    ensures
        padded_keys(group_keys, types).len() == group_keys.len(),
        padded_keys(group_keys, types)[slot] == group_keys[slot],
{
}

/// A `VARCHAR(n)` type is no `CHAR(n)` type.
pub proof fn lemma_varchar_is_not_char(rest: Seq<char>)
    ensures
        char_type_width("VARCHAR("@ + rest) is None,
{
    reveal_strlit("VARCHAR(");
    reveal_strlit("CHAR(");
    let name = "VARCHAR("@ + rest;
    assert(name[0] == 'V');
    if name.take(5) == "CHAR("@ {
        assert(name.take(5)[0] == 'C');
    }
}

/// An aggregate over an expression is taken to be over numbers.
pub proof fn lemma_expression_arguments_are_numeric(
    plan: AggregatePlanV,
    col_types: Seq<ColumnTypeV>,
)
    requires
        plan.column is None,
    ensures
        well_typed(plan, col_types),
{
}

} // verus!
