//! Reading a grouped aggregation off a request.

use crate::aggregates::AggregatePlanV;
use crate::grouped_agg::detection::{declared_type_at, grouped_aggregation, is_literal_type,
    node_type, read_items, rendered_nodes, select_type, AggregateReaderV, GroupedSelectItemV, PlanTableV,
    SelectStateV};
use crate::json::JsonV;
use crate::laws::grouped::{lemma_fold, lemma_fold_all, well_formed};
use crate::laws::merges::lemma_first_slot_is_found;
use crate::laws::sort_orders::lemma_first_place_is_found;
use vstd::prelude::*;

verus! {

/// Whether a node is a literal of some type.
pub open spec fn is_literal(node: JsonV) -> bool {
    ||| node.is_kind("literal_null"@)
    ||| node.is_kind("literal_bool"@)
    ||| node.is_kind("literal_string"@)
    ||| node.is_kind("literal_exactnumeric"@)
    ||| node.is_kind("literal_double"@)
    ||| node.is_kind("literal_date"@)
    ||| node.is_kind("literal_timestamp"@)
    ||| node.is_kind("literal_timestamp_utc"@)
    ||| node.is_kind("literal_timestamputc"@)
}

proof fn lemma_literals_are_no_aggregates(node: JsonV)
    ensures
        is_literal(node) ==> !node.is_kind("function_aggregate"@),
        node.text_field("type"@) matches Some(kind) ==> is_literal_type(kind) == is_literal(node),
        !is_literal_type(Seq::empty()),
{
    reveal_strlit("literal_null");
    reveal_strlit("literal_bool");
    reveal_strlit("literal_string");
    reveal_strlit("literal_exactnumeric");
    reveal_strlit("literal_double");
    reveal_strlit("literal_date");
    reveal_strlit("literal_timestamp");
    reveal_strlit("literal_timestamp_utc");
    reveal_strlit("literal_timestamputc");
    reveal_strlit("function_aggregate");
    if is_literal(node) && node.is_kind("function_aggregate"@) {
        assert(node.text_field("type"@)->0[0] == 'l');
    }
    assert(Seq::<char>::empty().len() == 0);
    assert("literal_null"@.len() == 12);
    assert("literal_bool"@.len() == 12);
    assert("literal_string"@.len() == 14);
    assert("literal_exactnumeric"@.len() == 20);
    assert("literal_double"@.len() == 14);
    assert("literal_date"@.len() == 12);
    assert("literal_timestamp"@.len() == 17);
    assert("literal_timestamp_utc"@.len() == 21);
    assert("literal_timestamputc"@.len() == 20);
}

/// The texts of nodes are, place by place, those of the nodes; there are some exactly where every
/// node has one.
pub proof fn lemma_texts_in_place(
    nodes: Seq<JsonV>,
    render: spec_fn(JsonV) -> Option<Seq<char>>,
)
    ensures
        rendered_nodes(nodes, render) is Some <==> forall|i: int|
            0 <= i < nodes.len() ==> render(#[trigger] nodes[i]) is Some,
        rendered_nodes(nodes, render) matches Some(texts) ==> texts.len() == nodes.len() && forall|
            i: int,
        | 0 <= i < nodes.len() ==> Some(#[trigger] texts[i]) == render(nodes[i]),
    decreases nodes.len(),
{
    if nodes.len() > 0 {
        let rest = nodes.drop_last();
        lemma_texts_in_place(rest, render);
        assert(nodes[nodes.len() - 1] == nodes.last());
        if forall|i: int| 0 <= i < nodes.len() ==> render(#[trigger] nodes[i]) is Some {
            assert forall|i: int| 0 <= i < rest.len() implies render(#[trigger] rest[i]) is Some by {
                assert(rest[i] == nodes[i]);
            }
        }
        if rendered_nodes(nodes, render) is Some {
            assert forall|i: int| 0 <= i < nodes.len() implies render(
                #[trigger] nodes[i],
            ) is Some by {
                if i < rest.len() {
                    assert(rest[i] == nodes[i]);
                }
            }
        }
    }
}

/// Folding in a plan with a declared type gives its slot that type and leaves the types of every
/// other slot. Without one, a plan that is there keeps its type and a new one is floating point.
pub proof fn lemma_fold_types(
    table: PlanTableV,
    plan: AggregatePlanV,
    declared: Option<Seq<char>>,
    slot: int,
)
    requires
        well_formed(table),
    ensures
        ({
            let after = table.fold(plan, declared);
            &&& declared matches Some(stated) ==> after.types[table.slot_of(plan)] == stated
            &&& 0 <= slot < table.plans.len() && (slot != table.slot_of(plan) || declared is None)
                ==> after.types[slot] == table.types[slot]
            &&& declared is None && !table.plans.contains(plan)
                ==> after.types[table.slot_of(plan)] == "DOUBLE PRECISION"@
            &&& table.plans.contains(plan) ==> after.plans == table.plans
            &&& !table.plans.contains(plan) ==> after.plans == table.plans.push(plan)
                && table.slot_of(plan) == table.plans.len()
        }),
{
    lemma_first_slot_is_found(table.plans, plan);
}

/// Folding plans without declared types in keeps the plans and types that are there, adds the plans
/// that are not, and takes those as floating point.
pub proof fn lemma_fold_all_types(table: PlanTableV, plans: Seq<AggregatePlanV>)
    requires
        well_formed(table),
    ensures
        ({
            let after = table.fold_all(plans);
            &&& forall|i: int|
                0 <= i < table.types.len() ==> #[trigger] after.types[i] == table.types[i]
            &&& forall|i: int|
                table.types.len() <= i < after.types.len() ==> #[trigger] after.types[i]
                    == "DOUBLE PRECISION"@
            &&& forall|i: int|
                0 <= i < plans.len() ==> after.plans.contains(#[trigger] plans[i])
            &&& forall|i: int|
                table.plans.len() <= i < after.plans.len() ==> plans.contains(
                    #[trigger] after.plans[i],
                )
        }),
    decreases plans.len(),
{
    lemma_fold_all(table, plans);
    if plans.len() > 0 {
        let rest = plans.drop_last();
        lemma_fold_all(table, rest);
        lemma_fold_all_types(table, rest);
        let before = table.fold_all(rest);
        let after = table.fold_all(plans);
        let plan = plans.last();
        lemma_fold(before, plan, None);
        lemma_fold_types(before, plan, None, 0);
        lemma_first_slot_is_found(before.plans, plan);
        assert forall|i: int| 0 <= i < before.types.len() implies #[trigger] after.types[i]
            == before.types[i] by {
            lemma_fold_types(before, plan, None, i);
        }
        assert forall|i: int| table.types.len() <= i < after.types.len() implies
            #[trigger] after.types[i] == "DOUBLE PRECISION"@ by {
            if i < before.types.len() {
                assert(after.types[i] == before.types[i]);
            }
        }
        assert forall|i: int| 0 <= i < plans.len() implies after.plans.contains(
            #[trigger] plans[i],
        ) by {
            if i < rest.len() {
                assert(rest[i] == plans[i]);
                assert(before.plans.contains(rest[i]));
                let k = choose|k: int| 0 <= k < before.plans.len() && before.plans[k] == rest[i];
                assert(after.plans[k] == before.plans[k]);
            } else {
                assert(after.plans[before.slot_of(plan)] == plan);
            }
        }
        assert forall|i: int| table.plans.len() <= i < after.plans.len() implies plans.contains(
            #[trigger] after.plans[i],
        ) by {
            if i < before.plans.len() {
                assert(after.plans[i] == before.plans[i]);
                let k = choose|k: int| 0 <= k < rest.len() && rest[k] == before.plans[i];
                assert(plans[k] == rest[k]);
            } else {
                assert(after.plans[i] == plan);
                assert(plans[plans.len() - 1] == plan);
            }
        }
    }
}

/// An aggregate item is understood exactly where it decomposes. Its plan is among the plans then,
/// once, in the slot that the item names, with the type of the item's own place in the select list;
/// nothing else of the plans changes but for one that is added behind them.
pub proof fn lemma_aggregate_items(
    state: SelectStateV,
    pushdown_req: JsonV,
    group_keys: Seq<Seq<char>>,
    item: JsonV,
    index: usize,
    reader: AggregateReaderV,
)
    requires
        well_formed(state.table),
        state.table.plans.len() < usize::MAX,
        item.is_kind("function_aggregate"@),
    ensures
        state.read(pushdown_req, group_keys, item, index, reader) is Some <==> (reader.aggregate)(
            item,
        ) is Some,
        state.read(pushdown_req, group_keys, item, index, reader) matches Some(next) ==> {
            let plan = (reader.aggregate)(item)->0;
            let slot = next.items.last()->plan_slot;
            &&& next.items == state.items.push(
                GroupedSelectItemV::Aggregate { plan_slot: slot, select_index: index },
            )
            &&& slot < next.table.plans.len()
            &&& next.table.plans[slot as int] == plan
            &&& next.table.types[slot as int] == select_type(
                pushdown_req,
                index as int,
                reader.exasol_type,
            )
            &&& next.table.plans == if state.table.plans.contains(plan) {
                state.table.plans
            } else {
                state.table.plans.push(plan)
            }
            &&& forall|i: int|
                0 <= i < state.table.types.len() && i != slot ==> #[trigger] next.table.types[i]
                    == state.table.types[i]
        },
{
    if let Some(plan) = (reader.aggregate)(item) {
        let declared = select_type(pushdown_req, index as int, reader.exasol_type);
        lemma_fold(state.table, plan, Some(declared));
        lemma_fold_types(state.table, plan, Some(declared), 0);
        let next = state.table.fold(plan, Some(declared));
        assert forall|i: int|
            0 <= i < state.table.types.len() && i != state.table.slot_of(
                plan,
            ) implies #[trigger] next.types[i] == state.table.types[i] by {
            lemma_fold_types(state.table, plan, Some(declared), i);
        }
    }
}

/// A literal is a constant in its place, cast to the type that is declared there and bare where none
/// is; it is understood exactly where it has a text.
pub proof fn lemma_literal_items(
    state: SelectStateV,
    pushdown_req: JsonV,
    group_keys: Seq<Seq<char>>,
    item: JsonV,
    index: usize,
    reader: AggregateReaderV,
)
    requires
        is_literal(item),
    ensures
        state.read(pushdown_req, group_keys, item, index, reader) == match (reader.expression)(
            item,
        ) {
            Some(sql) => Some(
                SelectStateV {
                    table: state.table,
                    items: state.items.push(
                        GroupedSelectItemV::Constant {
                            select_index: index,
                            projection: match declared_type_at(
                                pushdown_req,
                                index as int,
                                reader.exasol_type,
                            ) {
                                Some(declared) => "CAST("@ + sql + " AS "@ + declared + ")"@,
                                None => sql,
                            },
                        },
                    ),
                },
            ),
            None => None,
        },
{
    lemma_literals_are_no_aggregates(item);
}

/// Any other item is a group key where its text is that of one, the first of them, and otherwise an
/// expression over aggregates, kept as it is with the type of its own place; it is not understood
/// where it is neither.
pub proof fn lemma_other_items(
    state: SelectStateV,
    pushdown_req: JsonV,
    group_keys: Seq<Seq<char>>,
    item: JsonV,
    index: usize,
    reader: AggregateReaderV,
)
    requires
        !is_literal(item),
        !item.is_kind("function_aggregate"@),
        group_keys.len() <= usize::MAX,
    ensures
        ((reader.expression)(item) matches Some(sql) && group_keys.contains(sql)) ==> {
            &&& state.read(pushdown_req, group_keys, item, index, reader) matches Some(next)
            &&& next.table == state.table
            &&& exists|slot: usize|
                slot < group_keys.len() && next.items == #[trigger] state.items.push(
                    GroupedSelectItemV::GroupKey { group_key_slot: slot, select_index: index },
                ) && Some(group_keys[slot as int]) == (reader.expression)(item) && forall|i: int|
                    0 <= i < slot ==> Some(#[trigger] group_keys[i]) != (reader.expression)(item)
        },
        ((reader.expression)(item) matches Some(sql) ==> !group_keys.contains(sql)) ==> match (
        reader.nested)(item) {
            Some(plans) => state.read(pushdown_req, group_keys, item, index, reader) == Some(
                SelectStateV {
                    table: state.table.fold_all(plans),
                    items: state.items.push(
                        GroupedSelectItemV::ScalarOverAggregate {
                            select_index: index,
                            node: item,
                            declared_type: select_type(
                                pushdown_req,
                                index as int,
                                reader.exasol_type,
                            ),
                        },
                    ),
                },
            ),
            None => state.read(pushdown_req, group_keys, item, index, reader) is None,
        },
{
    lemma_literals_are_no_aggregates(item);
    reveal_strlit("function_aggregate");
    let kind = node_type(item);
    assert(kind != "function_aggregate"@) by {
        if item.text_field("type"@) is None {
            assert(kind.len() == 0);
            assert("function_aggregate"@.len() == 18);
        }
    }
    assert(!is_literal_type(kind));
    if let Some(sql) = (reader.expression)(item) {
        lemma_first_place_is_found(group_keys, sql);
        if group_keys.contains(sql) {
            let slot = crate::grouped_agg::detection::position(group_keys, sql)->0;
            let next = state.read(pushdown_req, group_keys, item, index, reader)->0;
            assert(next.items == state.items.push(
                GroupedSelectItemV::GroupKey { group_key_slot: slot, select_index: index },
            ));
        }
    }
}

/// The items of a select list are read left to right, each under its own index, from nothing.
pub proof fn lemma_items_are_read_in_order(
    pushdown_req: JsonV,
    group_keys: Seq<Seq<char>>,
    list: Seq<JsonV>,
    reader: AggregateReaderV,
    n: int,
)
    requires
        0 <= n < list.len() <= usize::MAX,
    ensures
        read_items(pushdown_req, group_keys, list, reader, 0) matches Some(state)
            && state.items.len() == 0 && state.table.plans.len() == 0 && state.table.types.len()
            == 0,
        read_items(pushdown_req, group_keys, list, reader, n + 1) == match read_items(
            pushdown_req,
            group_keys,
            list,
            reader,
            n,
        ) {
            Some(state) => state.read(pushdown_req, group_keys, list[n], n as usize, reader),
            None => None,
        },
{
}

/// A request is a grouped aggregation exactly where it says so, has group keys that all have texts,
/// and has a select list whose items are all understood. Its group keys are the texts of the
/// request's, place by place, and its plans and items are what the select list gives.
pub proof fn lemma_what_is_a_grouped_aggregation(
    pushdown_req: JsonV,
    keys: Seq<JsonV>,
    list: Seq<JsonV>,
    reader: AggregateReaderV,
)
    requires
        pushdown_req.field("groupBy"@) == Some(JsonV::Array(keys)),
        pushdown_req.field("selectList"@) == Some(JsonV::Array(list)),
        keys.len() > 0,
        list.len() > 0,
    ensures
        grouped_aggregation(pushdown_req, reader) matches Some(found) ==> {
            &&& pushdown_req.field("aggregationType"@) == Some(JsonV::Str("group_by"@))
            &&& found.group_keys.len() == keys.len()
            &&& forall|i: int|
                0 <= i < keys.len() ==> Some(#[trigger] found.group_keys[i]) == (reader.expression)(
                    keys[i],
                )
            &&& read_items(
                pushdown_req,
                found.group_keys,
                list,
                reader,
                list.len() as int,
            ) matches Some(state)
            &&& found.plans == state.table.plans
            &&& found.plan_types == state.table.types
            &&& found.select_items == state.items
        },
        grouped_aggregation(pushdown_req, reader) is None ==> {
            ||| pushdown_req.field("aggregationType"@) != Some(JsonV::Str("group_by"@))
            ||| exists|i: int|
                0 <= i < keys.len() && (reader.expression)(#[trigger] keys[i]) is None
            ||| read_items(
                pushdown_req,
                Seq::new(keys.len(), |i: int| (reader.expression)(keys[i])->0),
                list,
                reader,
                list.len() as int,
            ) is None
        },
{
    assert(pushdown_req.nonempty_items_field("groupBy"@) == Some(keys));
    assert(pushdown_req.nonempty_items_field("selectList"@) == Some(list));
    lemma_texts_in_place(keys, reader.expression);
    if let Some(texts) = rendered_nodes(keys, reader.expression) {
        assert(texts =~= Seq::new(keys.len(), |i: int| (reader.expression)(keys[i])->0));
    }
}

/// A request without group keys or without a select list is no grouped aggregation.
pub proof fn lemma_nothing_to_group(pushdown_req: JsonV, reader: AggregateReaderV)
    requires
        pushdown_req.nonempty_items_field("groupBy"@) is None || pushdown_req.nonempty_items_field(
            "selectList"@,
        ) is None,
    ensures
        grouped_aggregation(pushdown_req, reader) is None,
{
}

} // verus!
