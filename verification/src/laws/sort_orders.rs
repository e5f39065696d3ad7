//! Sort orders and windows are those of the request, key by key.

use crate::grouped_agg::detection::{position, GroupedAggregateDetectionV, GroupedSelectItemV};
use crate::grouped_agg::having::{having_text, MergeWriterV};
use crate::grouped_agg::order::{grouped_order, key_ordinal, order_element, order_elements,
    output_ordinal, GroupedOrderByV};
use crate::joins::attribution::JoinLegsV;
use crate::joins::clauses::{order_by_sql, order_element_sql, order_elements_sql, Renderer};
use crate::joins::planning::{aggregates, column_sort_keys, has_aggregate_item, join_window,
    JoinWindowPlanV};
use crate::json::JsonV;
use crate::laws::join_queries::declined_because;
use crate::ordering::{limit_of, limit_offset, offset_of, ordered, ordered_key, ordered_keys,
    ordered_wrapper, sort_flags, sort_key, ParsedSortKeyV, SortKeyV};
use crate::text::{decimal, joined, quoted};
use vstd::prelude::*;

verus! {

/// Whether an element of an `orderBy` sorts by `expr`, in the given direction and with the given
/// null placement.
pub open spec fn sorts_by(element: JsonV, expr: JsonV, ascending: bool, nulls_last: bool) -> bool {
    &&& element.field("expression"@) == Some(expr)
    &&& element.field("isAscending"@) == Some(JsonV::Bool(ascending))
    &&& element.field("nullsLast"@) == Some(JsonV::Bool(nulls_last))
}

/// What stands behind a sort key.
pub open spec fn direction(ascending: bool, nulls_last: bool) -> Seq<char> {
    match (ascending, nulls_last) {
        (true, true) => " ASC NULLS LAST"@,
        (true, false) => " ASC NULLS FIRST"@,
        (false, true) => " DESC NULLS LAST"@,
        (false, false) => " DESC NULLS FIRST"@,
    }
}

/// A sort key is written with its direction and its null placement behind it.
pub proof fn lemma_directions_are_written(expr: Seq<char>, ascending: bool, nulls_last: bool)
    ensures
        ordered(expr, ascending, nulls_last) == expr + direction(ascending, nulls_last),
{
    reveal_strlit(" ASC");
    reveal_strlit(" DESC");
    reveal_strlit(" NULLS LAST");
    reveal_strlit(" NULLS FIRST");
    reveal_strlit(" ASC NULLS LAST");
    reveal_strlit(" ASC NULLS FIRST");
    reveal_strlit(" DESC NULLS LAST");
    reveal_strlit(" DESC NULLS FIRST");
    assert(ordered(expr, ascending, nulls_last) =~= expr + direction(ascending, nulls_last));
}

/// An element has flags exactly where it states both of them, and then these.
pub proof fn lemma_flags_are_read(element: JsonV, ascending: bool, nulls_last: bool)
    ensures
        sort_flags(element) == Some((ascending, nulls_last)) <==> element.field("isAscending"@)
            == Some(JsonV::Bool(ascending)) && element.field("nullsLast"@) == Some(
            JsonV::Bool(nulls_last),
        ),
{
}

/// An element is a column sort key exactly where it sorts by a column node with a name, and then it
/// is that name with the direction and the null placement that the element states.
pub proof fn lemma_sort_keys_are_read(element: JsonV, key: SortKeyV)
    ensures
        sort_key(element) == Some(key) <==> exists|expr: JsonV|
            sorts_by(element, expr, key.ascending, key.nulls_last) && expr.field("type"@) == Some(
                JsonV::Str("column"@),
            ) && #[trigger] expr.field("name"@) == Some(JsonV::Str(key.column)),
{
    if sort_key(element) == Some(key) {
        let expr = element.field("expression"@)->0;
        assert(expr.field("name"@) == Some(JsonV::Str(key.column)));
    }
}

/// The column sort keys of elements are, place by place, those of the elements; there are some
/// exactly where every element has one.
pub proof fn lemma_sort_keys_in_place(elements: Seq<JsonV>)
    ensures
        column_sort_keys(elements) is Some <==> forall|i: int|
            0 <= i < elements.len() ==> sort_key(#[trigger] elements[i]) is Some,
        column_sort_keys(elements) matches Some(keys) ==> keys.len() == elements.len() && forall|
            i: int,
        |
            0 <= i < elements.len() ==> #[trigger] keys[i] == ParsedSortKeyV::Column(
                sort_key(elements[i])->0,
            ),
    decreases elements.len(),
{
    if elements.len() > 0 {
        let rest = elements.drop_last();
        lemma_sort_keys_in_place(rest);
        assert(elements[elements.len() - 1] == elements.last());
        if forall|i: int| 0 <= i < elements.len() ==> sort_key(#[trigger] elements[i]) is Some {
            assert forall|i: int| 0 <= i < rest.len() implies sort_key(#[trigger] rest[i]) is Some
                by {
                assert(rest[i] == elements[i]);
            }
        }
        if column_sort_keys(elements) is Some {
            assert forall|i: int| 0 <= i < elements.len() implies sort_key(
                #[trigger] elements[i],
            ) is Some by {
                if i < rest.len() {
                    assert(rest[i] == elements[i]);
                }
            }
        }
    }
}

/// The limit of a request is the number of elements that its limit asks for, and the offset the
/// number that it skips, which is zero where none is stated.
pub proof fn lemma_limits_are_read(request: JsonV, limit: JsonV, rows: u64, skipped: u64)
    requires
        request.field("limit"@) == Some(limit),
    ensures
        limit_of(request) == Some(rows) <==> limit.field("numElements"@) == Some(
            JsonV::Unsigned(rows),
        ),
        limit.field("offset"@) == Some(JsonV::Unsigned(skipped)) ==> offset_of(request) == skipped,
        limit.field("offset"@) is None ==> offset_of(request) == 0,
        offset_of(request) != 0 ==> limit.field("offset"@) == Some(
            JsonV::Unsigned(offset_of(request)),
        ),
{
}

/// A request without a limit asks for every row and skips none.
pub proof fn lemma_no_limit(request: JsonV)
    requires
        request.field("limit"@) is None,
    ensures
        limit_of(request) is None,
        offset_of(request) == 0,
{
}

/// A limit is written with the rows to skip behind it, where there are any; without a limit nothing
/// is written.
pub proof fn lemma_windows_are_written(rows: u64, skipped: u64)
    ensures
        limit_offset(None, skipped).len() == 0,
        limit_offset(Some(rows), 0) == " LIMIT "@ + decimal(rows as nat),
        skipped > 0 ==> limit_offset(Some(rows), skipped) == " LIMIT "@ + decimal(rows as nat)
            + " OFFSET "@ + decimal(skipped as nat),
{
}

/// A request aggregates when an item of its select list is an aggregate, when it has group keys,
/// when it says so, or when it has a `HAVING`, and in no other case.
pub proof fn lemma_what_aggregates(pushdown_req: JsonV)
    ensures
        aggregates(pushdown_req) <==> {
            ||| pushdown_req.field("selectList"@) matches Some(JsonV::Array(list)) && exists|j: int|
                0 <= j < list.len() && (#[trigger] list[j]).field("type"@) == Some(
                    JsonV::Str("function_aggregate"@),
                )
            ||| pushdown_req.field("groupBy"@) matches Some(JsonV::Array(keys)) && keys.len() > 0
            ||| pushdown_req.field("aggregationType"@) == Some(JsonV::Str("group_by"@))
            ||| pushdown_req.field("having"@) matches Some(having) && having != JsonV::Null
        },
{
    if let Some(JsonV::Array(list)) = pushdown_req.field("selectList"@) {
        if has_aggregate_item(list) {
            let j = choose|j: int|
                0 <= j < list.len() && (#[trigger] list[j]).is_kind("function_aggregate"@);
            assert(list[j].field("type"@) == Some(JsonV::Str("function_aggregate"@)));
        }
        assert forall|j: int|
            0 <= j < list.len() && (#[trigger] list[j]).field("type"@) == Some(
                JsonV::Str("function_aggregate"@),
            ) implies has_aggregate_item(list) by {
            assert(list[j].is_kind("function_aggregate"@));
        }
    }
}

/// Whether a request has a sort order.
pub open spec fn has_sort_order(pushdown_req: JsonV) -> bool {
    pushdown_req.field("orderBy"@) matches Some(JsonV::Array(elements)) && elements.len() > 0
}

/// A window that is served by sorting has the limit and the offset of the request, and one key for
/// each element of its `orderBy`, in its place.
pub proof fn lemma_ordered_window(pushdown_req: JsonV)
    ensures
        join_window(pushdown_req) matches JoinWindowPlanV::Ordered { keys, limit, offset } ==> {
            &&& limit == limit_of(pushdown_req)
            &&& offset == offset_of(pushdown_req)
            &&& !aggregates(pushdown_req)
            &&& pushdown_req.field("orderBy"@) matches Some(JsonV::Array(elements))
                && keys.len() == elements.len() && elements.len() > 0 && forall|i: int|
                0 <= i < elements.len() ==> Some(#[trigger] keys[i]) == match sort_key(
                    elements[i],
                ) {
                    Some(key) => Some(ParsedSortKeyV::Column(key)),
                    None => None,
                }
        },
{
    if join_window(pushdown_req) is Ordered {
        let elements = pushdown_req.nonempty_items_field("orderBy"@)->0;
        lemma_sort_keys_in_place(elements);
    }
}

/// Which windows are served how: by sorting where every element of a sort order is a column, by a
/// cut where there is a limit and nothing else, by nothing where there is neither, and by the
/// reading engine in every other case.
pub proof fn lemma_windows_are_classified(pushdown_req: JsonV)
    ensures
        aggregates(pushdown_req) ==> join_window(pushdown_req) is ExasolPostProcessed,
        !aggregates(pushdown_req) && has_sort_order(pushdown_req) ==> {
            let elements = pushdown_req.field("orderBy"@)->0->Array_0;
            if forall|i: int| 0 <= i < elements.len() ==> sort_key(#[trigger] elements[i]) is Some {
                join_window(pushdown_req) is Ordered
            } else {
                join_window(pushdown_req) is ExasolPostProcessed
            }
        },
        !aggregates(pushdown_req) && !has_sort_order(pushdown_req) ==> match (
            limit_of(pushdown_req),
            offset_of(pushdown_req) == 0,
        ) {
            (Some(rows), true) => join_window(pushdown_req) == JoinWindowPlanV::BareLimit(rows),
            (None, true) => join_window(pushdown_req) is Unbounded,
            (_, false) => join_window(pushdown_req) is ExasolPostProcessed,
        },
{
    if has_sort_order(pushdown_req) {
        let elements = pushdown_req.field("orderBy"@)->0->Array_0;
        assert(pushdown_req.nonempty_items_field("orderBy"@) == Some(elements));
        lemma_sort_keys_in_place(elements);
    } else {
        assert(pushdown_req.nonempty_items_field("orderBy"@) is None);
    }
}

/// A sort key is written by the quoted name of its column, or by its expression, with its direction
/// and null placement.
pub proof fn lemma_keys_are_written(key: ParsedSortKeyV)
    ensures
        ordered_key(key) == match key {
            ParsedSortKeyV::Column(column) => quoted(column.column) + direction(
                column.ascending,
                column.nulls_last,
            ),
            ParsedSortKeyV::Expression { expr, ascending, nulls_last } => expr + direction(
                ascending,
                nulls_last,
            ),
        },
{
    match key {
        ParsedSortKeyV::Column(column) => {
            lemma_directions_are_written(
                quoted(column.column),
                column.ascending,
                column.nulls_last,
            );
        },
        ParsedSortKeyV::Expression { expr, ascending, nulls_last } => {
            lemma_directions_are_written(expr, ascending, nulls_last);
        },
    }
}

/// A query that sorts selects the visible columns of the scan in parentheses, sorts by the keys in
/// their order, and cuts behind that.
pub proof fn lemma_sorted_queries_are_written(
    fan_out: Seq<char>,
    visible: Seq<Seq<char>>,
    keys: Seq<ParsedSortKeyV>,
    limit: Option<u64>,
    offset: u64,
)
    ensures
        keys.len() == 0 ==> ordered_wrapper(fan_out, visible, keys, limit, offset) == fan_out,
        keys.len() > 0 ==> ordered_wrapper(fan_out, visible, keys, limit, offset) == "SELECT "@
            + joined(visible, ", "@) + " FROM ("@ + fan_out + ") ORDER BY "@ + joined(
            Seq::new(keys.len(), |i: int| ordered_key(keys[i])),
            ", "@,
        ) + limit_offset(limit, offset),
{
    assert(ordered_keys(keys) =~= Seq::new(keys.len(), |i: int| ordered_key(keys[i])));
}

/// Whether an element sorts by an expression that can be written over the legs.
pub open spec fn sortable(element: JsonV, legs: JoinLegsV, render: Renderer) -> bool {
    exists|expr: JsonV, ascending: bool, nulls_last: bool|
        #[trigger] sorts_by(element, expr, ascending, nulls_last) && (legs.qualified(
            expr,
        ) matches Ok(tree) && render(tree) is Some)
}

/// Whether `text` sorts as an element asks: by its expression, each column qualified by its leg, in
/// its direction and with its null placement.
pub open spec fn writes_sort_key(
    text: Seq<char>,
    element: JsonV,
    legs: JoinLegsV,
    render: Renderer,
) -> bool {
    exists|expr: JsonV, ascending: bool, nulls_last: bool|
        #[trigger] sorts_by(element, expr, ascending, nulls_last) && (legs.qualified(
            expr,
        ) matches Ok(tree) && render(tree) matches Some(sql) && text == sql + direction(
            ascending,
            nulls_last,
        ))
}

proof fn lemma_order_element(element: JsonV, legs: JoinLegsV, render: Renderer)
    ensures
        order_element_sql(element, legs, render) is Ok <==> sortable(element, legs, render),
        order_element_sql(element, legs, render) matches Ok(text) ==> writes_sort_key(
            text,
            element,
            legs,
            render,
        ),
{
    if order_element_sql(element, legs, render) is Ok {
        let expr = element.field("expression"@)->0;
        let (ascending, nulls_last) = sort_flags(element)->0;
        let sql = render(legs.qualified(expr)->Ok_0)->0;
        assert(sorts_by(element, expr, ascending, nulls_last));
        lemma_directions_are_written(sql, ascending, nulls_last);
    }
    if sortable(element, legs, render) {
        let (expr, ascending, nulls_last) = choose|expr: JsonV, ascending: bool, nulls_last: bool|
            #[trigger] sorts_by(element, expr, ascending, nulls_last) && (legs.qualified(
                expr,
            ) matches Ok(tree) && render(tree) is Some);
        assert(sort_flags(element) == Some((ascending, nulls_last)));
    }
}

/// A sort key that cannot be written is declined: for itself, or for a column that could belong to
/// several legs.
pub proof fn lemma_sort_keys_are_declined(
    pushdown_req: JsonV,
    elements: Seq<JsonV>,
    legs: JoinLegsV,
    render: Renderer,
)
    requires
        pushdown_req.field("orderBy"@) == Some(JsonV::Array(elements)),
    ensures
        order_by_sql(pushdown_req, legs, render) matches Err(message) ==> exists|i: int|
            0 <= i < elements.len() && !sortable(#[trigger] elements[i], legs, render) && (forall|
                j: int,
            | 0 <= j < i ==> sortable(#[trigger] elements[j], legs, render)) && message
                == match elements[i].field("expression"@) {
                Some(expr) => if sort_flags(elements[i]) is Some && legs.qualified(expr) is Err {
                    declined_because(
                        legs.qualified(expr)->Err_0.description()
                            + " could not be attributed to a join leg, so no correct qualified reference exists"@,
                    )
                } else {
                    declined_because(
                        "an ORDER BY key could not be rendered for the qualified N-scan join"@,
                    )
                },
                None => declined_because(
                    "an ORDER BY key could not be rendered for the qualified N-scan join"@,
                ),
            },
{
    if order_by_sql(pushdown_req, legs, render) is Err {
        assert(pushdown_req.nonempty_items_field("orderBy"@) == Some(elements));
        lemma_first_unsortable(elements, legs, render);
    }
}

proof fn lemma_first_unsortable(elements: Seq<JsonV>, legs: JoinLegsV, render: Renderer)
    ensures
        order_elements_sql(elements, legs, render) matches Err(message) ==> exists|i: int|
            0 <= i < elements.len() && !sortable(#[trigger] elements[i], legs, render) && (forall|
                j: int,
            | 0 <= j < i ==> sortable(#[trigger] elements[j], legs, render)) && order_element_sql(
                elements[i],
                legs,
                render,
            ) == Err::<Seq<char>, _>(message),
    decreases elements.len(),
{
    if elements.len() > 0 && order_elements_sql(elements, legs, render) is Err {
        let message = order_elements_sql(elements, legs, render)->Err_0;
        let rest = elements.drop_last();
        lemma_first_unsortable(rest, legs, render);
        lemma_order_elements(rest, legs, render);
        lemma_order_element(elements.last(), legs, render);
        if order_elements_sql(rest, legs, render) is Err {
            let i = choose|i: int|
                0 <= i < rest.len() && !sortable(#[trigger] rest[i], legs, render) && (forall|
                    j: int,
                | 0 <= j < i ==> sortable(#[trigger] rest[j], legs, render)) && order_element_sql(
                    rest[i],
                    legs,
                    render,
                ) == Err::<Seq<char>, _>(message);
            assert(elements[i] == rest[i]);
            assert forall|j: int| 0 <= j < i implies sortable(
                #[trigger] elements[j],
                legs,
                render,
            ) by {
                assert(rest[j] == elements[j]);
            }
        } else {
            assert(elements[elements.len() - 1] == elements.last());
            assert forall|j: int| 0 <= j < rest.len() implies sortable(
                #[trigger] elements[j],
                legs,
                render,
            ) by {
                assert(rest[j] == elements[j]);
            }
        }
    }
}

proof fn lemma_order_elements(elements: Seq<JsonV>, legs: JoinLegsV, render: Renderer)
    ensures
        order_elements_sql(elements, legs, render) is Ok <==> forall|i: int|
            0 <= i < elements.len() ==> sortable(#[trigger] elements[i], legs, render),
        order_elements_sql(elements, legs, render) matches Ok(texts) ==> texts.len()
            == elements.len() && forall|i: int|
            0 <= i < elements.len() ==> writes_sort_key(
                #[trigger] texts[i],
                elements[i],
                legs,
                render,
            ),
    decreases elements.len(),
{
    if elements.len() > 0 {
        let rest = elements.drop_last();
        lemma_order_elements(rest, legs, render);
        lemma_order_element(elements.last(), legs, render);
        assert(elements[elements.len() - 1] == elements.last());
        if forall|i: int|
            0 <= i < elements.len() ==> sortable(#[trigger] elements[i], legs, render) {
            assert forall|i: int| 0 <= i < rest.len() implies sortable(
                #[trigger] rest[i],
                legs,
                render,
            ) by {
                assert(rest[i] == elements[i]);
            }
        }
        if order_elements_sql(elements, legs, render) is Ok {
            assert forall|i: int| 0 <= i < elements.len() implies sortable(
                #[trigger] elements[i],
                legs,
                render,
            ) by {
                if i < rest.len() {
                    assert(rest[i] == elements[i]);
                }
            }
        }
    }
}

/// The sort order of a query over the legs lists, for each element of the `orderBy` and in its
/// place, the expression of that element with its own direction and null placement. It is there
/// exactly where every element can be written so.
pub proof fn lemma_order_by_follows_the_request(
    pushdown_req: JsonV,
    elements: Seq<JsonV>,
    legs: JoinLegsV,
    render: Renderer,
)
    requires
        pushdown_req.field("orderBy"@) == Some(JsonV::Array(elements)),
        elements.len() > 0,
    ensures
        order_by_sql(pushdown_req, legs, render) is Ok <==> forall|i: int|
            0 <= i < elements.len() ==> sortable(#[trigger] elements[i], legs, render),
        order_by_sql(pushdown_req, legs, render) matches Ok(clause) ==> exists|
            texts: Seq<Seq<char>>,
        |
            clause == Some(#[trigger] joined(texts, ", "@)) && texts.len() == elements.len()
                && forall|i: int|
                0 <= i < elements.len() ==> writes_sort_key(
                    #[trigger] texts[i],
                    elements[i],
                    legs,
                    render,
                ),
{
    assert(pushdown_req.nonempty_items_field("orderBy"@) == Some(elements));
    lemma_order_elements(elements, legs, render);
}

/// A request without elements to sort by has no sort order.
pub proof fn lemma_no_order_by(pushdown_req: JsonV, legs: JoinLegsV, render: Renderer)
    requires
        !has_sort_order(pushdown_req),
    ensures
        order_by_sql(pushdown_req, legs, render) == Ok::<Option<Seq<char>>, Seq<char>>(None),
{
    assert(pushdown_req.nonempty_items_field("orderBy"@) is None);
}

/// Whether an item of a select list projects the group key at `slot`.
pub open spec fn projects_key(item: GroupedSelectItemV, slot: usize) -> bool {
    item matches GroupedSelectItemV::GroupKey { group_key_slot, .. } && group_key_slot == slot
}

/// The place of an item in the select list.
pub open spec fn place_of(item: GroupedSelectItemV) -> usize {
    match item {
        GroupedSelectItemV::GroupKey { group_key_slot: _, select_index } => select_index,
        GroupedSelectItemV::Aggregate { plan_slot: _, select_index } => select_index,
        GroupedSelectItemV::Constant { select_index, projection: _ } => select_index,
        GroupedSelectItemV::ScalarOverAggregate { select_index, node: _, declared_type: _ } => {
            select_index
        },
    }
}

/// The ordinal of a group key is the place of an item that projects this very key, counted from one,
/// and the first such item there is. A key without an ordinal is projected by no item.
pub proof fn lemma_ordinals_name_the_key(items: Seq<GroupedSelectItemV>, slot: usize)
    ensures
        match key_ordinal(items, slot) {
            Some(ordinal) => exists|i: int|
                0 <= i < items.len() && projects_key(#[trigger] items[i], slot) && ordinal
                    == place_of(items[i]) + 1 && forall|j: int|
                    0 <= j < i ==> !projects_key(#[trigger] items[j], slot),
            None => forall|i: int|
                0 <= i < items.len() ==> !projects_key(#[trigger] items[i], slot),
        },
    decreases items.len(),
{
    if items.len() > 0 {
        if projects_key(items[0], slot) {
            assert(key_ordinal(items, slot) == Some(place_of(items[0]) as nat + 1));
        } else {
            let rest = items.skip(1);
            lemma_ordinals_name_the_key(rest, slot);
            assert(key_ordinal(items, slot) == key_ordinal(rest, slot));
            if key_ordinal(rest, slot) is Some {
                let ordinal = key_ordinal(rest, slot)->0;
                let i = choose|i: int|
                    0 <= i < rest.len() && projects_key(#[trigger] rest[i], slot) && ordinal
                        == place_of(rest[i]) + 1 && forall|j: int|
                        0 <= j < i ==> !projects_key(#[trigger] rest[j], slot);
                assert(items[i + 1] == rest[i]);
                assert forall|j: int| 0 <= j < i + 1 implies !projects_key(
                    #[trigger] items[j],
                    slot,
                ) by {
                    if j > 0 {
                        assert(rest[j - 1] == items[j]);
                    }
                }
            } else {
                assert forall|i: int| 0 <= i < items.len() implies !projects_key(
                    #[trigger] items[i],
                    slot,
                ) by {
                    if i > 0 {
                        assert(rest[i - 1] == items[i]);
                    }
                }
            }
        }
    }
}

/// A text among texts is found at its first place, and not found where it is not there.
pub proof fn lemma_first_place_is_found(texts: Seq<Seq<char>>, text: Seq<char>)
    requires
        texts.len() <= usize::MAX,
    ensures
        match position(texts, text) {
            Some(at) => at < texts.len() && texts[at as int] == text && forall|i: int|
                0 <= i < at ==> #[trigger] texts[i] != text,
            None => forall|i: int| 0 <= i < texts.len() ==> #[trigger] texts[i] != text,
        },
    decreases texts.len(),
{
    if texts.len() > 0 {
        let rest = texts.drop_last();
        lemma_first_place_is_found(rest, text);
        if position(rest, text) is Some {
            let at = position(rest, text)->0;
            assert forall|i: int| 0 <= i < at implies #[trigger] texts[i] != text by {
                assert(rest[i] == texts[i]);
            }
        } else {
            assert forall|i: int| 0 <= i < texts.len() - 1 implies #[trigger] texts[i] != text by {
                assert(rest[i] == texts[i]);
            }
        }
    }
}

/// A sort key of merged groups that has an output column is a group key of the aggregation, and the
/// column is the place of an item that projects that very key, counted from one.
pub proof fn lemma_output_columns_hold_the_key(
    expr: JsonV,
    detection: GroupedAggregateDetectionV,
    expression: spec_fn(JsonV) -> Option<Seq<char>>,
)
    requires
        detection.group_keys.len() <= usize::MAX,
    ensures
        output_ordinal(expr, detection, expression) matches Some(ordinal) ==> exists|
            i: int,
            slot: usize,
        |
            #![trigger detection.select_items[i], detection.group_keys[slot as int]]
            0 <= i < detection.select_items.len() && slot < detection.group_keys.len()
                && expression(expr) == Some(detection.group_keys[slot as int]) && projects_key(
                detection.select_items[i],
                slot,
            ) && ordinal == place_of(detection.select_items[i]) + 1,
        expression(expr) is None ==> output_ordinal(expr, detection, expression) is None,
        (expression(expr) matches Some(sql) && !detection.group_keys.contains(sql))
            ==> output_ordinal(expr, detection, expression) is None,
{
    if expression(expr) is Some {
        lemma_first_place_is_found(detection.group_keys, expression(expr)->0);
    }
    if output_ordinal(expr, detection, expression) is Some {
        let slot = position(detection.group_keys, expression(expr)->0)->0;
        lemma_ordinals_name_the_key(detection.select_items, slot);
        let ordinal = output_ordinal(expr, detection, expression)->0;
        let i = choose|i: int|
            0 <= i < detection.select_items.len() && projects_key(
                #[trigger] detection.select_items[i],
                slot,
            ) && ordinal == place_of(detection.select_items[i]) + 1;
        assert(detection.group_keys[slot as int] == expression(expr)->0);
    }
}

/// Whether `text` sorts merged groups as an element asks: by the output column of its expression
/// where it has one and by its merged text otherwise, in its direction and with its null placement.
pub open spec fn writes_group_sort_key(
    text: Seq<char>,
    element: JsonV,
    detection: GroupedAggregateDetectionV,
    expression: spec_fn(JsonV) -> Option<Seq<char>>,
    writer: MergeWriterV,
) -> bool {
    exists|expr: JsonV, ascending: bool, nulls_last: bool|
        #[trigger] sorts_by(element, expr, ascending, nulls_last) && match output_ordinal(
            expr,
            detection,
            expression,
        ) {
            Some(ordinal) => text == decimal(ordinal) + direction(ascending, nulls_last),
            None => having_text(expr, detection.plans, writer) matches Some(sql) && text == sql
                + direction(ascending, nulls_last),
        }
}

/// Whether an element can be written over merged groups.
pub open spec fn group_sortable(
    element: JsonV,
    detection: GroupedAggregateDetectionV,
    expression: spec_fn(JsonV) -> Option<Seq<char>>,
    writer: MergeWriterV,
) -> bool {
    exists|text: Seq<char>| #[trigger]
        writes_group_sort_key(text, element, detection, expression, writer)
}

proof fn lemma_group_sort_key(
    element: JsonV,
    detection: GroupedAggregateDetectionV,
    expression: spec_fn(JsonV) -> Option<Seq<char>>,
    writer: MergeWriterV,
    text: Seq<char>,
)
    ensures
        order_element(element, detection, expression, writer) == Some(text)
            <==> writes_group_sort_key(text, element, detection, expression, writer),
{
    if let Some((ascending, nulls_last)) = sort_flags(element) {
        if let Some(expr) = element.field("expression"@) {
            assert(sorts_by(element, expr, ascending, nulls_last));
            if let Some(ordinal) = output_ordinal(expr, detection, expression) {
                lemma_directions_are_written(decimal(ordinal), ascending, nulls_last);
            }
            if let Some(sql) = having_text(expr, detection.plans, writer) {
                lemma_directions_are_written(sql, ascending, nulls_last);
            }
        }
    }
}

proof fn lemma_group_sort_keys(
    elements: Seq<JsonV>,
    detection: GroupedAggregateDetectionV,
    expression: spec_fn(JsonV) -> Option<Seq<char>>,
    writer: MergeWriterV,
)
    ensures
        order_elements(elements, detection, expression, writer) matches Some(texts) ==> texts.len()
            == elements.len() && forall|i: int|
            0 <= i < elements.len() ==> writes_group_sort_key(
                #[trigger] texts[i],
                elements[i],
                detection,
                expression,
                writer,
            ),
        order_elements(elements, detection, expression, writer) is None ==> exists|i: int|
            0 <= i < elements.len() && !group_sortable(
                #[trigger] elements[i],
                detection,
                expression,
                writer,
            ),
    decreases elements.len(),
{
    if elements.len() > 0 {
        let rest = elements.drop_last();
        lemma_group_sort_keys(rest, detection, expression, writer);
        if order_elements(elements, detection, expression, writer) is Some {
            let text = order_element(elements.last(), detection, expression, writer)->0;
            lemma_group_sort_key(elements.last(), detection, expression, writer, text);
        } else if order_elements(rest, detection, expression, writer) is None {
            let i = choose|i: int|
                0 <= i < rest.len() && !group_sortable(
                    #[trigger] rest[i],
                    detection,
                    expression,
                    writer,
                );
            assert(elements[i] == rest[i]);
        } else {
            let last = elements[elements.len() - 1];
            if group_sortable(last, detection, expression, writer) {
                let text = choose|text: Seq<char>| #[trigger]
                    writes_group_sort_key(text, last, detection, expression, writer);
                lemma_group_sort_key(last, detection, expression, writer, text);
            }
        }
    }
}

/// The sort order of merged groups lists, for each element of the `orderBy` and in its place, the
/// output column or the merged text of its expression with its own direction and null placement.
/// It cannot be resolved exactly where some element can be written in neither way.
pub proof fn lemma_group_order_follows_the_request(
    pushdown_req: JsonV,
    elements: Seq<JsonV>,
    detection: GroupedAggregateDetectionV,
    expression: spec_fn(JsonV) -> Option<Seq<char>>,
    writer: MergeWriterV,
)
    requires
        pushdown_req.field("orderBy"@) == Some(JsonV::Array(elements)),
        elements.len() > 0,
    ensures
        match grouped_order(pushdown_req, detection, expression, writer) {
            Some(GroupedOrderByV::Clause(clause)) => exists|texts: Seq<Seq<char>>|
                clause == #[trigger] joined(texts, ", "@) && texts.len() == elements.len()
                    && forall|i: int|
                    0 <= i < elements.len() ==> writes_group_sort_key(
                        #[trigger] texts[i],
                        elements[i],
                        detection,
                        expression,
                        writer,
                    ),
            Some(GroupedOrderByV::Unresolvable) => exists|i: int|
                0 <= i < elements.len() && !group_sortable(
                    #[trigger] elements[i],
                    detection,
                    expression,
                    writer,
                ),
            None => false,
        },
{
    assert(pushdown_req.nonempty_items_field("orderBy"@) == Some(elements));
    lemma_group_sort_keys(elements, detection, expression, writer);
}

/// A grouped aggregation without elements to sort by has no sort order.
pub proof fn lemma_no_group_order(
    pushdown_req: JsonV,
    detection: GroupedAggregateDetectionV,
    expression: spec_fn(JsonV) -> Option<Seq<char>>,
    writer: MergeWriterV,
)
    requires
        !has_sort_order(pushdown_req),
    ensures
        grouped_order(pushdown_req, detection, expression, writer) is None,
{
    assert(pushdown_req.nonempty_items_field("orderBy"@) is None);
}

} // verus!
