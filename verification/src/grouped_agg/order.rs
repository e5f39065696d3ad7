//! The sort order of merged groups.

use crate::aggregates::AggregatePlan;
use crate::grouped_agg::detection::{find_position, ordinals_fit, position, GroupedAggregateDetection,
    GroupedAggregateDetectionV, GroupedSelectItem, GroupedSelectItemV};
use crate::grouped_agg::having::{having_text, render_having_over_merge, MergeWriter,
    MergeWriterV};
use crate::handed::{callable, computes};
use crate::json::{group_json_views, Json, JsonV};
use crate::ordering::{ordered, parse_sort_flags, render_ordered, sort_flags};
use crate::text::{decimal, join, joined, number_text};
use vstd::prelude::*;

verus! {

broadcast use group_json_views;

/// The sort order of merged groups.
#[derive(Debug, PartialEq, Eq)]
pub enum GroupedOrderBy {
    Clause(String),
    /// Some sort key cannot be expressed over merged groups.
    Unresolvable,
}

/// The value of a [`GroupedOrderBy`].
#[verifier::ext_equal]
pub enum GroupedOrderByV {
    Clause(Seq<char>),
    Unresolvable,
}

impl DeepView for GroupedOrderBy {
    type V = GroupedOrderByV;

    open spec fn deep_view(&self) -> GroupedOrderByV {
        match self {
            GroupedOrderBy::Clause(text) => GroupedOrderByV::Clause(text@),
            GroupedOrderBy::Unresolvable => GroupedOrderByV::Unresolvable,
        }
    }
}

/// The output column, counted from one, of the first item that projects the group key at `slot`.
pub open spec fn key_ordinal(items: Seq<GroupedSelectItemV>, slot: usize) -> Option<nat>
    decreases items.len(),
{
    if items.len() == 0 {
        None
    } else {
        match items[0] {
            GroupedSelectItemV::GroupKey { group_key_slot, select_index } if group_key_slot
                == slot => Some(select_index as nat + 1),
            _ => key_ordinal(items.skip(1), slot),
        }
    }
}

fn find_key_ordinal(items: &Vec<GroupedSelectItem>, slot: usize) -> (ordinal: Option<u64>)
    requires
        ordinals_fit(items.deep_view()),
    ensures
        match ordinal {
            Some(n) => key_ordinal(items.deep_view(), slot) == Some(n as nat),
            None => key_ordinal(items.deep_view(), slot) is None,
        },
{
    let ghost views = items.deep_view();
    let mut i: usize = 0;
    assert(views.skip(0) =~= views);
    while i < items.len()
        invariant
            0 <= i <= items.len(),
            views == items.deep_view(),
            ordinals_fit(views),
            key_ordinal(views, slot) == key_ordinal(views.skip(i as int), slot),
        decreases items.len() - i,
    {
        assert(views.skip(i as int)[0] == views[i as int]);
        assert(views.skip(i as int).skip(1) =~= views.skip(i + 1));
        assert(views[i as int] == items@[i as int].deep_view());
        if let GroupedSelectItem::GroupKey { group_key_slot, select_index } = &items[i] {
            if *group_key_slot == slot {
                let place: usize = *select_index;
                assert(views[i as int].index() == place);
                return Some(place as u64 + 1);
            }
        }
        i += 1;
    }
    None
}

/// The output column, counted from one, of a sort key that is a projected group key.
pub open spec fn output_ordinal(
    expr: JsonV,
    detection: GroupedAggregateDetectionV,
    expression: spec_fn(JsonV) -> Option<Seq<char>>,
) -> Option<nat> {
    match expression(expr) {
        Some(sql) => match position(detection.group_keys, sql) {
            Some(slot) => key_ordinal(detection.select_items, slot),
            None => None,
        },
        None => None,
    }
}

fn group_key_output_ordinal<X: Fn(&Json) -> Option<String>>(
    expr: &Json,
    detection: &GroupedAggregateDetection,
    expression: &X,
) -> (ordinal: Option<u64>)
    requires
        callable(*expression),
        ordinals_fit(detection.select_items.deep_view()),
    ensures
        forall|g: spec_fn(JsonV) -> Option<Seq<char>>| #[trigger]
            computes(*expression, g) ==> match ordinal {
                Some(n) => output_ordinal(expr@, detection.deep_view(), g) == Some(n as nat),
                None => output_ordinal(expr@, detection.deep_view(), g) is None,
            },
{
    match expression(expr) {
        Some(sql) => match find_position(&detection.group_keys, sql.as_str()) {
            Some(slot) => find_key_ordinal(&detection.select_items, slot),
            None => None,
        },
        None => None,
    }
}

/// A sort key of merged groups: the output column of a group key, so that the cast value is sorted
/// and not the text in which the key is emitted, or else the merged expression.
pub open spec fn order_element(
    element: JsonV,
    detection: GroupedAggregateDetectionV,
    expression: spec_fn(JsonV) -> Option<Seq<char>>,
    writer: MergeWriterV,
) -> Option<Seq<char>> {
    match (sort_flags(element), element.field("expression"@)) {
        (Some((ascending, nulls_last)), Some(expr)) => match output_ordinal(
            expr,
            detection,
            expression,
        ) {
            Some(ordinal) => Some(ordered(decimal(ordinal), ascending, nulls_last)),
            None => match having_text(expr, detection.plans, writer) {
                Some(merged) => Some(ordered(merged, ascending, nulls_last)),
                None => None,
            },
        },
        _ => None,
    }
}

/// The sort keys of merged groups, when each can be expressed.
pub open spec fn order_elements(
    elements: Seq<JsonV>,
    detection: GroupedAggregateDetectionV,
    expression: spec_fn(JsonV) -> Option<Seq<char>>,
    writer: MergeWriterV,
) -> Option<Seq<Seq<char>>>
    decreases elements.len(),
{
    if elements.len() == 0 {
        Some(Seq::empty())
    } else {
        match (
            order_elements(elements.drop_last(), detection, expression, writer),
            order_element(elements.last(), detection, expression, writer),
        ) {
            (Some(texts), Some(text)) => Some(texts.push(text)),
            _ => None,
        }
    }
}

proof fn lemma_unordered(
    elements: Seq<JsonV>,
    detection: GroupedAggregateDetectionV,
    expression: spec_fn(JsonV) -> Option<Seq<char>>,
    writer: MergeWriterV,
    n: int,
)
    requires
        0 <= n <= elements.len(),
        order_elements(elements.take(n), detection, expression, writer) is None,
    ensures
        order_elements(elements, detection, expression, writer) is None,
    decreases elements.len() - n,
{
    if n == elements.len() {
        assert(elements.take(n) =~= elements);
    } else {
        assert(elements.take(n + 1).drop_last() =~= elements.take(n));
        lemma_unordered(elements, detection, expression, writer, n + 1);
    }
}

/// The sort order of merged groups; none when the request has none.
pub open spec fn grouped_order(
    pushdown_req: JsonV,
    detection: GroupedAggregateDetectionV,
    expression: spec_fn(JsonV) -> Option<Seq<char>>,
    writer: MergeWriterV,
) -> Option<GroupedOrderByV> {
    match pushdown_req.nonempty_items_field("orderBy"@) {
        Some(elements) => match order_elements(elements, detection, expression, writer) {
            Some(texts) => Some(GroupedOrderByV::Clause(joined(texts, ", "@))),
            None => Some(GroupedOrderByV::Unresolvable),
        },
        None => None,
    }
}

fn render_order_element<
    X: Fn(&Json) -> Option<String>,
    A: Fn(&Json) -> Option<AggregatePlan>,
    M: Fn(&Json, &Vec<AggregatePlan>, &Vec<String>) -> Option<String>,
>(
    element: &Json,
    detection: &GroupedAggregateDetection,
    expression: &X,
    writer: &MergeWriter<A, M>,
) -> (sql: Option<String>)
    requires
        callable(*expression),
        writer.ready(),
        ordinals_fit(detection.select_items.deep_view()),
    ensures
        forall|g: spec_fn(JsonV) -> Option<Seq<char>>, m: MergeWriterV|
            #![trigger computes(*expression, g), writer.writes(m)]
            computes(*expression, g) && writer.writes(m) ==> sql.deep_view() == order_element(
                element@,
                detection.deep_view(),
                g,
                m,
            ),
{
    match (parse_sort_flags(element), element.get("expression")) {
        (Some((ascending, nulls_last)), Some(expr)) => match group_key_output_ordinal(
            expr,
            detection,
            expression,
        ) {
            Some(ordinal) => Some(
                render_ordered(number_text(ordinal).as_str(), ascending, nulls_last),
            ),
            None => match render_having_over_merge(expr, &detection.plans, writer) {
                Some(merged) => Some(render_ordered(merged.as_str(), ascending, nulls_last)),
                None => None,
            },
        },
        _ => None,
    }
}

/// Writes the sort order of merged groups. A delegated sort order is not repeated by the reading
/// engine, so the merge has to sort.
pub fn build_grouped_order_by_clause<
    X: Fn(&Json) -> Option<String>,
    A: Fn(&Json) -> Option<AggregatePlan>,
    M: Fn(&Json, &Vec<AggregatePlan>, &Vec<String>) -> Option<String>,
>(
    pushdown_req: &Json,
    detection: &GroupedAggregateDetection,
    expression: &X,
    writer: &MergeWriter<A, M>,
) -> (order: Option<GroupedOrderBy>)
    requires
        callable(*expression),
        writer.ready(),
        ordinals_fit(detection.select_items.deep_view()),
    ensures
        forall|g: spec_fn(JsonV) -> Option<Seq<char>>, m: MergeWriterV|
            #![trigger computes(*expression, g), writer.writes(m)]
            computes(*expression, g) && writer.writes(m) ==> order.deep_view() == grouped_order(
                pushdown_req@,
                detection.deep_view(),
                g,
                m,
            ),
{
    let elements = match pushdown_req.get_nonempty_array("orderBy") {
        Some(elements) => elements,
        None => {
            return None;
        },
    };
    let ghost views = elements.deep_view();
    let mut texts: Vec<String> = Vec::new();
    let mut i: usize = 0;
    assert(texts.deep_view() =~= Seq::empty());
    while i < elements.len()
        invariant
            0 <= i <= elements.len(),
            views == elements.deep_view(),
            pushdown_req@.nonempty_items_field("orderBy"@) == Some(views),
            callable(*expression),
            writer.ready(),
            ordinals_fit(detection.select_items.deep_view()),
            forall|g: spec_fn(JsonV) -> Option<Seq<char>>, m: MergeWriterV|
                #![trigger computes(*expression, g), writer.writes(m)]
                computes(*expression, g) && writer.writes(m) ==> order_elements(
                    views.take(i as int),
                    detection.deep_view(),
                    g,
                    m,
                ) == Some(texts.deep_view()),
        decreases elements.len() - i,
    {
        assert(views.take(i + 1).drop_last() =~= views.take(i as int));
        let ghost before = texts.deep_view();
        match render_order_element(&elements[i], detection, expression, writer) {
            Some(text) => {
                texts.push(text);
                assert(texts.deep_view() =~= before.push(text@));
            },
            None => {
                proof {
                    assert forall|g: spec_fn(JsonV) -> Option<Seq<char>>, m: MergeWriterV|
                        #![trigger computes(*expression, g), writer.writes(m)]
                        computes(*expression, g) && writer.writes(m) implies order_elements(
                        views,
                        detection.deep_view(),
                        g,
                        m,
                    ) is None by {
                        lemma_unordered(views, detection.deep_view(), g, m, i + 1);
                    }
                }
                return Some(GroupedOrderBy::Unresolvable);
            },
        }
        i += 1;
    }
    assert(views.take(i as int) =~= views);
    Some(GroupedOrderBy::Clause(join(&texts, ", ")))
}

} // verus!
