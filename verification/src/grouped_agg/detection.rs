//! Recognising a grouped aggregation that decomposes into partial results.

use crate::aggregates::{cast_to, cast_to_declared_type, find_plan, plan_slot, AggregatePlan,
    AggregatePlanV};
use crate::handed::{callable, computes};
use crate::json::{group_json_views, Json, JsonV};
use crate::text::same_text;
use vstd::prelude::*;

verus! {

broadcast use group_json_views;

/// An item of the select list of a grouped aggregation. Each carries its place in the select list,
/// since the merged row is checked by position.
#[derive(Debug, Clone, PartialEq)]
pub enum GroupedSelectItem {
    /// A group key, emitted by the shards as the column `GK_{group_key_slot}`.
    GroupKey { group_key_slot: usize, select_index: usize },
    Aggregate { plan_slot: usize, select_index: usize },
    /// A literal, cast to its declared type. It computes nothing.
    Constant { select_index: usize, projection: String },
    /// An expression over aggregates, which are computed with the others.
    ScalarOverAggregate { select_index: usize, node: Json, declared_type: String },
}

/// The value of a [`GroupedSelectItem`].
#[verifier::ext_equal]
pub enum GroupedSelectItemV {
    GroupKey { group_key_slot: usize, select_index: usize },
    Aggregate { plan_slot: usize, select_index: usize },
    Constant { select_index: usize, projection: Seq<char> },
    ScalarOverAggregate { select_index: usize, node: JsonV, declared_type: Seq<char> },
}

impl DeepView for GroupedSelectItem {
    type V = GroupedSelectItemV;

    open spec fn deep_view(&self) -> GroupedSelectItemV {
        match self {
            GroupedSelectItem::GroupKey { group_key_slot, select_index } => {
                GroupedSelectItemV::GroupKey {
                    group_key_slot: *group_key_slot,
                    select_index: *select_index,
                }
            },
            GroupedSelectItem::Aggregate { plan_slot, select_index } => {
                GroupedSelectItemV::Aggregate {
                    plan_slot: *plan_slot,
                    select_index: *select_index,
                }
            },
            GroupedSelectItem::Constant { select_index, projection } => {
                GroupedSelectItemV::Constant {
                    select_index: *select_index,
                    projection: projection@,
                }
            },
            GroupedSelectItem::ScalarOverAggregate { select_index, node, declared_type } => {
                GroupedSelectItemV::ScalarOverAggregate {
                    select_index: *select_index,
                    node: node@,
                    declared_type: declared_type@,
                }
            },
        }
    }
}

impl GroupedSelectItemV {
    /// The place of the item in the select list.
    pub open spec fn index(self) -> usize {
        match self {
            GroupedSelectItemV::GroupKey { select_index, .. } => select_index,
            GroupedSelectItemV::Aggregate { select_index, .. } => select_index,
            GroupedSelectItemV::Constant { select_index, .. } => select_index,
            GroupedSelectItemV::ScalarOverAggregate { select_index, .. } => select_index,
        }
    }
}

/// The place of an item in the select list.
pub fn select_item_index(item: &GroupedSelectItem) -> (index: usize)
    ensures
        index == item.deep_view().index(),
{
    match item {
        GroupedSelectItem::GroupKey { select_index, .. } => *select_index,
        GroupedSelectItem::Aggregate { select_index, .. } => *select_index,
        GroupedSelectItem::Constant { select_index, .. } => *select_index,
        GroupedSelectItem::ScalarOverAggregate { select_index, .. } => *select_index,
    }
}

/// No place in the select list is the last number there is, so each can be counted from one.
pub open spec fn ordinals_fit(items: Seq<GroupedSelectItemV>) -> bool {
    forall|i: int| 0 <= i < items.len() ==> (#[trigger] items[i]).index() < usize::MAX
}

/// A grouped aggregation that decomposes.
#[derive(Debug, Clone, PartialEq)]
pub struct GroupedAggregateDetection {
    pub group_keys: Vec<String>,
    /// No two are equal.
    pub plans: Vec<AggregatePlan>,
    /// The declared types of `plans`, in their order.
    pub plan_types: Vec<String>,
    pub select_items: Vec<GroupedSelectItem>,
}

/// The value of a [`GroupedAggregateDetection`].
#[verifier::ext_equal]
pub struct GroupedAggregateDetectionV {
    pub group_keys: Seq<Seq<char>>,
    pub plans: Seq<AggregatePlanV>,
    pub plan_types: Seq<Seq<char>>,
    pub select_items: Seq<GroupedSelectItemV>,
}

impl DeepView for GroupedAggregateDetection {
    type V = GroupedAggregateDetectionV;

    open spec fn deep_view(&self) -> GroupedAggregateDetectionV {
        GroupedAggregateDetectionV {
            group_keys: self.group_keys.deep_view(),
            plans: self.plans.deep_view(),
            plan_types: self.plan_types.deep_view(),
            select_items: self.select_items.deep_view(),
        }
    }
}

/// The functions that reading a grouped aggregation is handed.
pub struct AggregateReader<X, A, Q, T> {
    /// Renders an expression in the scan dialect, or declines it.
    pub expression: X,
    /// Reads an aggregate item, where it decomposes.
    pub aggregate: A,
    /// Reads the aggregates below an expression that is made of aggregates and literals only.
    pub nested: Q,
    /// Names the Exasol type of a data type.
    pub exasol_type: T,
}

/// The functions of an [`AggregateReader`].
pub struct AggregateReaderV {
    pub expression: spec_fn(JsonV) -> Option<Seq<char>>,
    pub aggregate: spec_fn(JsonV) -> Option<AggregatePlanV>,
    pub nested: spec_fn(JsonV) -> Option<Seq<AggregatePlanV>>,
    pub exasol_type: spec_fn(JsonV) -> Seq<char>,
}

impl<
    X: Fn(&Json) -> Option<String>,
    A: Fn(&Json) -> Option<AggregatePlan>,
    Q: Fn(&Json) -> Option<Vec<AggregatePlan>>,
    T: Fn(&Json) -> String,
> AggregateReader<X, A, Q, T> {
    /// Every function can be called.
    pub open spec fn ready(self) -> bool {
        callable(self.expression) && callable(self.aggregate) && callable(self.nested) && callable(
            self.exasol_type,
        )
    }

    /// The functions compute what the model says.
    pub open spec fn reads(self, model: AggregateReaderV) -> bool {
        computes(self.expression, model.expression) && computes(self.aggregate, model.aggregate)
            && computes(self.nested, model.nested) && computes(
            self.exasol_type,
            model.exasol_type,
        )
    }
}

/// The type that a request declares for the item at `index` of its select list.
pub open spec fn declared_type_at(
    pushdown_req: JsonV,
    index: int,
    exasol_type: spec_fn(JsonV) -> Seq<char>,
) -> Option<Seq<char>> {
    match pushdown_req.items_field("selectListDataTypes"@) {
        Some(types) => if 0 <= index < types.len() {
            Some(exasol_type(types[index]))
        } else {
            None
        },
        None => None,
    }
}

/// Reads the type that a request declares for an item of its select list.
pub fn find_declared_type<T: Fn(&Json) -> String>(
    pushdown_req: &Json,
    index: usize,
    exasol_type: &T,
) -> (declared: Option<String>)
    requires
        callable(*exasol_type),
    ensures
        forall|t: spec_fn(JsonV) -> Seq<char>| #[trigger]
            computes(*exasol_type, t) ==> declared.deep_view() == declared_type_at(
                pushdown_req@,
                index as int,
                t,
            ),
{
    match pushdown_req.get_array("selectListDataTypes") {
        Some(types) => if index < types.len() {
            assert(types.deep_view()[index as int] == types@[index as int]@);
            Some(exasol_type(&types[index]))
        } else {
            None
        },
        None => None,
    }
}

/// The type of an item of the select list: the widest text where none is declared.
pub open spec fn select_type(
    pushdown_req: JsonV,
    index: int,
    exasol_type: spec_fn(JsonV) -> Seq<char>,
) -> Seq<char> {
    match declared_type_at(pushdown_req, index, exasol_type) {
        Some(declared) => declared,
        None => "VARCHAR(2000000)"@,
    }
}

/// Reads the type of an item of the select list.
pub fn declared_select_type<T: Fn(&Json) -> String>(
    pushdown_req: &Json,
    index: usize,
    exasol_type: &T,
) -> (declared: String)
    requires
        callable(*exasol_type),
    ensures
        forall|t: spec_fn(JsonV) -> Seq<char>| #[trigger]
            computes(*exasol_type, t) ==> declared@ == select_type(
                pushdown_req@,
                index as int,
                t,
            ),
{
    match find_declared_type(pushdown_req, index, exasol_type) {
        Some(declared) => declared,
        None => "VARCHAR(2000000)".to_string(),
    }
}

/// A literal of the select list, cast to its declared type.
pub fn constant_projection_sql<T: Fn(&Json) -> String>(
    pushdown_req: &Json,
    select_index: usize,
    rendered: &str,
    exasol_type: &T,
) -> (projection: String)
    requires
        callable(*exasol_type),
    ensures
        forall|t: spec_fn(JsonV) -> Seq<char>| #[trigger]
            computes(*exasol_type, t) ==> projection@ == cast_to(
                rendered@,
                declared_type_at(pushdown_req@, select_index as int, t),
            ),
{
    match find_declared_type(pushdown_req, select_index, exasol_type) {
        Some(declared) => cast_to_declared_type(rendered, Some(declared.as_str())),
        None => cast_to_declared_type(rendered, None),
    }
}

/// Whether a node type is that of a literal.
pub open spec fn is_literal_type(item_type: Seq<char>) -> bool {
    ||| item_type == "literal_null"@
    ||| item_type == "literal_bool"@
    ||| item_type == "literal_string"@
    ||| item_type == "literal_exactnumeric"@
    ||| item_type == "literal_double"@
    ||| item_type == "literal_date"@
    ||| item_type == "literal_timestamp"@
    ||| item_type == "literal_timestamp_utc"@
    ||| item_type == "literal_timestamputc"@
}

/// Tests whether a node type is that of a literal.
pub fn is_literal_selectlist_item(item_type: &str) -> (yes: bool)
    ensures
        yes == is_literal_type(item_type@),
{
    same_text(item_type, "literal_null") || same_text(item_type, "literal_bool") || same_text(
        item_type,
        "literal_string",
    ) || same_text(item_type, "literal_exactnumeric") || same_text(item_type, "literal_double")
        || same_text(item_type, "literal_date") || same_text(item_type, "literal_timestamp")
        || same_text(item_type, "literal_timestamp_utc") || same_text(
        item_type,
        "literal_timestamputc",
    )
}

/// Plans and their types.
#[verifier::ext_equal]
pub struct PlanTableV {
    pub plans: Seq<AggregatePlanV>,
    pub types: Seq<Seq<char>>,
}

impl PlanTableV {
    /// The slot of a plan in the table once it is folded in.
    pub open spec fn slot_of(self, plan: AggregatePlanV) -> int {
        match plan_slot(self.plans, plan) {
            Some(slot) => slot,
            None => self.plans.len() as int,
        }
    }

    /// The table with a plan folded in. A plan that is there already takes the declared type, if
    /// any; a new plan without one is taken as floating point.
    pub open spec fn fold(self, plan: AggregatePlanV, declared: Option<Seq<char>>) -> PlanTableV {
        match (plan_slot(self.plans, plan), declared) {
            (Some(slot), Some(declared_type)) => PlanTableV {
                plans: self.plans,
                types: self.types.update(slot, declared_type),
            },
            (Some(_), None) => self,
            (None, Some(declared_type)) => PlanTableV {
                plans: self.plans.push(plan),
                types: self.types.push(declared_type),
            },
            (None, None) => PlanTableV {
                plans: self.plans.push(plan),
                types: self.types.push("DOUBLE PRECISION"@),
            },
        }
    }

    /// The table with plans without declared types folded in, left to right.
    pub open spec fn fold_all(self, plans: Seq<AggregatePlanV>) -> PlanTableV
        decreases plans.len(),
    {
        if plans.len() == 0 {
            self
        } else {
            self.fold_all(plans.drop_last()).fold(plans.last(), None)
        }
    }
}

/// The table that plans and types make up.
pub open spec fn table_of(plans: Vec<AggregatePlan>, types: Vec<String>) -> PlanTableV {
    PlanTableV { plans: plans.deep_view(), types: types.deep_view() }
}

/// The slot at which a plan is found lies in the table.
pub proof fn lemma_plan_slot_bounds(plans: Seq<AggregatePlanV>, plan: AggregatePlanV)
    ensures
        plan_slot(plans, plan) matches Some(slot) ==> 0 <= slot < plans.len() && plans[slot] == plan,
        plan_slot(plans, plan) is None ==> !plans.contains(plan),
    decreases plans.len(),
{
    if plans.len() > 0 {
        let rest = plans.drop_last();
        lemma_plan_slot_bounds(rest, plan);
        if plan_slot(plans, plan) is None {
            assert forall|i: int| 0 <= i < plans.len() implies plans[i] != plan by {
                if i < rest.len() {
                    assert(rest[i] == plans[i]);
                    assert(!rest.contains(plan));
                }
            }
        }
    }
}

/// Folds a plan into a table and returns its slot.
pub fn fold_aggregate_plan(
    plans: &mut Vec<AggregatePlan>,
    plan_types: &mut Vec<String>,
    plan: AggregatePlan,
    declared: Option<String>,
) -> (slot: usize)
    requires
        old(plans)@.len() == old(plan_types)@.len(),
    ensures
        slot == table_of(*old(plans), *old(plan_types)).slot_of(plan.deep_view()),
        table_of(*final(plans), *final(plan_types)) == table_of(*old(plans), *old(plan_types)).fold(
            plan.deep_view(),
            declared.deep_view(),
        ),
        final(plans)@.len() == final(plan_types)@.len(),
{
    let ghost before = table_of(*plans, *plan_types);
    match find_plan(plans, &plan) {
        Some(slot) => {
            if let Some(declared_type) = declared {
                plan_types.set(slot, declared_type);
                assert(plan_types.deep_view() =~= before.types.update(
                    slot as int,
                    declared_type@,
                ));
            }
            slot
        },
        None => {
            let slot: usize = plans.len();
            let new_type = match declared {
                Some(declared_type) => declared_type,
                None => "DOUBLE PRECISION".to_string(),
            };
            plan_types.push(new_type);
            assert(plan_types.deep_view() =~= before.types.push(new_type@));
            plans.push(plan);
            assert(plans.deep_view() =~= before.plans.push(plan.deep_view()));
            slot
        },
    }
}

fn fold_nested_plans(
    plans: &mut Vec<AggregatePlan>,
    plan_types: &mut Vec<String>,
    nested: &Vec<AggregatePlan>,
)
    requires
        old(plans)@.len() == old(plan_types)@.len(),
    ensures
        table_of(*final(plans), *final(plan_types)) == table_of(
            *old(plans),
            *old(plan_types),
        ).fold_all(nested.deep_view()),
        final(plans)@.len() == final(plan_types)@.len(),
{
    let ghost before = table_of(*plans, *plan_types);
    let ghost views = nested.deep_view();
    let mut i: usize = 0;
    while i < nested.len()
        invariant
            0 <= i <= nested.len(),
            views == nested.deep_view(),
            plans@.len() == plan_types@.len(),
            table_of(*plans, *plan_types) == before.fold_all(views.take(i as int)),
        decreases nested.len() - i,
    {
        assert(views.take(i + 1).drop_last() =~= views.take(i as int));
        fold_aggregate_plan(plans, plan_types, nested[i].clone(), None);
        i += 1;
    }
    assert(views.take(i as int) =~= views);
}

/// The texts of nodes, when each has one.
pub open spec fn rendered_nodes(
    nodes: Seq<JsonV>,
    render: spec_fn(JsonV) -> Option<Seq<char>>,
) -> Option<Seq<Seq<char>>>
    decreases nodes.len(),
{
    if nodes.len() == 0 {
        Some(Seq::empty())
    } else {
        match (rendered_nodes(nodes.drop_last(), render), render(nodes.last())) {
            (Some(texts), Some(text)) => Some(texts.push(text)),
            _ => None,
        }
    }
}

proof fn lemma_unrendered(
    nodes: Seq<JsonV>,
    render: spec_fn(JsonV) -> Option<Seq<char>>,
    n: int,
)
    requires
        0 <= n <= nodes.len(),
        rendered_nodes(nodes.take(n), render) is None,
    ensures
        rendered_nodes(nodes, render) is None,
    decreases nodes.len() - n,
{
    if n == nodes.len() {
        assert(nodes.take(n) =~= nodes);
    } else {
        assert(nodes.take(n + 1).drop_last() =~= nodes.take(n));
        lemma_unrendered(nodes, render, n + 1);
    }
}

fn render_nodes<X: Fn(&Json) -> Option<String>>(nodes: &Vec<Json>, render: &X) -> (texts: Option<
    Vec<String>,
>)
    requires
        callable(*render),
    ensures
        forall|g: spec_fn(JsonV) -> Option<Seq<char>>| #[trigger]
            computes(*render, g) ==> texts.deep_view() == rendered_nodes(nodes.deep_view(), g),
{
    let ghost views = nodes.deep_view();
    let mut texts: Vec<String> = Vec::new();
    let mut i: usize = 0;
    assert(texts.deep_view() =~= Seq::empty());
    while i < nodes.len()
        invariant
            0 <= i <= nodes.len(),
            views == nodes.deep_view(),
            callable(*render),
            forall|g: spec_fn(JsonV) -> Option<Seq<char>>| #[trigger]
                computes(*render, g) ==> rendered_nodes(views.take(i as int), g) == Some(
                    texts.deep_view(),
                ),
        decreases nodes.len() - i,
    {
        assert(views.take(i + 1).drop_last() =~= views.take(i as int));
        let ghost before = texts.deep_view();
        match render(&nodes[i]) {
            Some(text) => {
                texts.push(text);
                assert(texts.deep_view() =~= before.push(text@));
            },
            None => {
                proof {
                    assert forall|g: spec_fn(JsonV) -> Option<Seq<char>>| #[trigger] computes(
                        *render,
                        g,
                    ) implies rendered_nodes(views, g) is None by {
                        lemma_unrendered(views, g, i + 1);
                    }
                }
                return None;
            },
        }
        i += 1;
    }
    assert(views.take(i as int) =~= views);
    Some(texts)
}

/// The first place of a text among texts.
pub open spec fn position(texts: Seq<Seq<char>>, text: Seq<char>) -> Option<usize>
    decreases texts.len(),
{
    if texts.len() == 0 {
        None
    } else {
        match position(texts.drop_last(), text) {
            Some(at) => Some(at),
            None => if texts.last() == text {
                Some((texts.len() - 1) as usize)
            } else {
                None
            },
        }
    }
}

proof fn lemma_position_prefix(texts: Seq<Seq<char>>, text: Seq<char>, n: int)
    requires
        0 <= n <= texts.len(),
        position(texts.take(n), text) is Some,
    ensures
        position(texts, text) == position(texts.take(n), text),
    decreases texts.len() - n,
{
    if n == texts.len() {
        assert(texts.take(n) =~= texts);
    } else {
        assert(texts.take(n + 1).drop_last() =~= texts.take(n));
        lemma_position_prefix(texts, text, n + 1);
    }
}

/// Finds the first place of a text among texts.
pub fn find_position(texts: &Vec<String>, text: &str) -> (at: Option<usize>)
    ensures
        at == position(texts.deep_view(), text@),
{
    let ghost views = texts.deep_view();
    let mut i: usize = 0;
    while i < texts.len()
        invariant
            0 <= i <= texts.len(),
            views == texts.deep_view(),
            position(views.take(i as int), text@) is None,
        decreases texts.len() - i,
    {
        assert(views.take(i + 1).drop_last() =~= views.take(i as int));
        if same_text(texts[i].as_str(), text) {
            proof {
                lemma_position_prefix(views, text@, i + 1);
            }
            return Some(i);
        }
        i += 1;
    }
    assert(views.take(i as int) =~= views);
    None
}

/// What is known of a select list up to some item.
#[verifier::ext_equal]
pub struct SelectStateV {
    pub table: PlanTableV,
    pub items: Seq<GroupedSelectItemV>,
}

/// The type of a node, empty when it has none.
pub open spec fn node_type(node: JsonV) -> Seq<char> {
    match node.text_field("type"@) {
        Some(text) => text,
        None => Seq::empty(),
    }
}

impl SelectStateV {
    /// Nothing yet.
    pub open spec fn start() -> SelectStateV {
        SelectStateV {
            table: PlanTableV { plans: Seq::empty(), types: Seq::empty() },
            items: Seq::empty(),
        }
    }

    /// What is known after one more item of the select list. An aggregate is folded into the plans;
    /// a literal is a constant; a group key is recognised by its rendered text; anything else has
    /// to be made of aggregates.
    pub open spec fn read(
        self,
        pushdown_req: JsonV,
        group_keys: Seq<Seq<char>>,
        item: JsonV,
        index: usize,
        reader: AggregateReaderV,
    ) -> Option<SelectStateV> {
        let declared = select_type(pushdown_req, index as int, reader.exasol_type);
        if node_type(item) == "function_aggregate"@ {
            match (reader.aggregate)(item) {
                Some(plan) => Some(
                    SelectStateV {
                        table: self.table.fold(plan, Some(declared)),
                        items: self.items.push(
                            GroupedSelectItemV::Aggregate {
                                plan_slot: self.table.slot_of(plan) as usize,
                                select_index: index,
                            },
                        ),
                    },
                ),
                None => None,
            }
        } else if is_literal_type(node_type(item)) {
            match (reader.expression)(item) {
                Some(sql) => Some(
                    SelectStateV {
                        table: self.table,
                        items: self.items.push(
                            GroupedSelectItemV::Constant {
                                select_index: index,
                                projection: cast_to(
                                    sql,
                                    declared_type_at(
                                        pushdown_req,
                                        index as int,
                                        reader.exasol_type,
                                    ),
                                ),
                            },
                        ),
                    },
                ),
                None => None,
            }
        } else {
            match key_slot(item, group_keys, reader) {
                Some(slot) => Some(
                    SelectStateV {
                        table: self.table,
                        items: self.items.push(
                            GroupedSelectItemV::GroupKey {
                                group_key_slot: slot,
                                select_index: index,
                            },
                        ),
                    },
                ),
                None => match (reader.nested)(item) {
                    Some(plans) => Some(
                        SelectStateV {
                            table: self.table.fold_all(plans),
                            items: self.items.push(
                                GroupedSelectItemV::ScalarOverAggregate {
                                    select_index: index,
                                    node: item,
                                    declared_type: declared,
                                },
                            ),
                        },
                    ),
                    None => None,
                },
            }
        }
    }
}

/// The slot of the group key that an item renders to.
pub open spec fn key_slot(
    item: JsonV,
    group_keys: Seq<Seq<char>>,
    reader: AggregateReaderV,
) -> Option<usize> {
    match (reader.expression)(item) {
        Some(sql) => position(group_keys, sql),
        None => None,
    }
}

/// What is known after the first `n` items of a select list.
pub open spec fn read_items(
    pushdown_req: JsonV,
    group_keys: Seq<Seq<char>>,
    list: Seq<JsonV>,
    reader: AggregateReaderV,
    n: int,
) -> Option<SelectStateV>
    decreases n,
{
    if n <= 0 {
        Some(SelectStateV::start())
    } else {
        match read_items(pushdown_req, group_keys, list, reader, n - 1) {
            Some(state) => state.read(
                pushdown_req,
                group_keys,
                list[n - 1],
                (n - 1) as usize,
                reader,
            ),
            None => None,
        }
    }
}

proof fn lemma_unread(
    pushdown_req: JsonV,
    group_keys: Seq<Seq<char>>,
    list: Seq<JsonV>,
    reader: AggregateReaderV,
    n: int,
    all: int,
)
    requires
        0 <= n <= all,
        read_items(pushdown_req, group_keys, list, reader, n) is None,
    ensures
        read_items(pushdown_req, group_keys, list, reader, all) is None,
    decreases all - n,
{
    if n < all {
        lemma_unread(pushdown_req, group_keys, list, reader, n + 1, all);
    }
}

/// The grouped aggregation that a request asks for, where it decomposes: it has group keys that all
/// render, and a select list whose items are all understood.
pub open spec fn grouped_aggregation(
    pushdown_req: JsonV,
    reader: AggregateReaderV,
) -> Option<GroupedAggregateDetectionV> {
    if pushdown_req.text_field("aggregationType"@) != Some("group_by"@) {
        None
    } else {
        match (
            pushdown_req.nonempty_items_field("groupBy"@),
            pushdown_req.nonempty_items_field("selectList"@),
        ) {
            (Some(keys), Some(list)) => match rendered_nodes(keys, reader.expression) {
                Some(group_keys) => match read_items(
                    pushdown_req,
                    group_keys,
                    list,
                    reader,
                    list.len() as int,
                ) {
                    Some(state) => Some(
                        GroupedAggregateDetectionV {
                            group_keys,
                            plans: state.table.plans,
                            plan_types: state.table.types,
                            select_items: state.items,
                        },
                    ),
                    None => None,
                },
                None => None,
            },
            _ => None,
        }
    }
}

/// The state that plans, types and items make up.
pub open spec fn state_of(
    plans: Vec<AggregatePlan>,
    types: Vec<String>,
    items: Seq<GroupedSelectItemV>,
) -> SelectStateV {
    SelectStateV { table: table_of(plans, types), items }
}

/// Reads one item of a select list; `None` when it is not understood.
fn read_select_item<
    X: Fn(&Json) -> Option<String>,
    A: Fn(&Json) -> Option<AggregatePlan>,
    Q: Fn(&Json) -> Option<Vec<AggregatePlan>>,
    T: Fn(&Json) -> String,
>(
    pushdown_req: &Json,
    group_keys: &Vec<String>,
    item: &Json,
    select_index: usize,
    plans: &mut Vec<AggregatePlan>,
    plan_types: &mut Vec<String>,
    reader: &AggregateReader<X, A, Q, T>,
) -> (read: Option<GroupedSelectItem>)
    requires
        reader.ready(),
        old(plans)@.len() == old(plan_types)@.len(),
    ensures
        final(plans)@.len() == final(plan_types)@.len(),
        read matches Some(entry) ==> entry.deep_view().index() == select_index,
        forall|m: AggregateReaderV, before: Seq<GroupedSelectItemV>|
            #![trigger reader.reads(m), state_of(*old(plans), *old(plan_types), before)]
            reader.reads(m) ==> {
                let after = state_of(*old(plans), *old(plan_types), before).read(
                    pushdown_req@,
                    group_keys.deep_view(),
                    item@,
                    select_index,
                    m,
                );
                match read {
                    Some(entry) => after == Some(
                        state_of(*final(plans), *final(plan_types), before.push(entry.deep_view())),
                    ),
                    None => after is None,
                }
            },
{
    let item_type = match item.get_str("type") {
        Some(text) => text,
        None => "",
    };
    proof {
        reveal_strlit("");
        assert(""@ =~= Seq::<char>::empty());
    }
    if same_text(item_type, "function_aggregate") {
        match (reader.aggregate)(item) {
            Some(plan) => {
                let declared = declared_select_type(
                    pushdown_req,
                    select_index,
                    &reader.exasol_type,
                );
                let plan_slot: usize = fold_aggregate_plan(
                    plans,
                    plan_types,
                    plan,
                    Some(declared),
                );
                Some(GroupedSelectItem::Aggregate { plan_slot, select_index })
            },
            None => None,
        }
    } else if is_literal_selectlist_item(item_type) {
        match (reader.expression)(item) {
            Some(rendered) => {
                let projection = constant_projection_sql(
                    pushdown_req,
                    select_index,
                    rendered.as_str(),
                    &reader.exasol_type,
                );
                Some(GroupedSelectItem::Constant { select_index, projection })
            },
            None => None,
        }
    } else {
        let slot = match (reader.expression)(item) {
            Some(sql) => find_position(group_keys, sql.as_str()),
            None => None,
        };
        match slot {
            Some(group_key_slot) => Some(
                GroupedSelectItem::GroupKey { group_key_slot, select_index },
            ),
            None => match (reader.nested)(item) {
                Some(nested) => {
                    fold_nested_plans(plans, plan_types, &nested);
                    let declared_type = declared_select_type(
                        pushdown_req,
                        select_index,
                        &reader.exasol_type,
                    );
                    Some(
                        GroupedSelectItem::ScalarOverAggregate {
                            select_index,
                            node: item.clone(),
                            declared_type,
                        },
                    )
                },
                None => None,
            },
        }
    }
}

/// Recognises a grouped aggregation that decomposes. Any group key or select-list item that is not
/// understood declines the whole.
pub fn detect_group_by_aggregates<
    X: Fn(&Json) -> Option<String>,
    A: Fn(&Json) -> Option<AggregatePlan>,
    Q: Fn(&Json) -> Option<Vec<AggregatePlan>>,
    T: Fn(&Json) -> String,
>(pushdown_req: &Json, reader: &AggregateReader<X, A, Q, T>) -> (detection: Option<
    GroupedAggregateDetection,
>)
    requires
        reader.ready(),
    ensures
        detection matches Some(found) ==> ordinals_fit(found.select_items.deep_view()),
        forall|m: AggregateReaderV| #[trigger]
            reader.reads(m) ==> detection.deep_view() == grouped_aggregation(pushdown_req@, m),
{
    let grouped = match pushdown_req.get_str("aggregationType") {
        Some(aggregation) => same_text(aggregation, "group_by"),
        None => false,
    };
    if !grouped {
        return None;
    }
    let keys = match pushdown_req.get_nonempty_array("groupBy") {
        Some(keys) => keys,
        None => {
            return None;
        },
    };
    let group_keys = match render_nodes(keys, &reader.expression) {
        Some(texts) => texts,
        None => {
            return None;
        },
    };
    let list = match pushdown_req.get_nonempty_array("selectList") {
        Some(list) => list,
        None => {
            return None;
        },
    };
    let ghost views = list.deep_view();
    let mut plans: Vec<AggregatePlan> = Vec::new();
    let mut plan_types: Vec<String> = Vec::new();
    let mut select_items: Vec<GroupedSelectItem> = Vec::new();
    let mut i: usize = 0;
    proof {
        assert(plans.deep_view() =~= Seq::empty());
        assert(plan_types.deep_view() =~= Seq::empty());
        assert(select_items.deep_view() =~= Seq::empty());
    }
    while i < list.len()
        invariant
            0 <= i <= list.len(),
            views == list.deep_view(),
            reader.ready(),
            plans@.len() == plan_types@.len(),
            ordinals_fit(select_items.deep_view()),
            pushdown_req@.text_field("aggregationType"@) == Some("group_by"@),
            pushdown_req@.nonempty_items_field("groupBy"@) == Some(keys.deep_view()),
            pushdown_req@.nonempty_items_field("selectList"@) == Some(views),
            forall|m: AggregateReaderV| #[trigger]
                reader.reads(m) ==> rendered_nodes(keys.deep_view(), m.expression) == Some(
                    group_keys.deep_view(),
                ),
            forall|m: AggregateReaderV| #[trigger]
                reader.reads(m) ==> read_items(
                    pushdown_req@,
                    group_keys.deep_view(),
                    views,
                    m,
                    i as int,
                ) == Some(state_of(plans, plan_types, select_items.deep_view())),
        decreases list.len() - i,
    {
        let ghost before = select_items.deep_view();
        assert(views[i as int] == list@[i as int]@);
        match read_select_item(
            pushdown_req,
            &group_keys,
            &list[i],
            i,
            &mut plans,
            &mut plan_types,
            reader,
        ) {
            Some(entry) => {
                select_items.push(entry);
                assert(select_items.deep_view() =~= before.push(entry.deep_view()));
            },
            None => {
                proof {
                    assert forall|m: AggregateReaderV| #[trigger] reader.reads(
                        m,
                    ) implies read_items(
                        pushdown_req@,
                        group_keys.deep_view(),
                        views,
                        m,
                        views.len() as int,
                    ) is None by {
                        assert(read_items(
                            pushdown_req@,
                            group_keys.deep_view(),
                            views,
                            m,
                            i + 1,
                        ) is None);
                        lemma_unread(
                            pushdown_req@,
                            group_keys.deep_view(),
                            views,
                            m,
                            i + 1,
                            views.len() as int,
                        );
                    }
                }
                return None;
            },
        }
        i += 1;
    }
    Some(GroupedAggregateDetection { group_keys, plans, plan_types, select_items })
}

} // verus!
