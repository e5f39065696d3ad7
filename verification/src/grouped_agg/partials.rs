//! The columns in which shards emit partial results.

use crate::aggregates::{at, partial_column_name, partial_name, text_at, AggKind, AggregatePlan,
    AggregatePlanV, PartialAggColumn};
use crate::scan::{ColumnType, ColumnTypeV};
use crate::text::same_text;
use crate::types::{is_numeric_exasol_type, numeric_type, sum_emit_type, sum_type};
use vstd::prelude::*;

verus! {

/// The type of the first column called `name`.
pub open spec fn first_type(columns: Seq<ColumnTypeV>, name: Seq<char>) -> Option<Seq<char>>
    decreases columns.len(),
{
    if columns.len() == 0 {
        None
    } else if columns[0].0 == name {
        Some(columns[0].1)
    } else {
        first_type(columns.skip(1), name)
    }
}

fn find_type<'a>(columns: &'a Vec<ColumnType>, name: &str) -> (found: Option<&'a str>)
    ensures
        found.deep_view() == first_type(columns.deep_view(), name@),
{
    let ghost views = columns.deep_view();
    let mut i: usize = 0;
    assert(views.skip(0) =~= views);
    while i < columns.len()
        invariant
            0 <= i <= columns.len(),
            views == columns.deep_view(),
            first_type(views, name@) == first_type(views.skip(i as int), name@),
        decreases columns.len() - i,
    {
        assert(views.skip(i as int)[0] == views[i as int]);
        assert(views.skip(i as int).skip(1) =~= views.skip(i + 1));
        if same_text(columns[i].0.as_str(), name) {
            return Some(columns[i].1.as_str());
        }
        i += 1;
    }
    None
}

/// The type of what an aggregate is computed over: the declared type for an expression, the type of
/// its column otherwise, and `DOUBLE PRECISION` where neither is known.
pub open spec fn argument_type(
    column: Option<Seq<char>>,
    arg_expr: Option<Seq<char>>,
    col_types: Seq<ColumnTypeV>,
    declared: Option<Seq<char>>,
) -> Seq<char> {
    if column is None && arg_expr is Some && declared is Some {
        declared->0
    } else {
        let found = match column {
            Some(name) => first_type(col_types, name),
            None => None,
        };
        match found {
            Some(column_type) => column_type,
            None => "DOUBLE PRECISION"@,
        }
    }
}

/// Finds the type of what an aggregate is computed over.
pub fn col_type_for(
    column: Option<&str>,
    arg_expr: Option<&str>,
    col_types: &Vec<ColumnType>,
    declared: Option<&str>,
) -> (found: String)
    ensures
        found@ == argument_type(
            column.deep_view(),
            arg_expr.deep_view(),
            col_types.deep_view(),
            declared.deep_view(),
        ),
{
    if column.is_none() && arg_expr.is_some() {
        if let Some(declared_type) = declared {
            return declared_type.to_string();
        }
    }
    let own = match column {
        Some(name) => find_type(col_types, name),
        None => None,
    };
    match own {
        Some(column_type) => column_type.to_string(),
        None => "DOUBLE PRECISION".to_string(),
    }
}

fn text_of(text: &Option<String>) -> (inner: Option<&str>)
    ensures
        inner.deep_view() == text.deep_view(),
{
    match text {
        Some(inner) => Some(inner.as_str()),
        None => None,
    }
}

/// The type in which a partial result is emitted. Counts are integers, sums are widened against
/// overflow, averages and deviations are rebuilt in floating point, and extremes keep the type of
/// their argument.
pub open spec fn emit_type(
    column: PartialAggColumn,
    plan: AggregatePlanV,
    col_types: Seq<ColumnTypeV>,
    declared: Option<Seq<char>>,
) -> Seq<char> {
    match column {
        PartialAggColumn::CountStar | PartialAggColumn::CountArg | PartialAggColumn::AvgCnt
        | PartialAggColumn::StatCnt => "DECIMAL(20,0)"@,
        PartialAggColumn::AvgSum | PartialAggColumn::StatSum | PartialAggColumn::StatSumSq => {
            "DOUBLE PRECISION"@
        },
        PartialAggColumn::Sum => sum_type(
            argument_type(plan.column, plan.arg_expr, col_types, declared),
        ),
        PartialAggColumn::Min | PartialAggColumn::Max => argument_type(
            plan.column,
            plan.arg_expr,
            col_types,
            declared,
        ),
    }
}

fn find_emit_type(
    column: PartialAggColumn,
    plan: &AggregatePlan,
    col_types: &Vec<ColumnType>,
    declared: Option<&str>,
) -> (found: String)
    ensures
        found@ == emit_type(
            column,
            plan.deep_view(),
            col_types.deep_view(),
            declared.deep_view(),
        ),
{
    match column {
        PartialAggColumn::CountStar | PartialAggColumn::CountArg | PartialAggColumn::AvgCnt
        | PartialAggColumn::StatCnt => "DECIMAL(20,0)".to_string(),
        PartialAggColumn::AvgSum | PartialAggColumn::StatSum | PartialAggColumn::StatSumSq => {
            "DOUBLE PRECISION".to_string()
        },
        PartialAggColumn::Sum => sum_emit_type(
            col_type_for(
                text_of(&plan.column),
                text_of(&plan.arg_expr),
                col_types,
                declared,
            ).as_str(),
        ),
        PartialAggColumn::Min | PartialAggColumn::Max => col_type_for(
            text_of(&plan.column),
            text_of(&plan.arg_expr),
            col_types,
            declared,
        ),
    }
}

/// A column that a shard emits: its name and its type.
pub open spec fn emitted_column(
    column: PartialAggColumn,
    slot: int,
    plan: AggregatePlanV,
    col_types: Seq<ColumnTypeV>,
    types: Seq<Seq<char>>,
) -> Seq<char> {
    "\""@ + partial_name(column, slot) + "\" "@ + emit_type(column, plan, col_types, at(types, slot))
}

/// The columns that a shard emits for the plan at `slot`.
pub open spec fn plan_emits(
    plan: AggregatePlanV,
    slot: int,
    col_types: Seq<ColumnTypeV>,
    types: Seq<Seq<char>>,
) -> Seq<Seq<char>> {
    plan.kind.partials().map_values(
        |column: PartialAggColumn| emitted_column(column, slot, plan, col_types, types),
    )
}

/// The columns that a shard emits for plans, in their order.
pub open spec fn partial_emits(
    plans: Seq<AggregatePlanV>,
    col_types: Seq<ColumnTypeV>,
    types: Seq<Seq<char>>,
) -> Seq<Seq<char>>
    decreases plans.len(),
{
    if plans.len() == 0 {
        Seq::empty()
    } else {
        partial_emits(plans.drop_last(), col_types, types) + plan_emits(
            plans.last(),
            plans.len() - 1,
            col_types,
            types,
        )
    }
}

/// Writes the columns that a shard emits for plans.
pub fn partial_emits_items(
    aggregates: &Vec<AggregatePlan>,
    col_types: &Vec<ColumnType>,
    aggregate_types: &Vec<String>,
) -> (items: Vec<String>)
    ensures
        items.deep_view() == partial_emits(
            aggregates.deep_view(),
            col_types.deep_view(),
            aggregate_types.deep_view(),
        ),
{
    let ghost views = aggregates.deep_view();
    let ghost columns = col_types.deep_view();
    let ghost types = aggregate_types.deep_view();
    let mut items: Vec<String> = Vec::new();
    let mut i: usize = 0;
    assert(items.deep_view() =~= partial_emits(views.take(0), columns, types));
    while i < aggregates.len()
        invariant
            0 <= i <= aggregates.len(),
            views == aggregates.deep_view(),
            columns == col_types.deep_view(),
            types == aggregate_types.deep_view(),
            items.deep_view() == partial_emits(views.take(i as int), columns, types),
        decreases aggregates.len() - i,
    {
        assert(views.take(i + 1).drop_last() =~= views.take(i as int));
        let partials = aggregates[i].kind.partial_columns();
        let declared = text_at(aggregate_types, i);
        let ghost start = items.deep_view();
        let ghost own = plan_emits(views[i as int], i as int, columns, types);
        let mut j: usize = 0;
        assert(start + own.take(0) =~= start);
        while j < partials.len()
            invariant
                i < aggregates.len(),
                0 <= j <= partials.len(),
                views == aggregates.deep_view(),
                columns == col_types.deep_view(),
                types == aggregate_types.deep_view(),
                partials@ == views[i as int].kind.partials(),
                declared.deep_view() == at(types, i as int),
                own == plan_emits(views[i as int], i as int, columns, types),
                items.deep_view() == start + own.take(j as int),
            decreases partials.len() - j,
        {
            let ghost before = items.deep_view();
            let mut item = "\"".to_string();
            item.append(partial_column_name(partials[j], i).as_str());
            item.append("\" ");
            item.append(
                find_emit_type(partials[j], &aggregates[i], col_types, declared).as_str(),
            );
            items.push(item);
            assert(views[i as int] == aggregates@[i as int].deep_view());
            assert(item@ == own[j as int]);
            assert(items.deep_view() =~= before.push(item@));
            assert(items.deep_view() =~= start + own.take(j + 1));
            j += 1;
        }
        assert(own.take(j as int) =~= own);
        i += 1;
    }
    assert(views.take(i as int) =~= views);
    items
}

/// Whether an aggregate can only be computed over numbers.
pub open spec fn needs_numeric(kind: AggKind) -> bool {
    kind is Sum || kind is VarPop || kind is VarSamp || kind is StddevPop || kind is StddevSamp
}

/// Whether the argument of an aggregate has a type that it can be computed over.
pub open spec fn well_typed(plan: AggregatePlanV, col_types: Seq<ColumnTypeV>) -> bool {
    needs_numeric(plan.kind) ==> numeric_type(
        argument_type(plan.column, plan.arg_expr, col_types, None),
    )
}

/// Whether every aggregate can be computed over its argument.
pub open spec fn all_well_typed(
    plans: Seq<AggregatePlanV>,
    col_types: Seq<ColumnTypeV>,
) -> bool {
    forall|i: int| 0 <= i < plans.len() ==> well_typed(#[trigger] plans[i], col_types)
}

/// Tests whether each aggregate that needs numbers has them.
pub fn validate_agg_col_types(
    aggregates: &Vec<AggregatePlan>,
    col_types: &Vec<ColumnType>,
) -> (valid: bool)
    ensures
        valid == (forall|i: int|
            0 <= i < aggregates@.len() ==> well_typed(
                #[trigger] aggregates.deep_view()[i],
                col_types.deep_view(),
            )),
        valid == all_well_typed(aggregates.deep_view(), col_types.deep_view()),
{
    let ghost views = aggregates.deep_view();
    let mut i: usize = 0;
    while i < aggregates.len()
        invariant
            0 <= i <= aggregates.len(),
            views == aggregates.deep_view(),
            forall|j: int|
                0 <= j < i ==> well_typed(#[trigger] views[j], col_types.deep_view()),
        decreases aggregates.len() - i,
    {
        assert(views[i as int] == aggregates@[i as int].deep_view());
        let numeric_only = match aggregates[i].kind {
            AggKind::Sum | AggKind::VarPop | AggKind::VarSamp | AggKind::StddevPop
            | AggKind::StddevSamp => true,
            _ => false,
        };
        if numeric_only {
            let argument = col_type_for(
                text_of(&aggregates[i].column),
                text_of(&aggregates[i].arg_expr),
                col_types,
                None,
            );
            if !is_numeric_exasol_type(argument.as_str()) {
                return false;
            }
        }
        i += 1;
    }
    true
}

} // verus!
