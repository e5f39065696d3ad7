//! Aggregates that are computed per shard and merged afterwards.

use crate::text::{decimal, number_text, quote_ident, quoted, same_text};
use vstd::prelude::*;

verus! {

/// The aggregate functions that decompose into partial results.
#[derive(Debug, Clone, Copy, PartialEq, Eq, Structural)]
pub enum AggKind {
    /// `COUNT(*)`
    Count,
    /// `COUNT(x)`
    CountCol,
    Sum,
    Min,
    Max,
    Avg,
    VarPop,
    VarSamp,
    StddevPop,
    StddevSamp,
}

/// One aggregate to compute, over a source column or over a rendered expression.
#[derive(Debug, PartialEq, Eq)]
pub struct AggregatePlan {
    pub kind: AggKind,
    pub column: Option<String>,
    pub arg_expr: Option<String>,
}

impl Clone for AggregatePlan {
    fn clone(&self) -> (copy: AggregatePlan)
        ensures
            copy == *self,
    {
        AggregatePlan {
            kind: self.kind,
            column: self.column.clone(),
            arg_expr: self.arg_expr.clone(),
        }
    }
}

/// The value of an [`AggregatePlan`].
#[verifier::ext_equal]
pub struct AggregatePlanV {
    pub kind: AggKind,
    pub column: Option<Seq<char>>,
    pub arg_expr: Option<Seq<char>>,
}

impl DeepView for AggregatePlan {
    type V = AggregatePlanV;

    open spec fn deep_view(&self) -> AggregatePlanV {
        AggregatePlanV {
            kind: self.kind,
            column: self.column.deep_view(),
            arg_expr: self.arg_expr.deep_view(),
        }
    }
}

/// A partial result that a shard emits.
#[derive(Debug, Clone, Copy, PartialEq, Eq, Structural)]
pub enum PartialAggColumn {
    CountStar,
    CountArg,
    Sum,
    Min,
    Max,
    AvgSum,
    AvgCnt,
    StatCnt,
    StatSum,
    StatSumSq,
}

impl AggKind {
    /// The partial results an aggregate decomposes into, in the order in which they are emitted.
    pub open spec fn partials(self) -> Seq<PartialAggColumn> {
        match self {
            AggKind::Count => seq![PartialAggColumn::CountStar],
            AggKind::CountCol => seq![PartialAggColumn::CountArg],
            AggKind::Sum => seq![PartialAggColumn::Sum],
            AggKind::Min => seq![PartialAggColumn::Min],
            AggKind::Max => seq![PartialAggColumn::Max],
            AggKind::Avg => seq![PartialAggColumn::AvgSum, PartialAggColumn::AvgCnt],
            AggKind::VarPop | AggKind::VarSamp | AggKind::StddevPop | AggKind::StddevSamp => seq![
                PartialAggColumn::StatCnt,
                PartialAggColumn::StatSum,
                PartialAggColumn::StatSumSq,
            ],
        }
    }

    /// Lists the partial results an aggregate decomposes into.
    pub fn partial_columns(&self) -> (columns: Vec<PartialAggColumn>)
        ensures
            columns@ == self.partials(),
    {
        let mut columns: Vec<PartialAggColumn> = Vec::new();
        match self {
            AggKind::Count => columns.push(PartialAggColumn::CountStar),
            AggKind::CountCol => columns.push(PartialAggColumn::CountArg),
            AggKind::Sum => columns.push(PartialAggColumn::Sum),
            AggKind::Min => columns.push(PartialAggColumn::Min),
            AggKind::Max => columns.push(PartialAggColumn::Max),
            AggKind::Avg => {
                columns.push(PartialAggColumn::AvgSum);
                columns.push(PartialAggColumn::AvgCnt);
            },
            AggKind::VarPop | AggKind::VarSamp | AggKind::StddevPop | AggKind::StddevSamp => {
                columns.push(PartialAggColumn::StatCnt);
                columns.push(PartialAggColumn::StatSum);
                columns.push(PartialAggColumn::StatSumSq);
            },
        }
        assert(columns@ =~= self.partials());
        columns
    }
}

/// What the names of a kind of partial result start with.
pub open spec fn partial_prefix(column: PartialAggColumn) -> Seq<char> {
    match column {
        PartialAggColumn::CountStar | PartialAggColumn::CountArg => "PARTIAL_count_"@,
        PartialAggColumn::Sum => "PARTIAL_sum_"@,
        PartialAggColumn::Min => "PARTIAL_min_"@,
        PartialAggColumn::Max => "PARTIAL_max_"@,
        PartialAggColumn::AvgSum => "PARTIAL_avg_sum_"@,
        PartialAggColumn::AvgCnt => "PARTIAL_avg_cnt_"@,
        PartialAggColumn::StatCnt => "PARTIAL_stat_cnt_"@,
        PartialAggColumn::StatSum => "PARTIAL_stat_sum_"@,
        PartialAggColumn::StatSumSq => "PARTIAL_stat_sumsq_"@,
    }
}

/// The name of a partial result of the plan at `slot`.
pub open spec fn partial_name(column: PartialAggColumn, slot: int) -> Seq<char> {
    partial_prefix(column) + decimal(slot as nat)
}

/// Names a partial result of the plan at `slot`.
pub fn partial_column_name(column: PartialAggColumn, slot: usize) -> (name: String)
    ensures
        name@ == partial_name(column, slot as int),
{
    let mut name = match column {
        PartialAggColumn::CountStar | PartialAggColumn::CountArg => "PARTIAL_count_".to_string(),
        PartialAggColumn::Sum => "PARTIAL_sum_".to_string(),
        PartialAggColumn::Min => "PARTIAL_min_".to_string(),
        PartialAggColumn::Max => "PARTIAL_max_".to_string(),
        PartialAggColumn::AvgSum => "PARTIAL_avg_sum_".to_string(),
        PartialAggColumn::AvgCnt => "PARTIAL_avg_cnt_".to_string(),
        PartialAggColumn::StatCnt => "PARTIAL_stat_cnt_".to_string(),
        PartialAggColumn::StatSum => "PARTIAL_stat_sum_".to_string(),
        PartialAggColumn::StatSumSq => "PARTIAL_stat_sumsq_".to_string(),
    };
    name.append(number_text(slot as u64).as_str());
    name
}

/// `function("name")` over a partial result.
pub open spec fn over_partial(
    function: Seq<char>,
    column: PartialAggColumn,
    slot: int,
) -> Seq<char> {
    function + "("@ + quoted(partial_name(column, slot)) + ")"@
}

fn render_over_partial(function: &str, column: PartialAggColumn, slot: usize) -> (sql: String)
    ensures
        sql@ == over_partial(function@, column, slot as int),
{
    let mut sql = function.to_string();
    sql.append("(");
    sql.append(quote_ident(partial_column_name(column, slot).as_str()).as_str());
    sql.append(")");
    sql
}

/// The population variance of merged counts `n`, sums `s` and sums of squares `q`; null over no
/// rows.
pub open spec fn population_variance(n: Seq<char>, s: Seq<char>, q: Seq<char>) -> Seq<char> {
    "(("@ + q + " - "@ + s + " * "@ + s + " / NULLIF("@ + n + ", 0)) / NULLIF("@ + n + ", 0))"@
}

/// The sample variance of merged counts `n`, sums `s` and sums of squares `q`; null over fewer
/// than two rows.
pub open spec fn sample_variance(n: Seq<char>, s: Seq<char>, q: Seq<char>) -> Seq<char> {
    "CASE WHEN "@ + n + " <= 1 THEN NULL ELSE ("@ + q + " - "@ + s + " * "@ + s + " / "@ + n
        + ") / ("@ + n + " - 1) END"@
}

/// The square root of a variance; null where it is null, and never of a negative rounding error.
pub open spec fn deviation(variance: Seq<char>) -> Seq<char> {
    "CASE WHEN "@ + variance + " IS NULL THEN NULL ELSE SQRT(GREATEST("@ + variance + ", 0)) END"@
}

/// The expression that merges the partial results of the plan at `slot`.
pub open spec fn merged(kind: AggKind, slot: int) -> Seq<char> {
    let n = over_partial("SUM"@, PartialAggColumn::StatCnt, slot);
    let s = over_partial("SUM"@, PartialAggColumn::StatSum, slot);
    let q = over_partial("SUM"@, PartialAggColumn::StatSumSq, slot);
    match kind {
        AggKind::Count => over_partial("SUM"@, PartialAggColumn::CountStar, slot),
        AggKind::CountCol => over_partial("SUM"@, PartialAggColumn::CountArg, slot),
        AggKind::Sum => over_partial("SUM"@, PartialAggColumn::Sum, slot),
        AggKind::Min => over_partial("MIN"@, PartialAggColumn::Min, slot),
        AggKind::Max => over_partial("MAX"@, PartialAggColumn::Max, slot),
        AggKind::Avg => "("@ + over_partial("SUM"@, PartialAggColumn::AvgSum, slot) + " / NULLIF("@
            + over_partial("SUM"@, PartialAggColumn::AvgCnt, slot) + ", 0))"@,
        AggKind::VarPop => population_variance(n, s, q),
        AggKind::VarSamp => sample_variance(n, s, q),
        AggKind::StddevPop => deviation(population_variance(n, s, q)),
        AggKind::StddevSamp => deviation(sample_variance(n, s, q)),
    }
}

fn render_population_variance(n: &str, s: &str, q: &str) -> (sql: String)
    ensures
        sql@ == population_variance(n@, s@, q@),
{
    let mut sql = "((".to_string();
    sql.append(q);
    sql.append(" - ");
    sql.append(s);
    sql.append(" * ");
    sql.append(s);
    sql.append(" / NULLIF(");
    sql.append(n);
    sql.append(", 0)) / NULLIF(");
    sql.append(n);
    sql.append(", 0))");
    sql
}

fn render_sample_variance(n: &str, s: &str, q: &str) -> (sql: String)
    ensures
        sql@ == sample_variance(n@, s@, q@),
{
    let mut sql = "CASE WHEN ".to_string();
    sql.append(n);
    sql.append(" <= 1 THEN NULL ELSE (");
    sql.append(q);
    sql.append(" - ");
    sql.append(s);
    sql.append(" * ");
    sql.append(s);
    sql.append(" / ");
    sql.append(n);
    sql.append(") / (");
    sql.append(n);
    sql.append(" - 1) END");
    sql
}

fn render_deviation(variance: &str) -> (sql: String)
    ensures
        sql@ == deviation(variance@),
{
    let mut sql = "CASE WHEN ".to_string();
    sql.append(variance);
    sql.append(" IS NULL THEN NULL ELSE SQRT(GREATEST(");
    sql.append(variance);
    sql.append(", 0)) END");
    sql
}

fn render_merged(kind: AggKind, slot: usize) -> (sql: String)
    ensures
        sql@ == merged(kind, slot as int),
{
    match kind {
        AggKind::Count => render_over_partial("SUM", PartialAggColumn::CountStar, slot),
        AggKind::CountCol => render_over_partial("SUM", PartialAggColumn::CountArg, slot),
        AggKind::Sum => render_over_partial("SUM", PartialAggColumn::Sum, slot),
        AggKind::Min => render_over_partial("MIN", PartialAggColumn::Min, slot),
        AggKind::Max => render_over_partial("MAX", PartialAggColumn::Max, slot),
        AggKind::Avg => {
            let mut sql = "(".to_string();
            sql.append(render_over_partial("SUM", PartialAggColumn::AvgSum, slot).as_str());
            sql.append(" / NULLIF(");
            sql.append(render_over_partial("SUM", PartialAggColumn::AvgCnt, slot).as_str());
            sql.append(", 0))");
            sql
        },
        AggKind::VarPop | AggKind::VarSamp | AggKind::StddevPop | AggKind::StddevSamp => {
            let n = render_over_partial("SUM", PartialAggColumn::StatCnt, slot);
            let s = render_over_partial("SUM", PartialAggColumn::StatSum, slot);
            let q = render_over_partial("SUM", PartialAggColumn::StatSumSq, slot);
            match kind {
                AggKind::VarPop => render_population_variance(
                    n.as_str(),
                    s.as_str(),
                    q.as_str(),
                ),
                AggKind::VarSamp => render_sample_variance(n.as_str(), s.as_str(), q.as_str()),
                AggKind::StddevPop => render_deviation(
                    render_population_variance(n.as_str(), s.as_str(), q.as_str()).as_str(),
                ),
                _ => render_deviation(
                    render_sample_variance(n.as_str(), s.as_str(), q.as_str()).as_str(),
                ),
            }
        },
    }
}

/// The merging expressions of plans, each over the partial results of its own slot.
pub open spec fn merged_items(plans: Seq<AggregatePlanV>) -> Seq<Seq<char>> {
    Seq::new(plans.len(), |i: int| merged(plans[i].kind, i))
}

/// Renders the merging expressions of plans.
pub fn merge_select_items(plans: &Vec<AggregatePlan>) -> (items: Vec<String>)
    ensures
        items.deep_view() == merged_items(plans.deep_view()),
{
    let ghost model = merged_items(plans.deep_view());
    let mut items: Vec<String> = Vec::new();
    let mut i: usize = 0;
    while i < plans.len()
        invariant
            0 <= i <= plans.len(),
            model == merged_items(plans.deep_view()),
            items.deep_view() =~= model.take(i as int),
        decreases plans.len() - i,
    {
        let ghost before = items.deep_view();
        let item = render_merged(plans[i].kind, i);
        items.push(item);
        assert(items.deep_view() =~= before.push(item@));
        i += 1;
    }
    assert(items.deep_view() =~= model);
    items
}

/// An expression cast to the type it is declared with, if any.
pub open spec fn cast_to(expr: Seq<char>, declared: Option<Seq<char>>) -> Seq<char> {
    match declared {
        Some(declared_type) => "CAST("@ + expr + " AS "@ + declared_type + ")"@,
        None => expr,
    }
}

/// Casts an expression to the type it is declared with, if any.
pub fn cast_to_declared_type(expr: &str, declared: Option<&str>) -> (sql: String)
    ensures
        sql@ == cast_to(expr@, declared.deep_view()),
{
    match declared {
        Some(declared_type) => {
            let mut sql = "CAST(".to_string();
            sql.append(expr);
            sql.append(" AS ");
            sql.append(declared_type);
            sql.append(")");
            sql
        },
        None => expr.to_string(),
    }
}

/// The element at `index`, if there is one.
pub open spec fn at(texts: Seq<Seq<char>>, index: int) -> Option<Seq<char>> {
    if 0 <= index < texts.len() {
        Some(texts[index])
    } else {
        None
    }
}

/// The element at `index`, if there is one.
pub fn text_at(texts: &Vec<String>, index: usize) -> (text: Option<&str>)
    ensures
        text.deep_view() == at(texts.deep_view(), index as int),
{
    if index < texts.len() {
        Some(texts[index].as_str())
    } else {
        None
    }
}

/// The merging expressions of plans, cast to the types they are declared with.
pub open spec fn cast_merged_items(
    plans: Seq<AggregatePlanV>,
    types: Seq<Seq<char>>,
) -> Seq<Seq<char>> {
    Seq::new(plans.len(), |i: int| cast_to(merged(plans[i].kind, i), at(types, i)))
}

/// Renders the merging expressions of plans, cast to the types they are declared with.
pub fn cast_merge_items(plans: &Vec<AggregatePlan>, types: &Vec<String>) -> (items: Vec<String>)
    ensures
        items.deep_view() == cast_merged_items(plans.deep_view(), types.deep_view()),
{
    let ghost model = cast_merged_items(plans.deep_view(), types.deep_view());
    let mut items: Vec<String> = Vec::new();
    let mut i: usize = 0;
    while i < plans.len()
        invariant
            0 <= i <= plans.len(),
            model == cast_merged_items(plans.deep_view(), types.deep_view()),
            items.deep_view() =~= model.take(i as int),
        decreases plans.len() - i,
    {
        let ghost before = items.deep_view();
        let item = cast_to_declared_type(
            render_merged(plans[i].kind, i).as_str(),
            text_at(types, i),
        );
        items.push(item);
        assert(items.deep_view() =~= before.push(item@));
        i += 1;
    }
    assert(items.deep_view() =~= model);
    items
}

fn same_optional(a: &Option<String>, b: &Option<String>) -> (same: bool)
    ensures
        same == (a.deep_view() == b.deep_view()),
{
    match (a, b) {
        (Some(left), Some(right)) => same_text(left.as_str(), right.as_str()),
        (None, None) => true,
        _ => false,
    }
}

/// Whether two plans compute the same aggregate.
pub fn same_plan(a: &AggregatePlan, b: &AggregatePlan) -> (same: bool)
    ensures
        same == (a.deep_view() == b.deep_view()),
{
    a.kind == b.kind && same_optional(&a.column, &b.column) && same_optional(
        &a.arg_expr,
        &b.arg_expr,
    )
}

/// The slot of the first plan equal to `plan`.
pub open spec fn plan_slot(plans: Seq<AggregatePlanV>, plan: AggregatePlanV) -> Option<int>
    decreases plans.len(),
{
    if plans.len() == 0 {
        None
    } else {
        match plan_slot(plans.drop_last(), plan) {
            Some(slot) => Some(slot),
            None => if plans.last() == plan {
                Some(plans.len() - 1)
            } else {
                None
            },
        }
    }
}

/// Finds the first plan equal to another.
pub fn find_plan(plans: &Vec<AggregatePlan>, plan: &AggregatePlan) -> (slot: Option<usize>)
    ensures
        match slot {
            Some(at) => plan_slot(plans.deep_view(), plan.deep_view()) == Some(at as int) && at
                < plans.len(),
            None => plan_slot(plans.deep_view(), plan.deep_view()) is None,
        },
{
    let ghost views = plans.deep_view();
    let mut i: usize = 0;
    while i < plans.len()
        invariant
            0 <= i <= plans.len(),
            views == plans.deep_view(),
            plan_slot(views.take(i as int), plan.deep_view()) is None,
        decreases plans.len() - i,
    {
        assert(views.take(i + 1).drop_last() =~= views.take(i as int));
        if same_plan(&plans[i], plan) {
            proof {
                lemma_plan_slot_prefix(views, plan.deep_view(), i + 1);
            }
            return Some(i);
        }
        i += 1;
    }
    assert(views.take(i as int) =~= views);
    None
}

proof fn lemma_plan_slot_prefix(plans: Seq<AggregatePlanV>, plan: AggregatePlanV, n: int)
    requires
        0 <= n <= plans.len(),
        plan_slot(plans.take(n), plan) is Some,
    ensures
        plan_slot(plans, plan) == plan_slot(plans.take(n), plan),
    decreases plans.len() - n,
{
    if n == plans.len() {
        assert(plans.take(n) =~= plans);
    } else {
        assert(plans.take(n + 1).drop_last() =~= plans.take(n));
        lemma_plan_slot_prefix(plans, plan, n + 1);
    }
}

} // verus!
