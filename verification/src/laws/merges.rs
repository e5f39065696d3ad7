//! What shards emit, and what the merging query makes of it.

use crate::aggregates::{at, cast_merged_items, cast_to, merged, merged_items, plan_slot, AggKind,
    AggregatePlanV};
use crate::grouped_agg::detection::GroupedSelectItemV;
use crate::grouped_agg::having::{having_text, having_texts, merged_aggregate, operand_text,
    MergeWriterV, ScalarOverMerge};
use crate::grouped_agg::partials::{all_well_typed, argument_type, first_type, partial_emits,
    plan_emits, well_typed};
use crate::grouped_agg::wrapper::{item_expression, key_emits, key_selects, FanOutSql, GroupedScanV};
use crate::json::JsonV;
use crate::ordering::limit_offset;
use crate::scan::{CommonScanSpecV, ColumnTypeV, ScanSpecV};
use crate::text::{decimal, joined, quoted};
use crate::types::{has_prefix, numeric_type, sum_type};
use vstd::prelude::*;

verus! {

/// A column that a shard emits: a name with the slot of its plan behind it, and a type.
pub open spec fn emitted(prefix: Seq<char>, slot: int, column_type: Seq<char>) -> Seq<char> {
    prefix + decimal(slot as nat) + "\" "@ + column_type
}

/// Every partial result that carries a sum of an average, a variance or a deviation is emitted in a
/// type that holds fractions, and every count as an integer. A sum is emitted in the widened type of
/// its argument, and an extreme in the type of its argument.
pub proof fn lemma_partial_types(
    plan: AggregatePlanV,
    slot: int,
    col_types: Seq<ColumnTypeV>,
    types: Seq<Seq<char>>,
)
    ensures
        ({
            let argument = argument_type(plan.column, plan.arg_expr, col_types, at(types, slot));
            plan_emits(plan, slot, col_types, types) == match plan.kind {
                AggKind::Count | AggKind::CountCol => seq![
                    emitted("\"PARTIAL_count_"@, slot, "DECIMAL(20,0)"@),
                ],
                AggKind::Sum => seq![emitted("\"PARTIAL_sum_"@, slot, sum_type(argument))],
                AggKind::Min => seq![emitted("\"PARTIAL_min_"@, slot, argument)],
                AggKind::Max => seq![emitted("\"PARTIAL_max_"@, slot, argument)],
                AggKind::Avg => seq![
                    emitted("\"PARTIAL_avg_sum_"@, slot, "DOUBLE PRECISION"@),
                    emitted("\"PARTIAL_avg_cnt_"@, slot, "DECIMAL(20,0)"@),
                ],
                AggKind::VarPop | AggKind::VarSamp | AggKind::StddevPop | AggKind::StddevSamp => {
                    seq![
                        emitted("\"PARTIAL_stat_cnt_"@, slot, "DECIMAL(20,0)"@),
                        emitted("\"PARTIAL_stat_sum_"@, slot, "DOUBLE PRECISION"@),
                        emitted("\"PARTIAL_stat_sumsq_"@, slot, "DOUBLE PRECISION"@),
                    ]
                },
            }
        }),
{
    lemma_partial_prefixes();
    let argument = argument_type(plan.column, plan.arg_expr, col_types, at(types, slot));
    let emits = plan_emits(plan, slot, col_types, types);
    assert(emits.len() == plan.kind.partials().len());
    match plan.kind {
        AggKind::Count | AggKind::CountCol => {
            assert(emits[0] =~= emitted("\"PARTIAL_count_"@, slot, "DECIMAL(20,0)"@));
        },
        AggKind::Sum => {
            assert(emits[0] =~= emitted("\"PARTIAL_sum_"@, slot, sum_type(argument)));
        },
        AggKind::Min => {
            assert(emits[0] =~= emitted("\"PARTIAL_min_"@, slot, argument));
        },
        AggKind::Max => {
            assert(emits[0] =~= emitted("\"PARTIAL_max_"@, slot, argument));
        },
        AggKind::Avg => {
            assert(emits[0] =~= emitted("\"PARTIAL_avg_sum_"@, slot, "DOUBLE PRECISION"@));
            assert(emits[1] =~= emitted("\"PARTIAL_avg_cnt_"@, slot, "DECIMAL(20,0)"@));
        },
        _ => {
            assert(emits[0] =~= emitted("\"PARTIAL_stat_cnt_"@, slot, "DECIMAL(20,0)"@));
            assert(emits[1] =~= emitted("\"PARTIAL_stat_sum_"@, slot, "DOUBLE PRECISION"@));
            assert(emits[2] =~= emitted("\"PARTIAL_stat_sumsq_"@, slot, "DOUBLE PRECISION"@));
        },
    }
}

proof fn lemma_partial_prefixes()
    ensures
        "\"PARTIAL_count_"@ == "\""@ + "PARTIAL_count_"@,
        "\"PARTIAL_sum_"@ == "\""@ + "PARTIAL_sum_"@,
        "\"PARTIAL_min_"@ == "\""@ + "PARTIAL_min_"@,
        "\"PARTIAL_max_"@ == "\""@ + "PARTIAL_max_"@,
        "\"PARTIAL_avg_sum_"@ == "\""@ + "PARTIAL_avg_sum_"@,
        "\"PARTIAL_avg_cnt_"@ == "\""@ + "PARTIAL_avg_cnt_"@,
        "\"PARTIAL_stat_cnt_"@ == "\""@ + "PARTIAL_stat_cnt_"@,
        "\"PARTIAL_stat_sum_"@ == "\""@ + "PARTIAL_stat_sum_"@,
        "\"PARTIAL_stat_sumsq_"@ == "\""@ + "PARTIAL_stat_sumsq_"@,
{
    reveal_strlit("\"");
    reveal_strlit("\"PARTIAL_count_");
    reveal_strlit("PARTIAL_count_");
    reveal_strlit("\"PARTIAL_sum_");
    reveal_strlit("PARTIAL_sum_");
    reveal_strlit("\"PARTIAL_min_");
    reveal_strlit("PARTIAL_min_");
    reveal_strlit("\"PARTIAL_max_");
    reveal_strlit("PARTIAL_max_");
    reveal_strlit("\"PARTIAL_avg_sum_");
    reveal_strlit("PARTIAL_avg_sum_");
    reveal_strlit("\"PARTIAL_avg_cnt_");
    reveal_strlit("PARTIAL_avg_cnt_");
    reveal_strlit("\"PARTIAL_stat_cnt_");
    reveal_strlit("PARTIAL_stat_cnt_");
    reveal_strlit("\"PARTIAL_stat_sum_");
    reveal_strlit("PARTIAL_stat_sum_");
    reveal_strlit("\"PARTIAL_stat_sumsq_");
    reveal_strlit("PARTIAL_stat_sumsq_");
    assert("\"PARTIAL_count_"@ =~= "\""@ + "PARTIAL_count_"@);
    assert("\"PARTIAL_sum_"@ =~= "\""@ + "PARTIAL_sum_"@);
    assert("\"PARTIAL_min_"@ =~= "\""@ + "PARTIAL_min_"@);
    assert("\"PARTIAL_max_"@ =~= "\""@ + "PARTIAL_max_"@);
    assert("\"PARTIAL_avg_sum_"@ =~= "\""@ + "PARTIAL_avg_sum_"@);
    assert("\"PARTIAL_avg_cnt_"@ =~= "\""@ + "PARTIAL_avg_cnt_"@);
    assert("\"PARTIAL_stat_cnt_"@ =~= "\""@ + "PARTIAL_stat_cnt_"@);
    assert("\"PARTIAL_stat_sum_"@ =~= "\""@ + "PARTIAL_stat_sum_"@);
    assert("\"PARTIAL_stat_sumsq_"@ =~= "\""@ + "PARTIAL_stat_sumsq_"@);
}

/// The columns of a further plan stand behind those of the plans before it, under its own slot.
pub proof fn lemma_plans_emit_in_their_slots(
    plans: Seq<AggregatePlanV>,
    plan: AggregatePlanV,
    col_types: Seq<ColumnTypeV>,
    types: Seq<Seq<char>>,
)
    ensures
        partial_emits(Seq::empty(), col_types, types).len() == 0,
        partial_emits(plans.push(plan), col_types, types) == partial_emits(plans, col_types, types)
            + plan_emits(plan, plans.len() as int, col_types, types),
{
    assert(plans.push(plan).drop_last() =~= plans);
}

/// The type of a column is that of the first column of its name, and none where none has the name.
pub proof fn lemma_first_type_counts(columns: Seq<ColumnTypeV>, name: Seq<char>)
    ensures
        match first_type(columns, name) {
            Some(found) => exists|i: int|
                0 <= i < columns.len() && (#[trigger] columns[i]).0 == name && columns[i].1 == found
                    && forall|j: int| 0 <= j < i ==> (#[trigger] columns[j]).0 != name,
            None => forall|i: int| 0 <= i < columns.len() ==> (#[trigger] columns[i]).0 != name,
        },
    decreases columns.len(),
{
    if columns.len() > 0 && columns[0].0 != name {
        let rest = columns.skip(1);
        lemma_first_type_counts(rest, name);
        if first_type(rest, name) is Some {
            let found = first_type(rest, name)->0;
            let i = choose|i: int|
                0 <= i < rest.len() && (#[trigger] rest[i]).0 == name && rest[i].1 == found
                    && forall|j: int| 0 <= j < i ==> (#[trigger] rest[j]).0 != name;
            assert(columns[i + 1] == rest[i]);
            assert forall|j: int| 0 <= j < i + 1 implies (#[trigger] columns[j]).0 != name by {
                if j > 0 {
                    assert(rest[j - 1] == columns[j]);
                }
            }
        } else {
            assert forall|i: int| 0 <= i < columns.len() implies (#[trigger] columns[i]).0
                != name by {
                if i > 0 {
                    assert(rest[i - 1] == columns[i]);
                }
            }
        }
    }
}

/// An aggregate over a column has the type of that column as its argument type, whatever is
/// declared; one over an expression has the declared type; and one of which nothing is known is
/// floating point.
pub proof fn lemma_argument_types(
    name: Seq<char>,
    expr: Option<Seq<char>>,
    col_types: Seq<ColumnTypeV>,
    declared: Seq<char>,
    any: Option<Seq<char>>,
)
    ensures
        first_type(col_types, name) matches Some(found) ==> argument_type(
            Some(name),
            expr,
            col_types,
            any,
        ) == found,
        first_type(col_types, name) is None ==> argument_type(Some(name), expr, col_types, any)
            == "DOUBLE PRECISION"@,
        expr is Some ==> argument_type(None, expr, col_types, Some(declared)) == declared,
        argument_type(None, expr, col_types, None) == "DOUBLE PRECISION"@,
        argument_type(None, None, col_types, any) == "DOUBLE PRECISION"@,
{
}

/// Sums, variances and deviations are computed over numbers only: over a column of a numeric type,
/// over a column of unknown type and over an expression. Every other aggregate is computed over
/// anything.
pub proof fn lemma_numbers_only(
    kind: AggKind,
    name: Seq<char>,
    expr: Option<Seq<char>>,
    col_types: Seq<ColumnTypeV>,
)
    ensures
        ({
            let plan = AggregatePlanV { kind, column: Some(name), arg_expr: expr };
            let counted = kind is Count || kind is CountCol || kind is Min || kind is Max
                || kind is Avg;
            well_typed(plan, col_types) <==> counted || (first_type(
                col_types,
                name,
            ) matches Some(found) ==> found == "DOUBLE PRECISION"@ || has_prefix(
                found,
                "DECIMAL("@,
            ))
        }),
        well_typed(AggregatePlanV { kind, column: None, arg_expr: expr }, col_types),
{
}

/// One aggregate over an argument it cannot be computed over is enough for a query to be refused,
/// wherever it stands; a query without aggregates never is.
pub proof fn lemma_every_plan_counts(
    before: Seq<AggregatePlanV>,
    plan: AggregatePlanV,
    behind: Seq<AggregatePlanV>,
    col_types: Seq<ColumnTypeV>,
)
    ensures
        all_well_typed(Seq::empty(), col_types),
        all_well_typed(before.push(plan) + behind, col_types) <==> all_well_typed(before, col_types)
            && well_typed(plan, col_types) && all_well_typed(behind, col_types),
{
    let plans = before.push(plan) + behind;
    assert(plans[before.len() as int] == plan);
    if all_well_typed(plans, col_types) {
        assert forall|i: int| 0 <= i < before.len() implies well_typed(
            #[trigger] before[i],
            col_types,
        ) by {
            assert(plans[i] == before[i]);
        }
        assert forall|i: int| 0 <= i < behind.len() implies well_typed(
            #[trigger] behind[i],
            col_types,
        ) by {
            assert(plans[before.len() + 1 + i] == behind[i]);
        }
    }
}

/// The function that merges a partial result, over the column of its slot.
pub open spec fn over(function: Seq<char>, prefix: Seq<char>, slot: int) -> Seq<char> {
    function + quoted(prefix + decimal(slot as nat)) + ")"@
}

/// Counts and sums are merged by adding them, extremes by taking the extreme of them, and an
/// average is the sum of the sums divided by the sum of the counts, null over no rows.
pub proof fn lemma_simple_merges(slot: int)
    ensures
        merged(AggKind::Count, slot) == over("SUM("@, "PARTIAL_count_"@, slot),
        merged(AggKind::CountCol, slot) == over("SUM("@, "PARTIAL_count_"@, slot),
        merged(AggKind::Sum, slot) == over("SUM("@, "PARTIAL_sum_"@, slot),
        merged(AggKind::Min, slot) == over("MIN("@, "PARTIAL_min_"@, slot),
        merged(AggKind::Max, slot) == over("MAX("@, "PARTIAL_max_"@, slot),
        merged(AggKind::Avg, slot) == "("@ + over("SUM("@, "PARTIAL_avg_sum_"@, slot)
            + " / NULLIF("@ + over("SUM("@, "PARTIAL_avg_cnt_"@, slot) + ", 0))"@,
{
    lemma_merge_functions();
}

proof fn lemma_merge_functions()
    ensures
        "SUM("@ == "SUM"@ + "("@,
        "MIN("@ == "MIN"@ + "("@,
        "MAX("@ == "MAX"@ + "("@,
{
    reveal_strlit("SUM(");
    reveal_strlit("SUM");
    reveal_strlit("MIN(");
    reveal_strlit("MIN");
    reveal_strlit("MAX(");
    reveal_strlit("MAX");
    reveal_strlit("(");
    assert("SUM("@ =~= "SUM"@ + "("@);
    assert("MIN("@ =~= "MIN"@ + "("@);
    assert("MAX("@ =~= "MAX"@ + "("@);
}

/// A variance is rebuilt from the sums of the counts `n`, of the values `s` and of their squares
/// `q`: the population variance is `(q - s*s/n) / n`, null over no rows, and the sample variance
/// `(q - s*s/n) / (n - 1)`, null over fewer than two. A deviation is the root of the variance, null
/// where that is null and of zero where rounding made it negative.
pub proof fn lemma_variance_merges(slot: int)
    ensures
        ({
            let n = over("SUM("@, "PARTIAL_stat_cnt_"@, slot);
            let s = over("SUM("@, "PARTIAL_stat_sum_"@, slot);
            let q = over("SUM("@, "PARTIAL_stat_sumsq_"@, slot);
            let population = "(("@ + q + " - "@ + s + " * "@ + s + " / NULLIF("@ + n
                + ", 0)) / NULLIF("@ + n + ", 0))"@;
            let sample = "CASE WHEN "@ + n + " <= 1 THEN NULL ELSE ("@ + q + " - "@ + s + " * "@ + s
                + " / "@ + n + ") / ("@ + n + " - 1) END"@;
            &&& merged(AggKind::VarPop, slot) == population
            &&& merged(AggKind::VarSamp, slot) == sample
            &&& merged(AggKind::StddevPop, slot) == "CASE WHEN "@ + population
                + " IS NULL THEN NULL ELSE SQRT(GREATEST("@ + population + ", 0)) END"@
            &&& merged(AggKind::StddevSamp, slot) == "CASE WHEN "@ + sample
                + " IS NULL THEN NULL ELSE SQRT(GREATEST("@ + sample + ", 0)) END"@
        }),
{
    lemma_merge_functions();
}

/// Each plan is merged over the partial results of its own slot, and cast to its own type where it
/// has one.
pub proof fn lemma_plans_merge_in_their_slots(
    plans: Seq<AggregatePlanV>,
    types: Seq<Seq<char>>,
    slot: int,
)
    requires
        0 <= slot < plans.len(),
    ensures
        merged_items(plans).len() == plans.len(),
        merged_items(plans)[slot] == merged(plans[slot].kind, slot),
        cast_merged_items(plans, types).len() == plans.len(),
        slot < types.len() ==> cast_merged_items(plans, types)[slot] == "CAST("@ + merged(
            plans[slot].kind,
            slot,
        ) + " AS "@ + types[slot] + ")"@,
        slot >= types.len() ==> cast_merged_items(plans, types)[slot] == merged(
            plans[slot].kind,
            slot,
        ),
{
}

/// A text is cast to a declared type, and left as it is where none is declared.
pub proof fn lemma_casts(expr: Seq<char>, declared: Seq<char>)
    ensures
        cast_to(expr, None) == expr,
        cast_to(expr, Some(declared)) == "CAST("@ + expr + " AS "@ + declared + ")"@,
{
}

/// A plan is found at its first slot, and not found where it is not among the plans.
pub proof fn lemma_first_slot_is_found(plans: Seq<AggregatePlanV>, plan: AggregatePlanV)
    ensures
        match plan_slot(plans, plan) {
            Some(slot) => 0 <= slot < plans.len() && plans[slot] == plan && forall|i: int|
                0 <= i < slot ==> #[trigger] plans[i] != plan,
            None => forall|i: int| 0 <= i < plans.len() ==> #[trigger] plans[i] != plan,
        },
    decreases plans.len(),
{
    if plans.len() > 0 {
        let rest = plans.drop_last();
        lemma_first_slot_is_found(rest, plan);
        assert forall|i: int| 0 <= i < rest.len() implies #[trigger] plans[i] == rest[i] by {}
    }
}

/// Shards emit each group key as text, in its slot and before every partial result; the merged rows
/// hold it cast back to its type.
pub proof fn lemma_group_keys_come_first(scan: GroupedScanV, slot: int)
    requires
        0 <= slot < scan.group_keys.len(),
    ensures
        scan.emits()[slot] == "\"GK_"@ + decimal(slot as nat) + "\""@ + " VARCHAR(2000000)"@,
        scan.emits().skip(scan.group_keys.len() as int) == partial_emits(
            scan.aggregates,
            scan.col_types,
            scan.aggregate_types,
        ),
        key_selects(scan.group_keys.len(), scan.group_key_types).len() == scan.group_keys.len(),
        slot < scan.group_key_types.len() ==> key_selects(
            scan.group_keys.len(),
            scan.group_key_types,
        )[slot] == "CAST("@ + ("\"GK_"@ + decimal(slot as nat) + "\""@) + " AS "@
            + scan.group_key_types[slot] + ")"@,
        slot >= scan.group_key_types.len() ==> key_selects(
            scan.group_keys.len(),
            scan.group_key_types,
        )[slot] == "\"GK_"@ + decimal(slot as nat) + "\""@,
{
    assert(key_emits(scan.group_keys.len()).len() == scan.group_keys.len());
    assert(scan.emits().skip(scan.group_keys.len() as int) =~= partial_emits(
        scan.aggregates,
        scan.col_types,
        scan.aggregate_types,
    ));
}

/// The column of an item is the group key or the merged aggregate of the slot that it names, the
/// text of a constant, or the expression over merged aggregates cast to its declared type.
pub proof fn lemma_items_are_written(
    scan: GroupedScanV,
    scalar: ScalarOverMerge,
    slot: usize,
    place: usize,
    text: Seq<char>,
    node: JsonV,
    declared: Seq<char>,
)
    ensures
        ({
            let keys = key_selects(scan.group_keys.len(), scan.group_key_types);
            let merges = cast_merged_items(scan.aggregates, scan.aggregate_types);
            let plans = scan.aggregates;
            &&& slot < keys.len() ==> item_expression(
                GroupedSelectItemV::GroupKey { group_key_slot: slot, select_index: place },
                keys,
                merges,
                plans,
                scalar,
            ) == Some(keys[slot as int])
            &&& slot < merges.len() ==> item_expression(
                GroupedSelectItemV::Aggregate { plan_slot: slot, select_index: place },
                keys,
                merges,
                plans,
                scalar,
            ) == Some(merges[slot as int])
            &&& item_expression(
                GroupedSelectItemV::Constant { select_index: place, projection: text },
                keys,
                merges,
                plans,
                scalar,
            ) == Some(text)
            &&& item_expression(
                GroupedSelectItemV::ScalarOverAggregate {
                    select_index: place,
                    node,
                    declared_type: declared,
                },
                keys,
                merges,
                plans,
                scalar,
            ) == match scalar(node, plans, merged_items(plans)) {
                Some(expr) => Some("CAST("@ + expr + " AS "@ + declared + ")"@),
                None => None,
            }
        }),
{
}

/// A clause that is there and holds something, behind its keyword.
pub open spec fn behind(keyword: Seq<char>, clause: Option<Seq<char>>) -> Seq<char> {
    match clause {
        Some(text) => if text.len() > 0 {
            keyword + text
        } else {
            Seq::empty()
        },
        None => Seq::empty(),
    }
}

/// The merging query selects its columns from the scan, groups by every group key in its slot, and
/// filters, sorts and cuts the merged groups, in this order. The shards are told the template as it
/// is but for its limit.
pub proof fn lemma_merging_query_is_written(
    scan: GroupedScanV,
    scalar: ScalarOverMerge,
    fan_out: FanOutSql,
)
    ensures
        ({
            let told = ScanSpecV {
                common: CommonScanSpecV { limit: None, ..scan.template.common },
                files: scan.template.files,
            };
            let keys = Seq::new(
                scan.group_keys.len(),
                |slot: int| "\"GK_"@ + decimal(slot as nat) + "\""@,
            );
            scan.sql(scalar, fan_out) == "SELECT "@ + joined(scan.selects(scalar), ", "@)
                + " FROM ("@ + fan_out(told, scan.shards, joined(scan.emits(), ", "@))
                + ") GROUP BY "@ + joined(keys, ", "@) + behind(" HAVING "@, scan.having) + behind(
                " ORDER BY "@,
                scan.order_by,
            ) + limit_offset(scan.limit, scan.offset)
        }),
{
    let keys = Seq::new(
        scan.group_keys.len(),
        |slot: int| "\"GK_"@ + decimal(slot as nat) + "\""@,
    );
    assert(crate::grouped_agg::wrapper::key_columns(scan.group_keys.len()) =~= keys);
}

/// The member of a node that is an operand.
pub open spec fn operand(node: JsonV, key: Seq<char>) -> Option<JsonV> {
    node.present_field(key)
}

/// Whether an operand of a node has the text `text`.
pub open spec fn operand_is(
    node: JsonV,
    key: Seq<char>,
    plans: Seq<AggregatePlanV>,
    writer: MergeWriterV,
    text: Seq<char>,
) -> bool {
    operand(node, key) matches Some(inner) && operand_text(inner, plans, writer) == Some(text)
}

proof fn lemma_kinds_differ()
    ensures
        "function_aggregate"@.len() == 18,
        "predicate_and"@.len() == 13,
        "predicate_or"@.len() == 12,
        "predicate_not"@.len() == 13,
        "predicate_is_null"@.len() == 17,
        "predicate_is_not_null"@.len() == 21,
        "predicate_equal"@.len() == 15,
        "predicate_notequal"@.len() == 18,
        "predicate_less"@.len() == 14,
        "predicate_lessequal"@.len() == 19,
        "predicate_greater"@.len() == 17,
        "predicate_greaterequal"@.len() == 22,
        "predicate_between"@.len() == 17,
        "predicate_and"@[10] != "predicate_not"@[10],
        "predicate_is_null"@[10] != "predicate_greater"@[10],
        "predicate_is_null"@[10] != "predicate_between"@[10],
        "predicate_greater"@[10] != "predicate_between"@[10],
        "function_aggregate"@[0] != "predicate_notequal"@[0],
{
    reveal_strlit("function_aggregate");
    reveal_strlit("predicate_and");
    reveal_strlit("predicate_or");
    reveal_strlit("predicate_not");
    reveal_strlit("predicate_is_null");
    reveal_strlit("predicate_is_not_null");
    reveal_strlit("predicate_equal");
    reveal_strlit("predicate_notequal");
    reveal_strlit("predicate_less");
    reveal_strlit("predicate_lessequal");
    reveal_strlit("predicate_greater");
    reveal_strlit("predicate_greaterequal");
    reveal_strlit("predicate_between");
}

/// A range predicate has its expression first, then its left operand as the lower bound and its
/// right operand as the upper bound.
pub proof fn lemma_between_keeps_its_bounds(
    node: JsonV,
    plans: Seq<AggregatePlanV>,
    writer: MergeWriterV,
    target: Seq<char>,
    low: Seq<char>,
    high: Seq<char>,
)
    requires
        node.is_kind("predicate_between"@),
        operand_is(node, "expression"@, plans, writer, target),
        operand_is(node, "left"@, plans, writer, low),
        operand_is(node, "right"@, plans, writer, high),
    ensures
        having_text(node, plans, writer) == Some(
            "("@ + target + " BETWEEN "@ + low + " AND "@ + high + ")"@,
        ),
{
    lemma_kinds_differ();
}

/// The sign of a comparison between its operands.
pub open spec fn sign_of(kind: Seq<char>) -> Option<Seq<char>> {
    if kind == "predicate_equal"@ {
        Some(" = "@)
    } else if kind == "predicate_notequal"@ {
        Some(" <> "@)
    } else if kind == "predicate_less"@ {
        Some(" < "@)
    } else if kind == "predicate_lessequal"@ {
        Some(" <= "@)
    } else if kind == "predicate_greater"@ {
        Some(" > "@)
    } else if kind == "predicate_greaterequal"@ {
        Some(" >= "@)
    } else {
        None
    }
}

/// A comparison has its left operand to the left of its sign and its right operand to the right.
pub proof fn lemma_comparisons_keep_their_sides(
    node: JsonV,
    plans: Seq<AggregatePlanV>,
    writer: MergeWriterV,
    kind: Seq<char>,
    left: Seq<char>,
    right: Seq<char>,
)
    requires
        node.is_kind(kind),
        sign_of(kind) is Some,
        operand_is(node, "left"@, plans, writer, left),
        operand_is(node, "right"@, plans, writer, right),
    ensures
        having_text(node, plans, writer) == Some("("@ + left + sign_of(kind)->0 + right + ")"@),
{
    lemma_kinds_differ();
    reveal_strlit(" ");
    reveal_strlit("=");
    reveal_strlit("<>");
    reveal_strlit("<");
    reveal_strlit("<=");
    reveal_strlit(">");
    reveal_strlit(">=");
    reveal_strlit(" = ");
    reveal_strlit(" <> ");
    reveal_strlit(" < ");
    reveal_strlit(" <= ");
    reveal_strlit(" > ");
    reveal_strlit(" >= ");
    let text = having_text(node, plans, writer)->0;
    assert(text =~= "("@ + left + sign_of(kind)->0 + right + ")"@);
}

/// A negation and the two null tests are written around their expression.
pub proof fn lemma_tests_are_written(
    node: JsonV,
    plans: Seq<AggregatePlanV>,
    writer: MergeWriterV,
    inner: Seq<char>,
)
    requires
        operand_is(node, "expression"@, plans, writer, inner),
    ensures
        node.is_kind("predicate_not"@) ==> having_text(node, plans, writer) == Some(
            "(NOT "@ + inner + ")"@,
        ),
        node.is_kind("predicate_is_null"@) ==> having_text(node, plans, writer) == Some(
            "("@ + inner + " IS NULL)"@,
        ),
        node.is_kind("predicate_is_not_null"@) ==> having_text(node, plans, writer) == Some(
            "("@ + inner + " IS NOT NULL)"@,
        ),
{
    lemma_kinds_differ();
}

/// A conjunction or disjunction lists its parts in their order, between parentheses where there
/// are several; it has a text exactly where it has parts and each of them has one.
pub proof fn lemma_junctions_list_their_parts(
    node: JsonV,
    parts: Seq<JsonV>,
    plans: Seq<AggregatePlanV>,
    writer: MergeWriterV,
)
    requires
        node.field("expressions"@) == Some(JsonV::Array(parts)),
        node.is_kind("predicate_and"@) || node.is_kind("predicate_or"@),
    ensures
        ({
            let operator = if node.is_kind("predicate_and"@) {
                " AND "@
            } else {
                " OR "@
            };
            let texts = Seq::new(
                parts.len(),
                |i: int| having_text(parts[i], plans, writer)->0,
            );
            let complete = parts.len() > 0 && forall|i: int|
                0 <= i < parts.len() ==> having_text(#[trigger] parts[i], plans, writer) is Some;
            having_text(node, plans, writer) == if !complete {
                None
            } else if parts.len() == 1 {
                Some(texts[0])
            } else {
                Some("("@ + joined(texts, operator) + ")"@)
            }
        }),
{
    lemma_kinds_differ();
    lemma_having_texts(parts, plans, writer);
    let texts = Seq::new(parts.len(), |i: int| having_text(parts[i], plans, writer)->0);
    if having_texts(parts, plans, writer) is Some {
        assert(having_texts(parts, plans, writer)->0 =~= texts);
    }
}

/// A conjunction or disjunction that lists no parts has no text, and neither has a node of any kind
/// that is no aggregate and no predicate over aggregates.
pub proof fn lemma_nothing_to_write(
    node: JsonV,
    plans: Seq<AggregatePlanV>,
    writer: MergeWriterV,
)
    ensures
        (node.is_kind("predicate_and"@) || node.is_kind("predicate_or"@)) && !(node.field(
            "expressions"@,
        ) matches Some(JsonV::Array(_))) ==> having_text(node, plans, writer) is None,
        having_text(node, plans, writer) is Some ==> {
            ||| node.is_kind("function_aggregate"@)
            ||| node.is_kind("predicate_and"@)
            ||| node.is_kind("predicate_or"@)
            ||| node.is_kind("predicate_not"@)
            ||| node.is_kind("predicate_is_null"@)
            ||| node.is_kind("predicate_is_not_null"@)
            ||| node.is_kind("predicate_between"@)
            ||| node.is_kind("predicate_equal"@)
            ||| node.is_kind("predicate_notequal"@)
            ||| node.is_kind("predicate_less"@)
            ||| node.is_kind("predicate_lessequal"@)
            ||| node.is_kind("predicate_greater"@)
            ||| node.is_kind("predicate_greaterequal"@)
        },
{
    lemma_kinds_differ();
}

proof fn lemma_having_texts(
    nodes: Seq<JsonV>,
    plans: Seq<AggregatePlanV>,
    writer: MergeWriterV,
)
    ensures
        having_texts(nodes, plans, writer) is Some <==> forall|i: int|
            0 <= i < nodes.len() ==> having_text(#[trigger] nodes[i], plans, writer) is Some,
        having_texts(nodes, plans, writer) matches Some(texts) ==> texts.len() == nodes.len()
            && forall|i: int|
            0 <= i < nodes.len() ==> Some(#[trigger] texts[i]) == having_text(
                nodes[i],
                plans,
                writer,
            ),
    decreases nodes.len(),
{
    if nodes.len() > 0 {
        let rest = nodes.drop_last();
        lemma_having_texts(rest, plans, writer);
        assert(nodes[nodes.len() - 1] == nodes.last());
        if forall|i: int|
            0 <= i < nodes.len() ==> having_text(#[trigger] nodes[i], plans, writer) is Some {
            assert forall|i: int| 0 <= i < rest.len() implies having_text(
                #[trigger] rest[i],
                plans,
                writer,
            ) is Some by {
                assert(rest[i] == nodes[i]);
            }
        }
        if having_texts(nodes, plans, writer) is Some {
            assert forall|i: int| 0 <= i < nodes.len() implies having_text(
                #[trigger] nodes[i],
                plans,
                writer,
            ) is Some by {
                if i < rest.len() {
                    assert(rest[i] == nodes[i]);
                }
            }
        }
    }
}

/// An aggregate is the merging expression of the first slot that holds its plan, uncast, and has no
/// text where no slot does. It reads the same as an operand.
pub proof fn lemma_aggregates_are_merged(
    node: JsonV,
    plans: Seq<AggregatePlanV>,
    writer: MergeWriterV,
)
    requires
        node.is_kind("function_aggregate"@),
    ensures
        match (writer.aggregate)(node) {
            Some(plan) => if plans.contains(plan) {
                exists|slot: int|
                    0 <= slot < plans.len() && plans[slot] == plan && having_text(
                        node,
                        plans,
                        writer,
                    ) == Some(#[trigger] merged(plans[slot].kind, slot))
            } else {
                having_text(node, plans, writer) is None
            },
            None => having_text(node, plans, writer) is None,
        },
        operand_text(node, plans, writer) == having_text(node, plans, writer),
{
    lemma_kinds_differ();
    assert(having_text(node, plans, writer) == merged_aggregate(node, plans, writer));
    if let Some(plan) = (writer.aggregate)(node) {
        lemma_first_slot_is_found(plans, plan);
        if let Some(slot) = plan_slot(plans, plan) {
            assert(merged_items(plans)[slot] == merged(plans[slot].kind, slot));
        }
    }
}

/// Whether a kind of node is written over merged groups by itself.
pub open spec fn merges_itself(kind: Seq<char>) -> bool {
    ||| kind == "function_aggregate"@
    ||| kind == "predicate_and"@
    ||| kind == "predicate_or"@
    ||| kind == "predicate_not"@
    ||| kind == "predicate_between"@
    ||| kind == "predicate_is_null"@
    ||| kind == "predicate_is_not_null"@
    ||| sign_of(kind) is Some
}

/// An operand that is a predicate or an aggregate is written as such; any other is an expression
/// over the merged aggregates. Neither it nor a predicate has a text without a kind, and a predicate
/// of another kind has none.
pub proof fn lemma_operands_are_written(
    node: JsonV,
    plans: Seq<AggregatePlanV>,
    writer: MergeWriterV,
    kind: Seq<char>,
)
    ensures
        node.is_kind(kind) && merges_itself(kind) ==> operand_text(node, plans, writer)
            == having_text(node, plans, writer),
        node.is_kind(kind) && !merges_itself(kind) ==> operand_text(node, plans, writer) == (
        writer.scalar)(node, plans, merged_items(plans)) && having_text(node, plans, writer) is None,
        node.text_field("type"@) is None ==> operand_text(node, plans, writer) is None
            && having_text(node, plans, writer) is None,
{
}

/// A predicate has no text where an operand that it needs has none.
pub proof fn lemma_missing_operands(
    node: JsonV,
    plans: Seq<AggregatePlanV>,
    writer: MergeWriterV,
    kind: Seq<char>,
    key: Seq<char>,
)
    requires
        node.is_kind(kind),
        operand(node, key) matches Some(inner) ==> operand_text(inner, plans, writer) is None,
        (key == "left"@ || key == "right"@) && (sign_of(kind) is Some || kind
            == "predicate_between"@) || key == "expression"@ && (kind == "predicate_between"@ || kind
            == "predicate_not"@ || kind == "predicate_is_null"@ || kind
            == "predicate_is_not_null"@),
    ensures
        having_text(node, plans, writer) is None,
{
    lemma_kinds_differ();
}

/// Whether a type name is numeric is read off its start: `DOUBLE PRECISION`, or a decimal.
pub proof fn lemma_numeric_types(name: Seq<char>, rest: Seq<char>)
    ensures
        numeric_type("DOUBLE PRECISION"@),
        numeric_type("DECIMAL("@ + rest),
        numeric_type(name) ==> name == "DOUBLE PRECISION"@ || name.len() >= 8 && name.take(8)
            == "DECIMAL("@,
{
    reveal_strlit("DECIMAL(");
    assert(("DECIMAL("@ + rest).take(8) =~= "DECIMAL("@);
}

} // verus!
