//! Predicates and sort keys over merged aggregates.

use crate::aggregates::{find_plan, merge_select_items, merged_items, plan_slot, AggregatePlan,
    AggregatePlanV};

use crate::handed::{callable, computes};
use crate::json::{group_json_views, lemma_field_decreases, lemma_items_field_decreases, Json,
    JsonV};

use crate::text::{join, joined, same_text};
use vstd::prelude::*;

verus! {

broadcast use group_json_views;

/// An expression over aggregates, written over the merging expressions of plans.
pub type ScalarOverMerge = spec_fn(JsonV, Seq<AggregatePlanV>, Seq<Seq<char>>) -> Option<Seq<char>>;

/// `f` can be called for every expression.
pub open spec fn can_write_scalars<
    M: Fn(&Json, &Vec<AggregatePlan>, &Vec<String>) -> Option<String>,
>(f: M) -> bool {
    forall|node: &Json, plans: &Vec<AggregatePlan>, merged: &Vec<String>| #[trigger]
        f.requires((node, plans, merged))
}

/// Whatever `f` writes for an expression is what `g` says of it.
pub open spec fn writes_scalars<
    M: Fn(&Json, &Vec<AggregatePlan>, &Vec<String>) -> Option<String>,
>(f: M, g: ScalarOverMerge) -> bool {
    forall|node: &Json, plans: &Vec<AggregatePlan>, merged: &Vec<String>, r: Option<String>|
        #[trigger]
        f.ensures((node, plans, merged), r) ==> r.deep_view() == g(
            node@,
            plans.deep_view(),
            merged.deep_view(),
        )
}

/// The functions that a predicate over merged aggregates is handed.
pub struct MergeWriter<A, M> {
    /// Reads an aggregate item, where it decomposes.
    pub aggregate: A,
    /// Writes an expression over aggregates over the merging expressions of plans.
    pub scalar: M,
}

/// The functions of a [`MergeWriter`].
pub struct MergeWriterV {
    pub aggregate: spec_fn(JsonV) -> Option<AggregatePlanV>,
    pub scalar: ScalarOverMerge,
}

impl<
    A: Fn(&Json) -> Option<AggregatePlan>,
    M: Fn(&Json, &Vec<AggregatePlan>, &Vec<String>) -> Option<String>,
> MergeWriter<A, M> {
    /// Every function can be called.
    pub open spec fn ready(self) -> bool {
        callable(self.aggregate) && can_write_scalars(self.scalar)
    }

    /// The functions compute what the model says.
    pub open spec fn writes(self, model: MergeWriterV) -> bool {
        computes(self.aggregate, model.aggregate) && writes_scalars(self.scalar, model.scalar)
    }
}

/// The operator of a comparison.
pub open spec fn comparison(kind: Seq<char>) -> Option<Seq<char>> {
    if kind == "predicate_equal"@ {
        Some("="@)
    } else if kind == "predicate_notequal"@ {
        Some("<>"@)
    } else if kind == "predicate_less"@ {
        Some("<"@)
    } else if kind == "predicate_lessequal"@ {
        Some("<="@)
    } else if kind == "predicate_greater"@ {
        Some(">"@)
    } else if kind == "predicate_greaterequal"@ {
        Some(">="@)
    } else {
        None
    }
}

fn find_comparison(kind: &str) -> (operator: Option<&'static str>)
    ensures
        operator.deep_view() == comparison(kind@),
{
    if same_text(kind, "predicate_equal") {
        Some("=")
    } else if same_text(kind, "predicate_notequal") {
        Some("<>")
    } else if same_text(kind, "predicate_less") {
        Some("<")
    } else if same_text(kind, "predicate_lessequal") {
        Some("<=")
    } else if same_text(kind, "predicate_greater") {
        Some(">")
    } else if same_text(kind, "predicate_greaterequal") {
        Some(">=")
    } else {
        None
    }
}

/// Whether a node type is an aggregate or a predicate, which are written here; other operands are
/// expressions.
pub open spec fn is_merge_kind(kind: Seq<char>) -> bool {
    ||| kind == "function_aggregate"@
    ||| kind == "predicate_and"@
    ||| kind == "predicate_or"@
    ||| kind == "predicate_not"@
    ||| comparison(kind) is Some
    ||| kind == "predicate_between"@
    ||| kind == "predicate_is_null"@
    ||| kind == "predicate_is_not_null"@
}

fn tests_merge_kind(kind: &str) -> (yes: bool)
    ensures
        yes == is_merge_kind(kind@),
{
    same_text(kind, "function_aggregate") || same_text(kind, "predicate_and") || same_text(
        kind,
        "predicate_or",
    ) || same_text(kind, "predicate_not") || find_comparison(kind).is_some() || same_text(
        kind,
        "predicate_between",
    ) || same_text(kind, "predicate_is_null") || same_text(kind, "predicate_is_not_null")
}

/// The merging expression of an aggregate that is among the plans. It is not cast: the comparison
/// is with the merged value.
pub open spec fn merged_aggregate(
    node: JsonV,
    plans: Seq<AggregatePlanV>,
    writer: MergeWriterV,
) -> Option<Seq<char>> {
    match (writer.aggregate)(node) {
        Some(plan) => match plan_slot(plans, plan) {
            Some(slot) => Some(merged_items(plans)[slot]),
            None => None,
        },
        None => None,
    }
}

/// Predicates between parentheses, `operator` between neighbours; none for none, and the predicate
/// itself for one.
pub open spec fn junction(parts: Option<Seq<Seq<char>>>, operator: Seq<char>) -> Option<Seq<char>> {
    match parts {
        Some(texts) => if texts.len() == 0 {
            None
        } else if texts.len() == 1 {
            Some(texts[0])
        } else {
            Some("("@ + joined(texts, operator) + ")"@)
        },
        None => None,
    }
}

/// A predicate over merged aggregates. It has no text when it holds an aggregate that is not among
/// the plans, or a node that is not understood.
pub open spec fn having_text(
    node: JsonV,
    plans: Seq<AggregatePlanV>,
    writer: MergeWriterV,
) -> Option<Seq<char>>
    decreases node, 0int,
{
    let inner = if node.present_field("expression"@) is Some {
        proof {
            lemma_field_decreases(node, "expression"@);
        }
        operand_text(node.present_field("expression"@)->0, plans, writer)
    } else {
        None
    };
    let left = if node.present_field("left"@) is Some {
        proof {
            lemma_field_decreases(node, "left"@);
        }
        operand_text(node.present_field("left"@)->0, plans, writer)
    } else {
        None
    };
    let right = if node.present_field("right"@) is Some {
        proof {
            lemma_field_decreases(node, "right"@);
        }
        operand_text(node.present_field("right"@)->0, plans, writer)
    } else {
        None
    };
    let parts = if node.items_field("expressions"@) is Some {
        proof {
            lemma_items_field_decreases(node, "expressions"@);
        }
        having_texts(node.items_field("expressions"@)->0, plans, writer)
    } else {
        None
    };
    match node.text_field("type"@) {
        None => None,
        Some(kind) => if kind == "function_aggregate"@ {
            merged_aggregate(node, plans, writer)
        } else if kind == "predicate_and"@ {
            junction(parts, " AND "@)
        } else if kind == "predicate_or"@ {
            junction(parts, " OR "@)
        } else if kind == "predicate_not"@ {
            match inner {
                Some(text) => Some("(NOT "@ + text + ")"@),
                None => None,
            }
        } else if kind == "predicate_is_null"@ {
            match inner {
                Some(text) => Some("("@ + text + " IS NULL)"@),
                None => None,
            }
        } else if kind == "predicate_is_not_null"@ {
            match inner {
                Some(text) => Some("("@ + text + " IS NOT NULL)"@),
                None => None,
            }
        } else if comparison(kind) is Some {
            match (left, right) {
                (Some(l), Some(r)) => Some(
                    "("@ + l + " "@ + comparison(kind)->0 + " "@ + r + ")"@,
                ),
                _ => None,
            }
        } else if kind == "predicate_between"@ {
            match (inner, left, right) {
                (Some(target), Some(low), Some(high)) => Some(
                    "("@ + target + " BETWEEN "@ + low + " AND "@ + high + ")"@,
                ),
                _ => None,
            }
        } else {
            None
        },
    }
}

/// An operand of a predicate over merged aggregates.
pub open spec fn operand_text(
    node: JsonV,
    plans: Seq<AggregatePlanV>,
    writer: MergeWriterV,
) -> Option<Seq<char>>
    decreases node, 1int,
{
    match node.text_field("type"@) {
        None => None,
        Some(kind) => if is_merge_kind(kind) {
            having_text(node, plans, writer)
        } else {
            (writer.scalar)(node, plans, merged_items(plans))
        },
    }
}

/// Predicates over merged aggregates, when each has a text.
pub open spec fn having_texts(
    nodes: Seq<JsonV>,
    plans: Seq<AggregatePlanV>,
    writer: MergeWriterV,
) -> Option<Seq<Seq<char>>>
    decreases nodes, 0int,
{
    if nodes.len() == 0 {
        Some(Seq::empty())
    } else {
        match (
            having_texts(nodes.drop_last(), plans, writer),
            having_text(nodes.last(), plans, writer),
        ) {
            (Some(texts), Some(text)) => Some(texts.push(text)),
            _ => None,
        }
    }
}

proof fn lemma_no_having(
    nodes: Seq<JsonV>,
    plans: Seq<AggregatePlanV>,
    writer: MergeWriterV,
    n: int,
)
    requires
        0 <= n <= nodes.len(),
        having_texts(nodes.take(n), plans, writer) is None,
    ensures
        having_texts(nodes, plans, writer) is None,
    decreases nodes.len() - n,
{
    if n == nodes.len() {
        assert(nodes.take(n) =~= nodes);
    } else {
        assert(nodes.take(n + 1).drop_last() =~= nodes.take(n));
        lemma_no_having(nodes, plans, writer, n + 1);
    }
}

fn render_merged_aggregate<
    A: Fn(&Json) -> Option<AggregatePlan>,
    M: Fn(&Json, &Vec<AggregatePlan>, &Vec<String>) -> Option<String>,
>(node: &Json, plans: &Vec<AggregatePlan>, writer: &MergeWriter<A, M>) -> (sql: Option<String>)
    requires
        writer.ready(),
    ensures
        forall|m: MergeWriterV| #[trigger]
            writer.writes(m) ==> sql.deep_view() == merged_aggregate(node@, plans.deep_view(), m),
{
    match (writer.aggregate)(node) {
        Some(plan) => match find_plan(plans, &plan) {
            Some(slot) => {
                let items = merge_select_items(plans);
                assert(items.deep_view().len() == plans@.len());
                Some(items[slot].clone())
            },
            None => None,
        },
        None => None,
    }
}

fn wrap(before: &str, text: &Option<String>, after: &str) -> (sql: Option<String>)
    ensures
        sql.deep_view() == match text.deep_view() {
            Some(inner) => Some(before@ + inner + after@),
            None => None,
        },
{
    match text {
        Some(inner) => {
            let mut sql = before.to_string();
            sql.append(inner.as_str());
            sql.append(after);
            Some(sql)
        },
        None => None,
    }
}

/// Writes a predicate over merged aggregates. The merged rows hold group keys and partial results
/// only, so every aggregate becomes its merging expression; what cannot be written so has no text
/// and is never dropped.
pub fn render_having_over_merge<
    A: Fn(&Json) -> Option<AggregatePlan>,
    M: Fn(&Json, &Vec<AggregatePlan>, &Vec<String>) -> Option<String>,
>(node: &Json, plans: &Vec<AggregatePlan>, writer: &MergeWriter<A, M>) -> (sql: Option<String>)
    requires
        writer.ready(),
    ensures
        forall|m: MergeWriterV| #[trigger]
            writer.writes(m) ==> sql.deep_view() == having_text(node@, plans.deep_view(), m),
    decreases node@, 0int,
{
    let kind = match node.get_str("type") {
        Some(kind) => kind,
        None => {
            return None;
        },
    };
    if same_text(kind, "function_aggregate") {
        return render_merged_aggregate(node, plans, writer);
    }
    if same_text(kind, "predicate_and") || same_text(kind, "predicate_or") {
        let items = match node.get_array("expressions") {
            Some(items) => items,
            None => {
                return None;
            },
        };
        proof {
            lemma_items_field_decreases(node@, "expressions"@);
        }
        return if same_text(kind, "predicate_and") {
            render_having_junction(items, plans, " AND ", writer)
        } else {
            render_having_junction(items, plans, " OR ", writer)
        };
    }
    if !tests_merge_kind(kind) {
        return None;
    }
    let inner = match node.get_present("expression") {
        Some(child) => {
            proof {
                lemma_field_decreases(node@, "expression"@);
            }
            render_having_operand(child, plans, writer)
        },
        None => None,
    };
    if same_text(kind, "predicate_not") {
        return wrap("(NOT ", &inner, ")");
    }
    if same_text(kind, "predicate_is_null") {
        return wrap("(", &inner, " IS NULL)");
    }
    if same_text(kind, "predicate_is_not_null") {
        return wrap("(", &inner, " IS NOT NULL)");
    }
    let left = match node.get_present("left") {
        Some(child) => {
            proof {
                lemma_field_decreases(node@, "left"@);
            }
            render_having_operand(child, plans, writer)
        },
        None => None,
    };
    let right = match node.get_present("right") {
        Some(child) => {
            proof {
                lemma_field_decreases(node@, "right"@);
            }
            render_having_operand(child, plans, writer)
        },
        None => None,
    };
    match find_comparison(kind) {
        Some(operator) => match (&left, &right) {
            (Some(l), Some(r)) => {
                let mut sql = "(".to_string();
                sql.append(l.as_str());
                sql.append(" ");
                sql.append(operator);
                sql.append(" ");
                sql.append(r.as_str());
                sql.append(")");
                Some(sql)
            },
            _ => None,
        },
        None => match (&inner, &left, &right) {
            (Some(target), Some(low), Some(high)) => {
                let mut sql = "(".to_string();
                sql.append(target.as_str());
                sql.append(" BETWEEN ");
                sql.append(low.as_str());
                sql.append(" AND ");
                sql.append(high.as_str());
                sql.append(")");
                Some(sql)
            },
            _ => None,
        },
    }
}

/// Writes an operand of a predicate over merged aggregates.
fn render_having_operand<
    A: Fn(&Json) -> Option<AggregatePlan>,
    M: Fn(&Json, &Vec<AggregatePlan>, &Vec<String>) -> Option<String>,
>(node: &Json, plans: &Vec<AggregatePlan>, writer: &MergeWriter<A, M>) -> (sql: Option<String>)
    requires
        writer.ready(),
    ensures
        forall|m: MergeWriterV| #[trigger]
            writer.writes(m) ==> sql.deep_view() == operand_text(node@, plans.deep_view(), m),
    decreases node@, 1int,
{
    match node.get_str("type") {
        Some(kind) => if tests_merge_kind(kind) {
            render_having_over_merge(node, plans, writer)
        } else {
            (writer.scalar)(node, plans, &merge_select_items(plans))
        },
        None => None,
    }
}

/// Writes predicates joined by `operator`.
fn render_having_junction<
    A: Fn(&Json) -> Option<AggregatePlan>,
    M: Fn(&Json, &Vec<AggregatePlan>, &Vec<String>) -> Option<String>,
>(
    nodes: &Vec<Json>,
    plans: &Vec<AggregatePlan>,
    operator: &str,
    writer: &MergeWriter<A, M>,
) -> (sql: Option<String>)
    requires
        writer.ready(),
    ensures
        forall|m: MergeWriterV| #[trigger]
            writer.writes(m) ==> sql.deep_view() == junction(
                having_texts(nodes.deep_view(), plans.deep_view(), m),
                operator@,
            ),
    decreases nodes.deep_view(), 0int,
{
    let ghost views = nodes.deep_view();
    let mut texts: Vec<String> = Vec::new();
    let mut i: usize = 0;
    assert(texts.deep_view() =~= Seq::empty());
    while i < nodes.len()
        invariant
            0 <= i <= nodes.len(),
            views == nodes.deep_view(),
            writer.ready(),
            forall|m: MergeWriterV| #[trigger]
                writer.writes(m) ==> having_texts(views.take(i as int), plans.deep_view(), m)
                    == Some(texts.deep_view()),
        decreases nodes.len() - i,
    {
        assert(views.take(i + 1).drop_last() =~= views.take(i as int));
        assert(decreases_to!(views => views[i as int]));
        assert(views[i as int] == nodes@[i as int]@);
        let ghost before = texts.deep_view();
        match render_having_over_merge(&nodes[i], plans, writer) {
            Some(text) => {
                texts.push(text);
                assert(texts.deep_view() =~= before.push(text@));
            },
            None => {
                proof {
                    assert forall|m: MergeWriterV| #[trigger] writer.writes(
                        m,
                    ) implies having_texts(views, plans.deep_view(), m) is None by {
                        lemma_no_having(views, plans.deep_view(), m, i + 1);
                    }
                }
                return None;
            },
        }
        i += 1;
    }
    assert(views.take(i as int) =~= views);
    if texts.len() == 0 {
        None
    } else if texts.len() == 1 {
        let ghost list = texts.deep_view();
        let only = texts.pop();
        assert(only.deep_view() == Some(list[0]));
        only
    } else {
        let mut sql = "(".to_string();
        sql.append(join(&texts, operator).as_str());
        sql.append(")");
        Some(sql)
    }
}

} // verus!
