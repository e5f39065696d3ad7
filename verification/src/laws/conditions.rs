//! Every condition of a join is applied exactly once, where all of its legs are in scope.

use crate::joins::attribution::JoinLegsV;
use crate::joins::sql_builders::{attach_point, attached};
use crate::json::JsonV;
use crate::laws::attribution::lemma_attachment_covers;
use crate::laws::counting::times;
use crate::tree::column_nodes;
use vstd::prelude::*;

verus! {

/// How often a text is attached at the points `1..=upto` of the chain.
pub open spec fn times_attached(
    legs: JoinLegsV,
    conditions: Seq<JsonV>,
    texts: Seq<Seq<char>>,
    last: int,
    upto: int,
    text: Seq<char>,
) -> nat
    decreases upto,
{
    if upto <= 0 {
        0
    } else {
        times_attached(legs, conditions, texts, last, upto - 1, text) + times(
            attached(legs, conditions, texts, last, Some(upto)),
            text,
        )
    }
}

proof fn lemma_attached_step(
    legs: JoinLegsV,
    conditions: Seq<JsonV>,
    texts: Seq<Seq<char>>,
    last: int,
    point: Option<int>,
    text: Seq<char>,
)
    requires
        conditions.len() == texts.len(),
        conditions.len() > 0,
    ensures
        times(attached(legs, conditions, texts, last, point), text) == times(
            attached(legs, conditions.drop_last(), texts.drop_last(), last, point),
            text,
        ) + if attach_point(legs, conditions.last(), last) == point && texts.last() == text {
            1nat
        } else {
            0nat
        },
{
    let before = attached(legs, conditions.drop_last(), texts.drop_last(), last, point);
    if attach_point(legs, conditions.last(), last) == point {
        assert(before.push(texts.last()).drop_last() =~= before);
    }
}

proof fn lemma_times_attached_step(
    legs: JoinLegsV,
    conditions: Seq<JsonV>,
    texts: Seq<Seq<char>>,
    last: int,
    upto: int,
    text: Seq<char>,
)
    requires
        conditions.len() == texts.len(),
        conditions.len() > 0,
    ensures
        times_attached(legs, conditions, texts, last, upto, text) == times_attached(
            legs,
            conditions.drop_last(),
            texts.drop_last(),
            last,
            upto,
            text,
        ) + match attach_point(legs, conditions.last(), last) {
            Some(point) => if 1 <= point <= upto && texts.last() == text {
                1nat
            } else {
                0nat
            },
            None => 0nat,
        },
    decreases upto,
{
    if upto > 0 {
        lemma_times_attached_step(legs, conditions, texts, last, upto - 1, text);
        lemma_attached_step(legs, conditions, texts, last, Some(upto), text);
    }
}

proof fn lemma_nothing_attached(
    legs: JoinLegsV,
    conditions: Seq<JsonV>,
    texts: Seq<Seq<char>>,
    last: int,
    upto: int,
    text: Seq<char>,
)
    requires
        conditions.len() == 0,
    ensures
        times_attached(legs, conditions, texts, last, upto, text) == 0,
    decreases upto,
{
    if upto > 0 {
        lemma_nothing_attached(legs, conditions, texts, last, upto - 1, text);
    }
}

/// The points of the chain and the `WHERE` of the query over the legs hold each condition exactly
/// once, taken together.
pub proof fn lemma_conditions_are_applied_once(
    legs: JoinLegsV,
    conditions: Seq<JsonV>,
    texts: Seq<Seq<char>>,
    last: int,
    text: Seq<char>,
)
    requires
        conditions.len() == texts.len(),
    ensures
        times_attached(legs, conditions, texts, last, last, text) + times(
            attached(legs, conditions, texts, last, None),
            text,
        ) == times(texts, text),
    decreases conditions.len(),
{
    if conditions.len() == 0 {
        lemma_nothing_attached(legs, conditions, texts, last, last, text);
    } else {
        lemma_conditions_are_applied_once(
            legs,
            conditions.drop_last(),
            texts.drop_last(),
            last,
            text,
        );
        lemma_times_attached_step(legs, conditions, texts, last, last, text);
        lemma_attached_step(legs, conditions, texts, last, None, text);
    }
}

/// A condition that is attached at a point refers to no leg beyond it, as long as it refers to no
/// leg beyond the chain; and the point is the earliest: the first, or that of one of its legs.
pub proof fn lemma_attached_in_scope(legs: JoinLegsV, condition: JsonV, last: int)
    requires
        forall|leg: usize| legs.refers_to(column_nodes(condition), leg) ==> leg <= last,
    ensures
        attach_point(legs, condition, last) matches Some(point) ==> 1 <= point <= last && (forall|
            leg: usize,
        | legs.refers_to(column_nodes(condition), leg) ==> leg <= point) && (point == 1
            || legs.refers_to(column_nodes(condition), point as usize)),
{
    lemma_attachment_covers(legs, condition);
}

} // verus!
