//! Every conjunct of a filter is applied exactly once.

use crate::joins::attribution::JoinLegsV;
use crate::joins::planning::JoinLeafV;
use crate::joins::rendering::{accepted_part, and_node, conjoined, conjunction, conjuncts,
    conjuncts_of, cross_leg_part, declined_part, leg_part, part, renderable_part, type_screened,
    Rewrite};
use crate::joins::sql_builders::NScanJoinV;
use crate::json::{lemma_items_field_decreases, lookup, JsonV};
use crate::laws::attribution::lemma_leg_in_range;
use crate::laws::counting::{lemma_times_append, lemma_times_filter, times};
use crate::scan::ColumnTypeV;
use vstd::prelude::*;

verus! {

/// The conjuncts of a filter that may be absent.
pub open spec fn conjuncts_in(filter: Option<JsonV>) -> Seq<JsonV> {
    match filter {
        Some(tree) => conjuncts(tree),
        None => Seq::empty(),
    }
}

/// A conjunct does not split any further.
pub proof fn lemma_conjuncts_do_not_split(filter: JsonV, i: int)
    requires
        0 <= i < conjuncts(filter).len(),
    ensures
        conjuncts(conjuncts(filter)[i]) == seq![conjuncts(filter)[i]],
    decreases filter, 0int,
{
    if filter.is_kind("predicate_and"@) && filter.items_field("expressions"@) is Some {
        lemma_items_field_decreases(filter, "expressions"@);
        lemma_all_do_not_split(filter.items_field("expressions"@)->0, i);
    }
}

proof fn lemma_all_do_not_split(filters: Seq<JsonV>, i: int)
    requires
        0 <= i < conjuncts_of(filters).len(),
    ensures
        conjuncts(conjuncts_of(filters)[i]) == seq![conjuncts_of(filters)[i]],
    decreases filters, 0int,
{
    if filters.len() > 0 {
        let before = conjuncts_of(filters.drop_last());
        if i < before.len() {
            lemma_all_do_not_split(filters.drop_last(), i);
        } else {
            lemma_conjuncts_do_not_split(filters.last(), i - before.len());
        }
    }
}

/// Whether no filter of several splits any further.
spec fn unsplit(filters: Seq<JsonV>) -> bool {
    forall|i: int| 0 <= i < filters.len() ==> conjuncts(#[trigger] filters[i]) == seq![filters[i]]
}

proof fn lemma_conjuncts_of_unsplit(filters: Seq<JsonV>)
    requires
        unsplit(filters),
    ensures
        conjuncts_of(filters) == filters,
    decreases filters.len(),
{
    if filters.len() > 0 {
        let rest = filters.drop_last();
        assert forall|i: int| 0 <= i < rest.len() implies conjuncts(#[trigger] rest[i])
            == seq![rest[i]] by {
            assert(rest[i] == filters[i]);
        }
        lemma_conjuncts_of_unsplit(rest);
        assert(filters[filters.len() - 1] == filters.last());
        assert(rest + seq![filters.last()] =~= filters);
    } else {
        assert(conjuncts_of(filters) =~= filters);
    }
}

/// The conjuncts of a `predicate_and` node are those of its parts.
pub proof fn lemma_and_node(filters: Seq<JsonV>)
    ensures
        conjuncts(and_node(filters)) == conjuncts_of(filters),
{
    reveal_strlit("expressions");
    reveal_strlit("type");
    let members = and_node(filters)->Object_0;
    assert("expressions"@.len() != "type"@.len());
    assert(members.skip(1)[0] == members[1]);
    reveal_with_fuel(lookup, 3);
    assert(lookup(members, "expressions"@) == Some(JsonV::Array(filters)));
    assert(lookup(members, "type"@) == Some(JsonV::Str("predicate_and"@)));
}

proof fn lemma_conjunction(filters: Seq<JsonV>)
    requires
        unsplit(filters),
    ensures
        conjuncts_in(conjunction(filters)) == filters,
{
    if filters.len() == 0 {
        assert(conjuncts_in(conjunction(filters)) =~= filters);
    } else if filters.len() == 1 {
        assert(seq![filters[0]] =~= filters);
    } else {
        lemma_and_node(filters);
        lemma_conjuncts_of_unsplit(filters);
    }
}

/// Keeping some conjuncts of a filter keeps exactly these, in their order.
pub proof fn lemma_part_keeps(filter: JsonV, keep: spec_fn(JsonV) -> bool)
    ensures
        conjuncts_in(part(filter, keep)) == conjuncts(filter).filter(keep),
{
    let all = conjuncts(filter);
    let kept = all.filter(keep);
    assert forall|i: int| 0 <= i < kept.len() implies conjuncts(#[trigger] kept[i])
        == seq![kept[i]] by {
        assert(kept.contains(kept[i]));
        all.lemma_filter_contains_rev(keep, kept[i]);
        let j = choose|j: int| 0 <= j < all.len() && all[j] == kept[i];
        lemma_conjuncts_do_not_split(filter, j);
    }
    lemma_conjunction(kept);
}

/// How often a kept part holds a conjunct.
proof fn lemma_times_part(filter: JsonV, keep: spec_fn(JsonV) -> bool, item: JsonV)
    ensures
        times(conjuncts_in(part(filter, keep)), item) == if keep(item) {
            times(conjuncts(filter), item)
        } else {
            0
        },
{
    lemma_part_keeps(filter, keep);
    lemma_times_filter(conjuncts(filter), keep, item);
}

/// Two filters joined into one hold the conjuncts of both.
pub proof fn lemma_conjoined(left: Option<JsonV>, right: Option<JsonV>)
    ensures
        conjuncts_in(conjoined(left, right)) == conjuncts_in(left) + conjuncts_in(right),
{
    match (left, right) {
        (Some(l), Some(r)) => {
            lemma_and_node(seq![l, r]);
            reveal_with_fuel(conjuncts_of, 3);
            assert(seq![l, r].drop_last() =~= seq![l]);
            assert(seq![l].drop_last() =~= Seq::empty());
            assert(conjuncts_of(seq![l, r]) =~= conjuncts(l) + conjuncts(r));
        },
        (Some(l), None) => {
            assert(conjuncts_in(left) + conjuncts_in(right) =~= conjuncts_in(left));
        },
        _ => {
            assert(conjuncts_in(left) + conjuncts_in(right) =~= conjuncts_in(right));
        },
    }
}

/// What the scan dialect can express and what it cannot are, together, the whole filter: each
/// conjunct is in exactly one of the two.
pub proof fn lemma_renderability_splits(
    filter: JsonV,
    renderable: spec_fn(JsonV) -> bool,
    item: JsonV,
)
    ensures
        times(conjuncts_in(renderable_part(filter, renderable)), item) + times(
            conjuncts_in(declined_part(filter, renderable)),
            item,
        ) == times(conjuncts(filter), item),
{
    lemma_times_part(filter, renderable, item);
    lemma_times_part(filter, |conjunct: JsonV| !renderable(conjunct), item);
}

/// How often the first `n` legs are given a conjunct.
pub open spec fn times_in_legs(filter: JsonV, legs: JoinLegsV, n: nat, item: JsonV) -> nat
    decreases n,
{
    if n == 0 {
        0
    } else {
        times_in_legs(filter, legs, (n - 1) as nat, item) + times(
            conjuncts_in(leg_part(filter, legs, (n - 1) as usize)),
            item,
        )
    }
}

proof fn lemma_times_in_legs(filter: JsonV, legs: JoinLegsV, n: nat, item: JsonV)
    requires
        n <= usize::MAX,
    ensures
        times_in_legs(filter, legs, n, item) == match legs.sole_leg(item) {
            Some(leg) => if leg < n {
                times(conjuncts(filter), item)
            } else {
                0
            },
            None => 0,
        },
    decreases n,
{
    if n > 0 {
        let last = (n - 1) as usize;
        lemma_times_in_legs(filter, legs, (n - 1) as nat, item);
        lemma_times_part(
            filter,
            |conjunct: JsonV| legs.sole_leg(conjunct) == Some(last),
            item,
        );
    }
}

/// The filters of the legs and the part that spans legs are, together, the whole filter: each
/// conjunct is in exactly one of them.
pub proof fn lemma_legs_split(filter: JsonV, leaves: Seq<JoinLeafV>, item: JsonV)
    requires
        leaves.len() <= usize::MAX,
    ensures
        times_in_legs(filter, JoinLegsV::of_leaves(leaves), leaves.len(), item) + times(
            conjuncts_in(cross_leg_part(filter, JoinLegsV::of_leaves(leaves))),
            item,
        ) == times(conjuncts(filter), item),
{
    let legs = JoinLegsV::of_leaves(leaves);
    lemma_times_in_legs(filter, legs, leaves.len(), item);
    lemma_times_part(filter, |conjunct: JsonV| legs.sole_leg(conjunct) is None, item);
    if legs.sole_leg(item) is Some {
        let columns = crate::tree::column_nodes(item);
        lemma_leg_in_range(leaves, columns[0]);
    }
}

/// How often a leg applies a conjunct itself, after the screening by column types.
pub open spec fn times_applied(
    side_local: Option<JsonV>,
    col_types: Seq<ColumnTypeV>,
    rewrite: Rewrite,
    item: JsonV,
) -> nat {
    match side_local {
        Some(local) => if type_screened(local, col_types, rewrite).0 is Some {
            times(conjuncts_in(accepted_part(local, col_types, rewrite)), item)
        } else {
            0
        },
        None => 0,
    }
}

/// What a leg applies and what it hands back are, together, the conjuncts it was given: each is in
/// exactly one of the two.
pub proof fn lemma_type_screen_splits(
    side_local: JsonV,
    col_types: Seq<ColumnTypeV>,
    rewrite: Rewrite,
    item: JsonV,
)
    ensures
        times_applied(Some(side_local), col_types, rewrite, item) + times(
            conjuncts_in(type_screened(side_local, col_types, rewrite).1),
            item,
        ) == times(conjuncts(side_local), item),
{
    lemma_times_part(
        side_local,
        |conjunct: JsonV| rewrite(conjunct, col_types) is Some,
        item,
    );
    lemma_times_part(
        side_local,
        |conjunct: JsonV| rewrite(conjunct, col_types) is None,
        item,
    );
}

/// How often the first `n` legs of a join apply a conjunct themselves.
pub open spec fn times_applied_by_legs(join: NScanJoinV, n: int, item: JsonV) -> nat
    decreases n,
{
    if n <= 0 {
        0
    } else {
        times_applied_by_legs(join, n - 1, item) + times_applied(
            join.leg_local(n - 1),
            join.columns()[n - 1],
            join.services.scan.rewrite,
            item,
        )
    }
}

proof fn lemma_legs_apply_or_hand_back(join: NScanJoinV, n: int, item: JsonV)
    requires
        0 <= n <= join.sides.len(),
        n <= usize::MAX,
    ensures
        times_applied_by_legs(join, n, item) + times(conjuncts_in(join.handed_back(n)), item)
            == match join.leg_eligible() {
            Some(filter) => times_in_legs(filter, join.legs(), n as nat, item),
            None => 0,
        },
    decreases n,
{
    if n > 0 {
        lemma_legs_apply_or_hand_back(join, n - 1, item);
        let split = join.leg_split(n - 1);
        lemma_conjoined(join.handed_back(n - 1), split.1);
        lemma_times_append(
            conjuncts_in(join.handed_back(n - 1)),
            conjuncts_in(split.1),
            item,
        );
        match join.leg_local(n - 1) {
            Some(local) => {
                lemma_type_screen_splits(
                    local,
                    join.columns()[n - 1],
                    join.services.scan.rewrite,
                    item,
                );
            },
            None => {},
        }
    }
}

/// The filter of a join is applied exactly once: a conjunct is applied by the legs and by the query
/// over the legs, taken together, as often as the request writes it. None is dropped and none is
/// applied twice.
pub proof fn lemma_filter_is_applied_once(join: NScanJoinV, item: JsonV)
    requires
        join.sides.len() == join.join.tables.len(),
        join.sides.len() <= usize::MAX,
    ensures
        times_applied_by_legs(join, join.sides.len() as int, item) + times(
            conjuncts_in(join.residual()),
            item,
        ) == times(conjuncts_in(join.pushdown_req.present_field("filter"@)), item),
{
    let n = join.sides.len() as int;
    lemma_legs_apply_or_hand_back(join, n, item);
    let both = conjoined(join.cross_leg(), join.declined());
    lemma_conjoined(join.cross_leg(), join.declined());
    lemma_times_append(conjuncts_in(join.cross_leg()), conjuncts_in(join.declined()), item);
    lemma_conjoined(both, join.handed_back(n));
    lemma_times_append(conjuncts_in(both), conjuncts_in(join.handed_back(n)), item);
    match join.pushdown_req.present_field("filter"@) {
        Some(filter) => {
            lemma_renderability_splits(filter, join.services.scan.renderable, item);
            match join.leg_eligible() {
                Some(eligible) => {
                    lemma_legs_split(eligible, join.join.tables, item);
                },
                None => {},
            }
        },
        None => {},
    }
}

} // verus!
