//! Stripping the table aliases of a tree.

use crate::json::{lookup, JsonV, MembersV};
use crate::tree::{items_without_aliases, members_without_aliases, with_member, without_aliases};
use vstd::prelude::*;

verus! {

/// Stripping a concatenation strips its parts.
pub proof fn lemma_strip_append(left: MembersV, right: MembersV)
    ensures
        members_without_aliases(left + right) == members_without_aliases(left)
            + members_without_aliases(right),
    decreases right.len(),
{
    if right.len() == 0 {
        assert(left + right =~= left);
        assert(members_without_aliases(left) + members_without_aliases(right)
            =~= members_without_aliases(left));
    } else {
        assert((left + right).drop_last() =~= left + right.drop_last());
        lemma_strip_append(left, right.drop_last());
        assert(members_without_aliases(left + right) =~= members_without_aliases(left)
            + members_without_aliases(right));
    }
}

proof fn lemma_strip_one(member: (Seq<char>, JsonV))
    ensures
        members_without_aliases(seq![member]) == if member.0 == "tableAlias"@ {
            Seq::empty()
        } else {
            seq![(member.0, without_aliases(member.1))]
        },
{
    assert(seq![member].drop_last() =~= Seq::<(Seq<char>, JsonV)>::empty());
    assert(members_without_aliases(seq![member].drop_last()) =~= Seq::empty());
    assert(members_without_aliases(seq![member]) =~= if member.0 == "tableAlias"@ {
        Seq::empty()
    } else {
        seq![(member.0, without_aliases(member.1))]
    });
}

/// An alias that is set is stripped again.
pub proof fn lemma_strip_set_alias(members: MembersV, value: JsonV)
    ensures
        members_without_aliases(with_member(members, "tableAlias"@, value))
            == members_without_aliases(members),
    decreases members.len(),
{
    let set = ("tableAlias"@, value);
    if members.len() == 0 {
        lemma_strip_one(set);
        assert(members_without_aliases(members) =~= Seq::empty());
    } else {
        let first = members[0];
        let rest = members.skip(1);
        assert(members =~= seq![first] + rest);
        lemma_strip_append(seq![first], rest);
        if first.0 == "tableAlias"@ {
            assert(members.update(0, set) =~= seq![set] + rest);
            lemma_strip_append(seq![set], rest);
            lemma_strip_one(first);
            lemma_strip_one(set);
        } else {
            lemma_strip_set_alias(rest, value);
            lemma_strip_append(seq![first], with_member(rest, "tableAlias"@, value));
        }
    }
}

/// A stripped tree has no alias left to strip.
pub proof fn lemma_strip_is_idempotent(node: JsonV)
    ensures
        without_aliases(without_aliases(node)) == without_aliases(node),
    decreases node, 0int,
{
    match node {
        JsonV::Object(members) => lemma_strip_members_twice(members),
        JsonV::Array(items) => lemma_strip_items_twice(items),
        _ => {},
    }
}

proof fn lemma_strip_members_twice(members: MembersV)
    ensures
        members_without_aliases(members_without_aliases(members)) == members_without_aliases(
            members,
        ),
    decreases members, 0int,
{
    if members.len() > 0 {
        let rest = members.drop_last();
        lemma_strip_members_twice(rest);
        if members.last().0 != "tableAlias"@ {
            lemma_strip_is_idempotent(members.last().1);
            let stripped = members_without_aliases(rest);
            let last = (members.last().0, without_aliases(members.last().1));
            assert(stripped.push(last).drop_last() =~= stripped);
        }
    }
}

proof fn lemma_strip_items_twice(items: Seq<JsonV>)
    ensures
        items_without_aliases(items_without_aliases(items)) == items_without_aliases(items),
    decreases items, 0int,
{
    if items.len() > 0 {
        let rest = items.drop_last();
        lemma_strip_items_twice(rest);
        lemma_strip_is_idempotent(items.last());
        let stripped = items_without_aliases(rest);
        assert(stripped.push(without_aliases(items.last())).drop_last() =~= stripped);
    }
}

/// A stripped object has no `tableAlias` member.
pub proof fn lemma_strip_leaves_no_alias(members: MembersV)
    ensures
        lookup(members_without_aliases(members), "tableAlias"@) is None,
    decreases members.len(),
{
    let stripped = members_without_aliases(members);
    lemma_no_alias_key(members);
    lemma_lookup_absent(stripped, "tableAlias"@);
}

proof fn lemma_no_alias_key(members: MembersV)
    ensures
        forall|i: int|
            0 <= i < members_without_aliases(members).len() ==> (
            #[trigger] members_without_aliases(members)[i]).0 != "tableAlias"@,
    decreases members.len(),
{
    if members.len() > 0 {
        lemma_no_alias_key(members.drop_last());
        let before = members_without_aliases(members.drop_last());
        let stripped = members_without_aliases(members);
        assert forall|i: int| 0 <= i < stripped.len() implies (#[trigger] stripped[i]).0
            != "tableAlias"@ by {
            if i < before.len() {
                assert(stripped[i] == before[i]);
            }
        }
    }
}

/// A key that no member has is not found.
pub proof fn lemma_lookup_absent(members: MembersV, key: Seq<char>)
    requires
        forall|i: int| 0 <= i < members.len() ==> (#[trigger] members[i]).0 != key,
    ensures
        lookup(members, key) is None,
    decreases members.len(),
{
    if members.len() > 0 {
        let rest = members.skip(1);
        assert forall|i: int| 0 <= i < rest.len() implies (#[trigger] rest[i]).0 != key by {
            assert(rest[i] == members[i + 1]);
        }
        lemma_lookup_absent(rest, key);
    }
}

} // verus!
