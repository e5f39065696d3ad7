//! Expression trees: the `column` nodes of a tree, alias stripping and member replacement.

use crate::json::{find_member_text, group_json_views, member_text, Json, JsonV, Members,
    MembersV};
use crate::text::same_text;
use vstd::prelude::*;

verus! {

broadcast use group_json_views;

/// Whether the members are those of a `column` node.
pub open spec fn is_column(members: MembersV) -> bool {
    member_text(members, "type"@) == Some("column"@)
}

/// The `column` nodes of a tree: a node before the nodes below it, left to right.
pub open spec fn column_nodes(node: JsonV) -> Seq<MembersV>
    decreases node,
{
    match node {
        JsonV::Object(members) => {
            let own = if is_column(members) {
                seq![members]
            } else {
                Seq::empty()
            };
            own + member_column_nodes(members)
        },
        JsonV::Array(items) => item_column_nodes(items),
        _ => Seq::empty(),
    }
}

/// The `column` nodes below the members of an object.
pub open spec fn member_column_nodes(members: MembersV) -> Seq<MembersV>
    decreases members,
{
    if members.len() == 0 {
        Seq::empty()
    } else {
        member_column_nodes(members.drop_last()) + column_nodes(members.last().1)
    }
}

/// The `column` nodes of the items of an array.
pub open spec fn item_column_nodes(items: Seq<JsonV>) -> Seq<MembersV>
    decreases items,
{
    if items.len() == 0 {
        Seq::empty()
    } else {
        item_column_nodes(items.drop_last()) + column_nodes(items.last())
    }
}

/// Appends the `column` nodes of a tree to `out`.
pub fn walk_column_nodes<'a>(node: &'a Json, out: &mut Vec<&'a Members>)
    ensures
        final(out).deep_view() == old(out).deep_view() + column_nodes(node@),
    decreases *node,
{
    let ghost before = out.deep_view();
    match node {
        Json::Object(members) => {
            let ghost views = members.deep_view();
            let own = match find_member_text(members, "type") {
                Some(kind) => same_text(kind, "column"),
                None => false,
            };
            if own {
                out.push(members);
                assert(out.deep_view() =~= before.push(views));
            }
            let ghost start = out.deep_view();
            let mut i: usize = 0;
            assert(start + member_column_nodes(views.take(0)) =~= start);
            while i < members.len()
                invariant
                    0 <= i <= members.len(),
                    *node == Json::Object(*members),
                    views == members.deep_view(),
                    out.deep_view() == start + member_column_nodes(views.take(i as int)),
                decreases members.len() - i,
            {
                assert(decreases_to!(*node => node->Object_0@[i as int].1));
                walk_column_nodes(&members[i].1, out);
                assert(views.take(i + 1).drop_last() =~= views.take(i as int));
                assert(out.deep_view() =~= start + member_column_nodes(views.take(i + 1)));
                i += 1;
            }
            assert(views.take(i as int) =~= views);
            assert(out.deep_view() =~= before + column_nodes(node@));
        },
        Json::Array(items) => {
            let ghost views = items.deep_view();
            let mut i: usize = 0;
            assert(before + item_column_nodes(views.take(0)) =~= before);
            while i < items.len()
                invariant
                    0 <= i <= items.len(),
                    *node == Json::Array(*items),
                    views == items.deep_view(),
                    out.deep_view() == before + item_column_nodes(views.take(i as int)),
                decreases items.len() - i,
            {
                assert(decreases_to!(*node => node->Array_0@[i as int]));
                walk_column_nodes(&items[i], out);
                assert(views.take(i + 1).drop_last() =~= views.take(i as int));
                assert(out.deep_view() =~= before + item_column_nodes(views.take(i + 1)));
                i += 1;
            }
            assert(views.take(i as int) =~= views);
        },
        _ => {
            assert(before + column_nodes(node@) =~= before);
        },
    }
}

/// The `column` nodes of a tree.
pub fn columns_of<'a>(node: &'a Json) -> (columns: Vec<&'a Members>)
    ensures
        columns.deep_view() == column_nodes(node@),
{
    let mut columns: Vec<&'a Members> = Vec::new();
    walk_column_nodes(node, &mut columns);
    assert(columns.deep_view() =~= column_nodes(node@));
    columns
}

/// A tree with every `tableAlias` member removed.
pub open spec fn without_aliases(node: JsonV) -> JsonV
    decreases node,
{
    match node {
        JsonV::Object(members) => JsonV::Object(members_without_aliases(members)),
        JsonV::Array(items) => JsonV::Array(items_without_aliases(items)),
        _ => node,
    }
}

/// Members with every `tableAlias` removed from them and from the trees below.
pub open spec fn members_without_aliases(members: MembersV) -> MembersV
    decreases members,
{
    if members.len() == 0 {
        Seq::empty()
    } else {
        let rest = members_without_aliases(members.drop_last());
        if members.last().0 == "tableAlias"@ {
            rest
        } else {
            rest.push((members.last().0, without_aliases(members.last().1)))
        }
    }
}

/// Items with every `tableAlias` member removed below them.
pub open spec fn items_without_aliases(items: Seq<JsonV>) -> Seq<JsonV>
    decreases items,
{
    if items.len() == 0 {
        Seq::empty()
    } else {
        items_without_aliases(items.drop_last()).push(without_aliases(items.last()))
    }
}

/// Copies a tree without its `tableAlias` members, so that it renders bare column names.
pub fn strip_table_alias(node: &Json) -> (bare: Json)
    ensures
        bare@ == without_aliases(node@),
    decreases *node,
{
    match node {
        Json::Object(members) => {
            let ghost views = members.deep_view();
            let mut kept: Members = Vec::new();
            let mut i: usize = 0;
            assert(kept.deep_view() =~= members_without_aliases(views.take(0)));
            while i < members.len()
                invariant
                    0 <= i <= members.len(),
                    *node == Json::Object(*members),
                    views == members.deep_view(),
                    kept.deep_view() == members_without_aliases(views.take(i as int)),
                decreases members.len() - i,
            {
                assert(views.take(i + 1).drop_last() =~= views.take(i as int));
                if !same_text(members[i].0.as_str(), "tableAlias") {
                    assert(decreases_to!(*node => node->Object_0@[i as int].1));
                    let ghost before = kept.deep_view();
                    let value = strip_table_alias(&members[i].1);
                    let key = members[i].0.clone();
                    kept.push((key, value));
                    assert(kept.deep_view() =~= before.push((key@, value@)));
                }
                i += 1;
            }
            assert(views.take(i as int) =~= views);
            Json::Object(kept)
        },
        Json::Array(items) => {
            let ghost views = items.deep_view();
            let mut kept: Vec<Json> = Vec::new();
            let mut i: usize = 0;
            assert(kept.deep_view() =~= items_without_aliases(views.take(0)));
            while i < items.len()
                invariant
                    0 <= i <= items.len(),
                    *node == Json::Array(*items),
                    views == items.deep_view(),
                    kept.deep_view() == items_without_aliases(views.take(i as int)),
                decreases items.len() - i,
            {
                assert(views.take(i + 1).drop_last() =~= views.take(i as int));
                assert(decreases_to!(*node => node->Array_0@[i as int]));
                let ghost before = kept.deep_view();
                let value = strip_table_alias(&items[i]);
                kept.push(value);
                assert(kept.deep_view() =~= before.push(value@));
                i += 1;
            }
            assert(views.take(i as int) =~= views);
            Json::Array(kept)
        },
        _ => node.clone(),
    }
}

/// Members with the value of `key` set: in the place of its first occurrence, or at the end.
pub open spec fn with_member(members: MembersV, key: Seq<char>, value: JsonV) -> MembersV
    decreases members.len(),
{
    if members.len() == 0 {
        seq![(key, value)]
    } else if members[0].0 == key {
        members.update(0, (key, value))
    } else {
        seq![members[0]] + with_member(members.skip(1), key, value)
    }
}

proof fn lemma_with_member_at(members: MembersV, key: Seq<char>, value: JsonV, at: int)
    requires
        0 <= at <= members.len(),
        forall|j: int| 0 <= j < at ==> (#[trigger] members[j]).0 != key,
        at < members.len() ==> members[at].0 == key,
    ensures
        with_member(members, key, value) == if at < members.len() {
            members.update(at, (key, value))
        } else {
            members.push((key, value))
        },
    decreases members.len(),
{
    if members.len() == 0 {
        assert(with_member(members, key, value) =~= members.push((key, value)));
    } else if at > 0 {
        assert(members[0].0 != key);
        let rest = members.skip(1);
        assert forall|j: int| 0 <= j < at - 1 implies (#[trigger] rest[j]).0 != key by {
            assert(rest[j] == members[j + 1]);
        }
        lemma_with_member_at(rest, key, value, at - 1);
        if at < members.len() {
            assert(seq![members[0]] + rest.update(at - 1, (key, value)) =~= members.update(
                at,
                (key, value),
            ));
        } else {
            assert(seq![members[0]] + rest.push((key, value)) =~= members.push((key, value)));
        }
    }
}

/// Sets the value of a key.
pub fn set_member(members: &mut Members, key: &str, value: Json)
    ensures
        final(members).deep_view() == with_member(old(members).deep_view(), key@, value@),
{
    let ghost views = members.deep_view();
    let mut i: usize = 0;
    while i < members.len() && !same_text(members[i].0.as_str(), key)
        invariant
            0 <= i <= members.len(),
            views == members.deep_view(),
            forall|j: int| 0 <= j < i ==> (#[trigger] views[j]).0 != key@,
        decreases members.len() - i,
    {
        i += 1;
    }
    proof {
        lemma_with_member_at(views, key@, value@, i as int);
    }
    let entry = (key.to_string(), value);
    if i < members.len() {
        members.set(i, entry);
        assert(members.deep_view() =~= views.update(i as int, (key@, value@)));
    } else {
        members.push(entry);
        assert(members.deep_view() =~= views.push((key@, value@)));
    }
}

} // verus!
