//! Columns and the legs they belong to.

use crate::joins::attribution::{first_with_alias, leg_alias_text, lemma_highest, ColumnLeg,
    JoinLegsV, LegKeyV, UnattributableColumnV};
use crate::joins::planning::JoinLeafV;
use crate::json::{lookup, member_text, JsonV, MembersV};
use crate::laws::counting::lemma_filter_map_origin;
use crate::laws::trees::lemma_strip_set_alias;
use crate::text::{ascii_same, decimal, digit_char};
use crate::tree::{column_nodes, is_column, item_column_nodes, items_without_aliases,
    member_column_nodes, members_without_aliases, with_member, without_aliases};
use vstd::prelude::*;

verus! {

/// The leg of a key that is found is the leg of one of the keys.
proof fn lemma_first_with_alias(keys: Seq<LegKeyV>, alias: Option<Seq<char>>)
    ensures
        match first_with_alias(keys, alias) {
            Some(leg) => exists|i: int|
                0 <= i < keys.len() && (#[trigger] keys[i]).leg == leg && keys[i].table_alias
                    == alias,
            None => forall|i: int|
                0 <= i < keys.len() ==> (#[trigger] keys[i]).table_alias != alias,
        },
    decreases keys.len(),
{
    if keys.len() > 0 && keys[0].table_alias != alias {
        let rest = keys.skip(1);
        lemma_first_with_alias(rest, alias);
        match first_with_alias(keys, alias) {
            Some(leg) => {
                let i = choose|i: int|
                    0 <= i < rest.len() && (#[trigger] rest[i]).leg == leg && rest[i].table_alias
                        == alias;
                assert(keys[i + 1] == rest[i]);
            },
            None => {
                assert forall|i: int| 0 <= i < keys.len() implies (
                #[trigger] keys[i]).table_alias != alias by {
                    if i > 0 {
                        assert(rest[i - 1] == keys[i]);
                    }
                }
            },
        }
    }
}

/// The keys that match a table are keys of the join, and agree with the table.
pub proof fn lemma_matching(legs: JoinLegsV, table: Seq<char>)
    ensures
        forall|i: int|
            0 <= i < legs.matching(table).len() ==> legs.keys.contains(
                #[trigger] legs.matching(table)[i],
            ) && ascii_same(legs.matching(table)[i].table_name, table),
        forall|i: int|
            0 <= i < legs.keys.len() && ascii_same((#[trigger] legs.keys[i]).table_name, table)
                ==> legs.matching(table).contains(legs.keys[i]),
{
    let keep = |key: LegKeyV| ascii_same(key.table_name, table);
    let found = legs.matching(table);
    assert forall|i: int| 0 <= i < found.len() implies legs.keys.contains(#[trigger] found[i])
        && ascii_same(found[i].table_name, table) by {
        assert(found.contains(found[i]));
        legs.keys.lemma_filter_contains_rev(keep, found[i]);
        legs.keys.lemma_filter_pred(keep, i);
    }
    assert forall|i: int|
        0 <= i < legs.keys.len() && ascii_same((#[trigger] legs.keys[i]).table_name, table) implies
        found.contains(legs.keys[i]) by {
        legs.keys.lemma_filter_contains(keep, i);
    }
}

/// A column belongs to a leg of the join, so its leg indexes the tables of the join.
pub proof fn lemma_leg_in_range(leaves: Seq<JoinLeafV>, column: MembersV)
    requires
        leaves.len() <= usize::MAX,
    ensures
        JoinLegsV::of_leaves(leaves).resolve(column) matches ColumnLeg::Leg(leg) ==> leg
            < leaves.len(),
{
    let legs = JoinLegsV::of_leaves(leaves);
    if legs.resolve(column) is Leg {
        let table = member_text(column, "tableName"@)->0;
        lemma_matching(legs, table);
        lemma_first_with_alias(legs.matching(table), member_text(column, "tableAlias"@));
    }
}

/// The occurrences of a self-joined table stay apart: a column that carries the table name of an
/// occurrence and its alias belongs to that occurrence, as long as no other occurrence of the table
/// carries the same alias.
pub proof fn lemma_occurrences_stay_apart(
    leaves: Seq<JoinLeafV>,
    i: int,
    column: MembersV,
    table: Seq<char>,
)
    requires
        0 <= i < leaves.len() <= usize::MAX,
        member_text(column, "tableName"@) == Some(table),
        ascii_same(leaves[i].table_name, table),
        member_text(column, "tableAlias"@) == leaves[i].table_alias,
        forall|j: int|
            0 <= j < leaves.len() && j != i && ascii_same((#[trigger] leaves[j]).table_name, table)
                ==> leaves[j].table_alias != leaves[i].table_alias,
    ensures
        JoinLegsV::of_leaves(leaves).resolve(column) == ColumnLeg::Leg(i as usize),
{
    let legs = JoinLegsV::of_leaves(leaves);
    let alias = leaves[i].table_alias;
    let keys = legs.matching(table);
    lemma_matching(legs, table);
    lemma_first_with_alias(keys, alias);
    assert(legs.keys[i].leg == i);
    assert(keys.contains(legs.keys[i]));
    let own = choose|k: int| 0 <= k < keys.len() && keys[k] == legs.keys[i];
    assert(keys[own].leg == i && keys[own].table_alias == alias);
    if first_with_alias(keys, alias) is Some {
        let leg = first_with_alias(keys, alias)->0;
        let k = choose|k: int|
            0 <= k < keys.len() && (#[trigger] keys[k]).leg == leg && keys[k].table_alias == alias;
        assert(legs.keys.contains(keys[k]));
        let j = choose|j: int| 0 <= j < legs.keys.len() && legs.keys[j] == keys[k];
        assert(leaves[j].table_alias == alias);
        assert(j == i);
    }
}

/// A table that occurs once owns its columns, whatever alias they carry.
pub proof fn lemma_sole_occurrence_owns(
    leaves: Seq<JoinLeafV>,
    i: int,
    column: MembersV,
    table: Seq<char>,
)
    requires
        0 <= i < leaves.len() <= usize::MAX,
        member_text(column, "tableName"@) == Some(table),
        ascii_same(leaves[i].table_name, table),
        forall|j: int|
            0 <= j < leaves.len() && j != i ==> !ascii_same(
                (#[trigger] leaves[j]).table_name,
                table,
            ),
    ensures
        JoinLegsV::of_leaves(leaves).resolve(column) == ColumnLeg::Leg(i as usize),
{
    let legs = JoinLegsV::of_leaves(leaves);
    let keys = legs.matching(table);
    lemma_matching(legs, table);
    assert(legs.keys[i].leg == i);
    assert(keys.contains(legs.keys[i]));
    assert forall|k: int| 0 <= k < keys.len() implies (#[trigger] keys[k]).leg == i by {
        assert(legs.keys.contains(keys[k]));
        let j = choose|j: int| 0 <= j < legs.keys.len() && legs.keys[j] == keys[k];
        assert(leaves[j].table_name == keys[k].table_name);
    }
}

/// A scan of one table leaves no column unattributable.
pub proof fn lemma_single_scan_attributes(request: JsonV, column: MembersV)
    ensures
        JoinLegsV::of_single_scan(request).resolve(column) !is Unattributable,
{
    let legs = JoinLegsV::of_single_scan(request);
    if member_text(column, "tableName"@) is Some {
        let table = member_text(column, "tableName"@)->0;
        let keys = legs.matching(table);
        lemma_matching(legs, table);
        assert forall|k: int| 0 <= k < keys.len() implies (#[trigger] keys[k]).leg == 0 by {
            assert(legs.keys.contains(keys[k]));
            let j = choose|j: int| 0 <= j < legs.keys.len() && legs.keys[j] == keys[k];
            let tables = request.items_field("involvedTables"@)->0;
            let key_of = |node: JsonV|
                match node.text_field("name"@) {
                    Some(name) => Some(LegKeyV { table_name: name, table_alias: None, leg: 0 }),
                    None => None,
                };
            lemma_filter_map_origin(tables, key_of, j);
        }
    }
}

/// Whether some column could belong to several legs.
pub open spec fn some_unattributable(legs: JoinLegsV, columns: Seq<MembersV>) -> bool {
    exists|i: int| 0 <= i < columns.len() && legs.resolve(#[trigger] columns[i]) is Unattributable
}

proof fn lemma_some_append(legs: JoinLegsV, left: Seq<MembersV>, right: Seq<MembersV>)
    ensures
        some_unattributable(legs, left + right) == (some_unattributable(legs, left)
            || some_unattributable(legs, right)),
{
    let both = left + right;
    if some_unattributable(legs, left) {
        let i = choose|i: int|
            0 <= i < left.len() && legs.resolve(#[trigger] left[i]) is Unattributable;
        assert(both[i] == left[i]);
    }
    if some_unattributable(legs, right) {
        let i = choose|i: int|
            0 <= i < right.len() && legs.resolve(#[trigger] right[i]) is Unattributable;
        assert(both[left.len() + i] == right[i]);
    }
    if some_unattributable(legs, both) {
        let i = choose|i: int|
            0 <= i < both.len() && legs.resolve(#[trigger] both[i]) is Unattributable;
        if i < left.len() {
            assert(left[i] == both[i]);
        } else {
            assert(right[i - left.len()] == both[i]);
        }
    }
}

/// Qualifying a tree fails exactly when one of its columns could belong to several legs.
pub proof fn lemma_qualify_fails_iff(legs: JoinLegsV, node: JsonV)
    ensures
        legs.qualified(node) is Err <==> some_unattributable(legs, column_nodes(node)),
    decreases node, 0int,
{
    match node {
        JsonV::Object(members) => {
            lemma_qualify_members_fails_iff(legs, members);
            let own = if is_column(members) {
                seq![members]
            } else {
                Seq::empty()
            };
            lemma_some_append(legs, own, member_column_nodes(members));
            if is_column(members) {
                assert(own[0] == members);
                assert(some_unattributable(legs, own) == (legs.resolve(
                    members,
                ) is Unattributable));
            }
        },
        JsonV::Array(items) => {
            lemma_qualify_items_fails_iff(legs, items);
        },
        _ => {},
    }
}

proof fn lemma_qualify_members_fails_iff(legs: JoinLegsV, members: MembersV)
    ensures
        legs.qualified_members(members) is Err <==> some_unattributable(
            legs,
            member_column_nodes(members),
        ),
    decreases members, 0int,
{
    if members.len() > 0 {
        lemma_qualify_members_fails_iff(legs, members.drop_last());
        lemma_qualify_fails_iff(legs, members.last().1);
        lemma_some_append(
            legs,
            member_column_nodes(members.drop_last()),
            column_nodes(members.last().1),
        );
    }
}

proof fn lemma_qualify_items_fails_iff(legs: JoinLegsV, items: Seq<JsonV>)
    ensures
        legs.qualified_items(items) is Err <==> some_unattributable(legs, item_column_nodes(items)),
    decreases items, 0int,
{
    if items.len() > 0 {
        lemma_qualify_items_fails_iff(legs, items.drop_last());
        lemma_qualify_fails_iff(legs, items.last());
        lemma_some_append(
            legs,
            item_column_nodes(items.drop_last()),
            column_nodes(items.last()),
        );
    }
}

/// Every tree over a scan of one table can be qualified.
pub proof fn lemma_single_scan_qualifies(request: JsonV, node: JsonV)
    ensures
        JoinLegsV::of_single_scan(request).qualified(node) is Ok,
{
    let legs = JoinLegsV::of_single_scan(request);
    lemma_qualify_fails_iff(legs, node);
    if some_unattributable(legs, column_nodes(node)) {
        let columns = column_nodes(node);
        let i = choose|i: int|
            0 <= i < columns.len() && legs.resolve(#[trigger] columns[i]) is Unattributable;
        lemma_single_scan_attributes(request, columns[i]);
    }
}

/// Qualifying a tree changes nothing but table aliases.
pub proof fn lemma_qualify_changes_aliases_only(legs: JoinLegsV, node: JsonV)
    ensures
        legs.qualified(node) matches Ok(tree) ==> without_aliases(tree) == without_aliases(node),
    decreases node, 0int,
{
    match node {
        JsonV::Object(members) => {
            lemma_qualify_members_keeps(legs, members);
            if legs.qualified(node) is Ok {
                let out = legs.qualified_members(members)->Ok_0;
                if is_column(members) && legs.resolve(members) is Leg {
                    lemma_strip_set_alias(
                        out,
                        JsonV::Str(leg_alias_text(legs.resolve(members)->Leg_0)),
                    );
                }
            }
        },
        JsonV::Array(items) => {
            lemma_qualify_items_keeps(legs, items);
        },
        _ => {},
    }
}

proof fn lemma_qualify_members_keeps(legs: JoinLegsV, members: MembersV)
    ensures
        legs.qualified_members(members) matches Ok(out) ==> members_without_aliases(out)
            == members_without_aliases(members),
    decreases members, 0int,
{
    if members.len() > 0 {
        lemma_qualify_members_keeps(legs, members.drop_last());
        lemma_qualify_changes_aliases_only(legs, members.last().1);
        if legs.qualified_members(members) is Ok {
            let before = legs.qualified_members(members.drop_last())->Ok_0;
            let out = legs.qualified_members(members)->Ok_0;
            assert(out.drop_last() =~= before);
        }
    }
}

proof fn lemma_qualify_items_keeps(legs: JoinLegsV, items: Seq<JsonV>)
    ensures
        legs.qualified_items(items) matches Ok(out) ==> items_without_aliases(out)
            == items_without_aliases(items),
    decreases items, 0int,
{
    if items.len() > 0 {
        lemma_qualify_items_keeps(legs, items.drop_last());
        lemma_qualify_changes_aliases_only(legs, items.last());
        if legs.qualified_items(items) is Ok {
            let before = legs.qualified_items(items.drop_last())->Ok_0;
            let out = legs.qualified_items(items)->Ok_0;
            assert(out.drop_last() =~= before);
        }
    }
}

/// Whether no two legs share a table name, up to ASCII case.
pub open spec fn one_leg_per_table(legs: JoinLegsV) -> bool {
    forall|i: int, j: int|
        #![trigger legs.keys[i], legs.keys[j]]
        0 <= i < legs.keys.len() && 0 <= j < legs.keys.len() && ascii_same(
            legs.keys[i].table_name,
            legs.keys[j].table_name,
        ) ==> legs.keys[i].leg == legs.keys[j].leg
}

/// Where no two legs share a table, the table name of a column alone says where it belongs.
proof fn lemma_alias_is_not_consulted(legs: JoinLegsV, column: MembersV, other: MembersV)
    requires
        one_leg_per_table(legs),
        member_text(column, "tableName"@) == member_text(other, "tableName"@),
    ensures
        legs.resolve(column) !is Unattributable,
        legs.resolve(column) == legs.resolve(other),
{
    if member_text(column, "tableName"@) is Some {
        let table = member_text(column, "tableName"@)->0;
        let keys = legs.matching(table);
        lemma_matching(legs, table);
        assert forall|k: int| 0 <= k < keys.len() implies (#[trigger] keys[k]).leg
            == keys[0].leg by {
            assert(legs.keys.contains(keys[k]));
            assert(legs.keys.contains(keys[0]));
        }
    }
}

/// Members with the same keys and the same texts are read alike.
proof fn lemma_same_texts(members: MembersV, other: MembersV, key: Seq<char>)
    requires
        members.len() == other.len(),
        forall|i: int|
            0 <= i < members.len() ==> (#[trigger] members[i]).0 == other[i].0
                && members[i].1.text() == other[i].1.text(),
    ensures
        member_text(members, key) == member_text(other, key),
    decreases members.len(),
{
    if members.len() > 0 && members[0].0 != key {
        let rest = members.skip(1);
        let other_rest = other.skip(1);
        assert forall|i: int| 0 <= i < rest.len() implies (#[trigger] rest[i]).0 == other_rest[i].0
            && rest[i].1.text() == other_rest[i].1.text() by {
            assert(rest[i] == members[i + 1]);
        }
        lemma_same_texts(rest, other_rest, key);
    }
}

/// Setting a member leaves the others as they are, and setting it again changes nothing.
proof fn lemma_set_member(members: MembersV, key: Seq<char>, value: JsonV)
    ensures
        forall|other: Seq<char>|
            other != key ==> #[trigger] lookup(with_member(members, key, value), other) == lookup(
                members,
                other,
            ),
        with_member(with_member(members, key, value), key, value) == with_member(
            members,
            key,
            value,
        ),
        forall|i: int|
            0 <= i < with_member(members, key, value).len() ==> {
                let member = #[trigger] with_member(members, key, value)[i];
                member == (key, value) || members.contains(member)
            },
    decreases members.len(),
{
    let set = with_member(members, key, value);
    if members.len() > 0 {
        let rest = members.skip(1);
        if members[0].0 == key {
            assert(set.skip(1) =~= rest);
            assert(with_member(set, key, value) =~= set);
            assert forall|i: int| 0 <= i < set.len() implies #[trigger] set[i] == (key, value)
                || members.contains(set[i]) by {
                if i > 0 {
                    assert(set[i] == members[i]);
                }
            }
        } else {
            lemma_set_member(rest, key, value);
            let set_rest = with_member(rest, key, value);
            assert(set.skip(1) =~= set_rest);
            assert forall|i: int| 0 <= i < set.len() implies #[trigger] set[i] == (key, value)
                || members.contains(set[i]) by {
                if i == 0 {
                    assert(set[0] == members[0]);
                } else {
                    assert(set[i] == set_rest[i - 1]);
                    if set_rest[i - 1] != (key, value) {
                        let j = choose|j: int| 0 <= j < rest.len() && rest[j] == set_rest[i - 1];
                        assert(members[j + 1] == set[i]);
                    }
                }
            }
        }
    } else {
        assert(set.skip(1) =~= members);
        assert(with_member(set, key, value) =~= set);
    }
    assert forall|other: Seq<char>| other != key implies #[trigger] lookup(set, other) == lookup(
        members,
        other,
    ) by {
        if members.len() > 0 {
            assert(lookup(set.skip(1), other) == lookup(members.skip(1), other));
        } else {
            assert(lookup(set.skip(1), other) is None);
        }
    }
}

proof fn lemma_qualified_members_stay(legs: JoinLegsV, members: MembersV)
    requires
        forall|i: int|
            0 <= i < members.len() ==> legs.qualified((#[trigger] members[i]).1) == Ok::<
                JsonV,
                UnattributableColumnV,
            >(members[i].1),
    ensures
        legs.qualified_members(members) == Ok::<MembersV, UnattributableColumnV>(members),
    decreases members.len(),
{
    if members.len() > 0 {
        let rest = members.drop_last();
        assert forall|i: int| 0 <= i < rest.len() implies legs.qualified((#[trigger] rest[i]).1)
            == Ok::<JsonV, UnattributableColumnV>(rest[i].1) by {
            assert(rest[i] == members[i]);
        }
        lemma_qualified_members_stay(legs, rest);
        assert(legs.qualified(members[members.len() - 1].1) is Ok);
        assert(rest.push(members.last()) =~= members);
    } else {
        assert(members =~= Seq::empty());
    }
}

/// Where no two legs share a table name, every tree can be qualified, and qualifying it twice
/// changes no more than qualifying it once.
pub proof fn lemma_qualify_is_idempotent(legs: JoinLegsV, node: JsonV)
    requires
        one_leg_per_table(legs),
    ensures
        legs.qualified(node) is Ok,
        legs.qualified(legs.qualified(node)->Ok_0) == legs.qualified(node),
{
    lemma_qualify_twice(legs, node);
}

proof fn lemma_qualify_twice(legs: JoinLegsV, node: JsonV)
    requires
        one_leg_per_table(legs),
    ensures
        legs.qualified(node) is Ok,
        legs.qualified(legs.qualified(node)->Ok_0) == legs.qualified(node),
        legs.qualified(node)->Ok_0.text() == node.text(),
    decreases node, 0int,
{
    match node {
        JsonV::Object(members) => {
            lemma_qualify_members_twice(legs, members);
            let out = legs.qualified_members(members)->Ok_0;
            lemma_qualified_members_stay(legs, out);
            lemma_same_texts(members, out, "type"@);
            lemma_same_texts(members, out, "tableName"@);
            lemma_alias_is_not_consulted(legs, members, out);
            if is_column(members) && legs.resolve(members) is Leg {
                let alias = JsonV::Str(leg_alias_text(legs.resolve(members)->Leg_0));
                let set = with_member(out, "tableAlias"@, alias);
                lemma_set_member(out, "tableAlias"@, alias);
                reveal_strlit("type");
                reveal_strlit("tableName");
                reveal_strlit("tableAlias");
                assert("tableName"@[5] != "tableAlias"@[5]);
                assert("type"@.len() != "tableAlias"@.len());
                lemma_alias_is_not_consulted(legs, out, set);
                assert forall|i: int| 0 <= i < set.len() implies legs.qualified(
                    (#[trigger] set[i]).1,
                ) == Ok::<JsonV, UnattributableColumnV>(set[i].1) by {
                    if set[i] != ("tableAlias"@, alias) {
                        let j = choose|j: int| 0 <= j < out.len() && out[j] == set[i];
                        assert(legs.qualified(out[j].1) is Ok);
                    }
                }
                lemma_qualified_members_stay(legs, set);
            }
        },
        JsonV::Array(items) => {
            lemma_qualify_items_twice(legs, items);
        },
        _ => {},
    }
}

proof fn lemma_qualify_members_twice(legs: JoinLegsV, members: MembersV)
    requires
        one_leg_per_table(legs),
    ensures
        legs.qualified_members(members) matches Ok(out) && out.len() == members.len() && (forall|
            i: int,
        |
            0 <= i < members.len() ==> (#[trigger] out[i]).0 == members[i].0 && out[i].1.text()
                == members[i].1.text() && legs.qualified(out[i].1) == Ok::<
                JsonV,
                UnattributableColumnV,
            >(out[i].1)),
    decreases members, 0int,
{
    if members.len() > 0 {
        lemma_qualify_members_twice(legs, members.drop_last());
        lemma_qualify_twice(legs, members.last().1);
    }
}

proof fn lemma_qualify_items_twice(legs: JoinLegsV, items: Seq<JsonV>)
    requires
        one_leg_per_table(legs),
    ensures
        legs.qualified_items(items) matches Ok(out) && legs.qualified_items(out) == Ok::<
            Seq<JsonV>,
            UnattributableColumnV,
        >(out),
    decreases items, 0int,
{
    if items.len() > 0 {
        lemma_qualify_items_twice(legs, items.drop_last());
        lemma_qualify_twice(legs, items.last());
        let before = legs.qualified_items(items.drop_last())->Ok_0;
        let out = legs.qualified_items(items)->Ok_0;
        assert(out.drop_last() =~= before);
    }
}

/// The attachment leg of a tree is one of its legs and no lower than any of them.
pub proof fn lemma_attachment_covers(legs: JoinLegsV, node: JsonV)
    ensures
        legs.attachment(node) matches Some(top) ==> legs.refers_to(column_nodes(node), top) && (
        forall|leg: usize| legs.refers_to(column_nodes(node), leg) ==> leg <= top),
{
    if legs.attachment(node) is Some {
        lemma_highest(legs, column_nodes(node));
    }
}

/// A conjunct over one leg refers to that leg alone, and is attached there.
pub proof fn lemma_sole_leg_is_attachment(legs: JoinLegsV, node: JsonV)
    ensures
        legs.sole_leg(node) matches Some(leg) ==> legs.attachment(node) == Some(leg) && (
        forall|other: usize| legs.refers_to(column_nodes(node), other) ==> other == leg),
{
    if legs.sole_leg(node) is Some {
        let columns = column_nodes(node);
        assert(legs.resolve(columns[0]) is Leg);
        lemma_highest(legs, columns);
    }
}

proof fn lemma_decimal_length(value: nat)
    ensures
        decimal(value).len() >= 1,
        value >= 10 ==> decimal(value).len() >= 2,
    decreases value,
{
    if value >= 10 {
        lemma_decimal_length(value / 10);
    }
}

/// Different numbers have different texts.
pub proof fn lemma_decimal_injective(a: nat, b: nat)
    requires
        decimal(a) == decimal(b),
    ensures
        a == b,
    decreases a,
{
    lemma_decimal_length(a);
    lemma_decimal_length(b);
    if a < 10 {
        assert(decimal(a).len() == 1);
        assert(b < 10);
        assert(decimal(a)[0] == digit_char(a));
        assert(decimal(b)[0] == digit_char(b));
        assert(digit_char(a) as int == 48 + a);
        assert(digit_char(b) as int == 48 + b);
    } else {
        if b < 10 {
            assert(decimal(b).len() == 1);
        }
        assert(decimal(a).last() == digit_char(a % 10));
        assert(decimal(b).last() == digit_char(b % 10));
        assert(digit_char(a % 10) as int == 48 + a % 10);
        assert(digit_char(b % 10) as int == 48 + b % 10);
        assert(decimal(a).drop_last() =~= decimal(a / 10));
        assert(decimal(b).drop_last() =~= decimal(b / 10));
        lemma_decimal_injective(a / 10, b / 10);
        assert(a == 10 * (a / 10) + a % 10);
        assert(b == 10 * (b / 10) + b % 10);
    }
}

/// Different legs have different aliases.
pub proof fn lemma_leg_aliases_differ(a: usize, b: usize)
    requires
        a != b,
    ensures
        leg_alias_text(a) != leg_alias_text(b),
{
    if leg_alias_text(a) == leg_alias_text(b) {
        let prefix = "LHS_T"@;
        assert(decimal(a as nat) =~= leg_alias_text(a).skip(prefix.len() as int));
        assert(decimal(b as nat) =~= leg_alias_text(b).skip(prefix.len() as int));
        lemma_decimal_injective(a as nat, b as nat);
    }
}

} // verus!
