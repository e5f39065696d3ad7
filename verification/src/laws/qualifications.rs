//! Which leg a column belongs to, and what qualifying a tree makes of it.

use crate::joins::attribution::{first_with_alias, leg_alias_text, ColumnLeg, JoinLegsV, LegKeyV,
    UnattributableColumnV};
use crate::joins::planning::JoinLeafV;
use crate::json::{lookup, member_text, JsonV, MembersV};
use crate::laws::attribution::lemma_matching;
use crate::laws::documents::lemma_member_is_set;
use crate::text::{ascii_same, decimal};
use crate::tree::{column_nodes, is_column};
use vstd::prelude::*;

verus! {

/// Whether a leaf is an occurrence of `table` under `alias`.
pub open spec fn occurs_as(
    leaf: JoinLeafV,
    table: Seq<char>,
    alias: Option<Seq<char>>,
) -> bool {
    ascii_same(leaf.table_name, table) && leaf.table_alias == alias
}

/// A join has one leg for each of its leaves, in their order, under the name and the alias of the
/// leaf.
pub proof fn lemma_one_leg_per_leaf(leaves: Seq<JoinLeafV>, i: int)
    requires
        0 <= i < leaves.len() <= usize::MAX,
    ensures
        JoinLegsV::of_leaves(leaves).leg_count == leaves.len(),
        JoinLegsV::of_leaves(leaves).keys.len() == leaves.len(),
        JoinLegsV::of_leaves(leaves).keys[i] == (LegKeyV {
            table_name: leaves[i].table_name,
            table_alias: leaves[i].table_alias,
            leg: i as usize,
        }),
{
}

/// The alias of a leg is a fixed prefix with the number of the leg behind it.
pub proof fn lemma_leg_aliases(leg: usize)
    ensures
        leg_alias_text(leg) == "LHS_T"@ + decimal(leg as nat),
{
}

/// A column without a table, or with a table that is none of the legs, belongs to no leg.
pub proof fn lemma_foreign_columns(leaves: Seq<JoinLeafV>, column: MembersV)
    requires
        member_text(column, "tableName"@) matches Some(table) ==> forall|i: int|
            0 <= i < leaves.len() ==> !ascii_same((#[trigger] leaves[i]).table_name, table),
    ensures
        JoinLegsV::of_leaves(leaves).resolve(column) == ColumnLeg::NoLeg,
{
    let legs = JoinLegsV::of_leaves(leaves);
    if let Some(table) = member_text(column, "tableName"@) {
        lemma_matching(legs, table);
        let keys = legs.matching(table);
        if keys.len() > 0 {
            assert(legs.keys.contains(keys[0]));
            let j = choose|j: int| 0 <= j < legs.keys.len() && legs.keys[j] == keys[0];
            assert(legs.keys[j].table_name == leaves[j].table_name);
        }
    }
}

spec fn increasing(keys: Seq<LegKeyV>) -> bool {
    forall|i: int, j: int|
        0 <= i < j < keys.len() ==> (#[trigger] keys[i]).leg < (#[trigger] keys[j]).leg
}

proof fn lemma_filter_increasing(keys: Seq<LegKeyV>, keep: spec_fn(LegKeyV) -> bool)
    requires
        increasing(keys),
    ensures
        increasing(keys.filter(keep)),
    decreases keys.len(),
{
    reveal(Seq::filter);
    if keys.len() > 0 {
        let rest = keys.drop_last();
        assert forall|i: int, j: int| 0 <= i < j < rest.len() implies (#[trigger] rest[i]).leg < (
        #[trigger] rest[j]).leg by {
            assert(keys[i].leg < keys[j].leg);
        }
        lemma_filter_increasing(rest, keep);
        let kept = rest.filter(keep);
        if keep(keys.last()) {
            let all = kept.push(keys.last());
            assert(keys.filter(keep) == all);
            assert forall|i: int, j: int| 0 <= i < j < all.len() implies (#[trigger] all[i]).leg < (
            #[trigger] all[j]).leg by {
                if j == kept.len() {
                    assert(kept.contains(kept[i]));
                    rest.lemma_filter_contains_rev(keep, kept[i]);
                    let k = choose|k: int| 0 <= k < rest.len() && rest[k] == kept[i];
                    assert(keys[k].leg < keys[keys.len() - 1].leg);
                }
            }
        }
    }
}

proof fn lemma_first_with_alias_is_first(keys: Seq<LegKeyV>, alias: Option<Seq<char>>)
    requires
        increasing(keys),
    ensures
        match first_with_alias(keys, alias) {
            Some(leg) => (exists|i: int|
                0 <= i < keys.len() && (#[trigger] keys[i]).leg == leg && keys[i].table_alias
                    == alias) && forall|i: int|
                0 <= i < keys.len() && (#[trigger] keys[i]).table_alias == alias ==> leg
                    <= keys[i].leg,
            None => forall|i: int|
                0 <= i < keys.len() ==> (#[trigger] keys[i]).table_alias != alias,
        },
    decreases keys.len(),
{
    if keys.len() > 0 {
        let rest = keys.skip(1);
        assert forall|i: int, j: int| 0 <= i < j < rest.len() implies (#[trigger] rest[i]).leg < (
        #[trigger] rest[j]).leg by {
            assert(keys[i + 1].leg < keys[j + 1].leg);
        }
        lemma_first_with_alias_is_first(rest, alias);
        if keys[0].table_alias == alias {
            assert forall|i: int|
                0 <= i < keys.len() && (
                #[trigger] keys[i]).table_alias == alias implies keys[0].leg <= keys[i].leg by {
                if i > 0 {
                    assert(keys[0].leg < keys[i].leg);
                }
            }
        } else {
            if first_with_alias(rest, alias) is Some {
                let leg = first_with_alias(rest, alias)->0;
                let i = choose|i: int|
                    0 <= i < rest.len() && (#[trigger] rest[i]).leg == leg && rest[i].table_alias
                        == alias;
                assert(keys[i + 1] == rest[i]);
            }
            assert forall|i: int| 0 < i < keys.len() implies #[trigger] keys[i] == rest[i - 1] by {}
        }
    }
}

/// A column of a table that occurs several times belongs to the first occurrence under the alias
/// that the column carries, and cannot be attributed where no occurrence is under that alias. The
/// alias is compared as it is written.
pub proof fn lemma_alias_picks_the_occurrence(
    leaves: Seq<JoinLeafV>,
    column: MembersV,
    table: Seq<char>,
    one: int,
    other: int,
)
    requires
        leaves.len() <= usize::MAX,
        member_text(column, "tableName"@) == Some(table),
        0 <= one < other < leaves.len(),
        ascii_same(leaves[one].table_name, table),
        ascii_same(leaves[other].table_name, table),
    ensures
        match JoinLegsV::of_leaves(leaves).resolve(column) {
            ColumnLeg::Leg(leg) => leg < leaves.len() && occurs_as(
                leaves[leg as int],
                table,
                member_text(column, "tableAlias"@),
            ) && forall|i: int|
                0 <= i < leg ==> !occurs_as(
                    #[trigger] leaves[i],
                    table,
                    member_text(column, "tableAlias"@),
                ),
            ColumnLeg::Unattributable => forall|i: int|
                0 <= i < leaves.len() ==> !occurs_as(
                    #[trigger] leaves[i],
                    table,
                    member_text(column, "tableAlias"@),
                ),
            ColumnLeg::NoLeg => false,
        },
{
    let legs = JoinLegsV::of_leaves(leaves);
    let alias = member_text(column, "tableAlias"@);
    let keys = legs.matching(table);
    lemma_matching(legs, table);
    assert(keys.contains(legs.keys[one]));
    assert(keys.contains(legs.keys[other]));
    let a = choose|a: int| 0 <= a < keys.len() && keys[a] == legs.keys[one];
    let b = choose|b: int| 0 <= b < keys.len() && keys[b] == legs.keys[other];
    assert(keys[a].leg != keys[b].leg);
    assert(!(forall|i: int| 0 <= i < keys.len() ==> (#[trigger] keys[i]).leg == keys[0].leg)) by {
        if forall|i: int| 0 <= i < keys.len() ==> (#[trigger] keys[i]).leg == keys[0].leg {
            assert(keys[a].leg == keys[b].leg);
        }
    }
    assert(increasing(legs.keys));
    lemma_filter_increasing(legs.keys, |key: LegKeyV| ascii_same(key.table_name, table));
    lemma_first_with_alias_is_first(keys, alias);
    assert forall|i: int| 0 <= i < leaves.len() && occurs_as(#[trigger] leaves[i], table, alias) implies
        first_with_alias(keys, alias) matches Some(leg) && leg <= i by {
        assert(legs.keys[i].table_name == leaves[i].table_name);
        assert(keys.contains(legs.keys[i]));
        let k = choose|k: int| 0 <= k < keys.len() && keys[k] == legs.keys[i];
        assert(keys[k].table_alias == alias);
    }
    if first_with_alias(keys, alias) is Some {
        let leg = first_with_alias(keys, alias)->0;
        let k = choose|k: int|
            0 <= k < keys.len() && (#[trigger] keys[k]).leg == leg && keys[k].table_alias == alias;
        assert(legs.keys.contains(keys[k]));
        let j = choose|j: int| 0 <= j < legs.keys.len() && legs.keys[j] == keys[k];
        assert(leaves[j].table_name == keys[k].table_name);
        assert(j == leg);
    }
}

/// A query over one scan has one leg, and the columns of every table that the request involves
/// belong to it.
pub proof fn lemma_single_scan_owns_its_tables(
    request: JsonV,
    tables: Seq<JsonV>,
    i: int,
    name: Seq<char>,
    column: MembersV,
    table: Seq<char>,
)
    requires
        request.field("involvedTables"@) == Some(JsonV::Array(tables)),
        0 <= i < tables.len(),
        tables[i].field("name"@) == Some(JsonV::Str(name)),
        member_text(column, "tableName"@) == Some(table),
        ascii_same(name, table),
    ensures
        JoinLegsV::of_single_scan(request).leg_count == 1,
        JoinLegsV::of_single_scan(request).resolve(column) == ColumnLeg::Leg(0),
{
    let legs = JoinLegsV::of_single_scan(request);
    let key_of = |node: JsonV|
        match node.text_field("name"@) {
            Some(text) => Some(LegKeyV { table_name: text, table_alias: None, leg: 0 }),
            None => None,
        };
    crate::laws::counting::lemma_filter_map_contains(tables, key_of, i);
    assert(legs.keys =~= tables.filter_map(key_of));
    lemma_matching(legs, table);
    let keys = legs.matching(table);
    let own = LegKeyV { table_name: name, table_alias: None, leg: 0 };
    let j = choose|j: int| 0 <= j < legs.keys.len() && legs.keys[j] == own;
    assert(keys.contains(legs.keys[j]));
    crate::laws::attribution::lemma_single_scan_attributes(request, column);
    assert forall|k: int| 0 <= k < keys.len() implies (#[trigger] keys[k]).leg == 0 by {
        assert(legs.keys.contains(keys[k]));
        let l = choose|l: int| 0 <= l < legs.keys.len() && legs.keys[l] == keys[k];
        crate::laws::counting::lemma_filter_map_origin(tables, key_of, l);
    }
}

/// A tree has an attachment exactly where it has columns that all belong to some leg, and a sole leg
/// exactly where it has columns that all belong to that leg.
pub proof fn lemma_attachments(legs: JoinLegsV, node: JsonV, leg: usize)
    ensures
        legs.attachment(node) is Some <==> column_nodes(node).len() > 0 && forall|i: int|
            0 <= i < column_nodes(node).len() ==> legs.resolve(
                #[trigger] column_nodes(node)[i],
            ) is Leg,
        legs.sole_leg(node) == Some(leg) <==> column_nodes(node).len() > 0 && forall|i: int|
            0 <= i < column_nodes(node).len() ==> legs.resolve(#[trigger] column_nodes(node)[i])
                == ColumnLeg::Leg(leg),
        legs.legs_of(column_nodes(node)).contains(leg) <==> exists|i: int|
            0 <= i < column_nodes(node).len() && legs.resolve(#[trigger] column_nodes(node)[i])
                == ColumnLeg::Leg(leg),
{
    let columns = column_nodes(node);
    if legs.sole_leg(node) == Some(leg) {
        assert(legs.resolve(columns[0]) == ColumnLeg::Leg(leg));
    }
    if columns.len() > 0 && forall|i: int|
        0 <= i < columns.len() ==> legs.resolve(#[trigger] columns[i]) == ColumnLeg::Leg(leg) {
        assert(legs.resolve(columns[0]) == ColumnLeg::Leg(leg));
    }
}

/// The items of an array are qualified in their places; the error is that of the first item that has
/// one. A value that is neither array nor object stays.
pub proof fn lemma_items_are_qualified(legs: JoinLegsV, items: Seq<JsonV>, leaf: JsonV)
    requires
        leaf !is Array,
        leaf !is Object,
    ensures
        legs.qualified(leaf) == Ok::<_, UnattributableColumnV>(leaf),
        match legs.qualified(JsonV::Array(items)) {
            Ok(tree) => tree matches JsonV::Array(out) && out.len() == items.len() && forall|i: int|
                0 <= i < items.len() ==> legs.qualified(items[i]) == Ok::<_, UnattributableColumnV>(
                    #[trigger] out[i],
                ),
            Err(column) => exists|i: int|
                0 <= i < items.len() && legs.qualified(#[trigger] items[i]) == Err::<JsonV, _>(
                    column,
                ) && forall|j: int| 0 <= j < i ==> legs.qualified(#[trigger] items[j]) is Ok,
        },
    decreases items.len(),
{
    if items.len() > 0 {
        let rest = items.drop_last();
        lemma_items_are_qualified(legs, rest, leaf);
        assert(items[items.len() - 1] == items.last());
        match legs.qualified(JsonV::Array(rest)) {
            Ok(tree) => {
                let out = tree->Array_0;
                assert forall|j: int| 0 <= j < rest.len() implies legs.qualified(
                    #[trigger] items[j],
                ) is Ok by {
                    assert(legs.qualified(rest[j]) == Ok::<_, UnattributableColumnV>(out[j]));
                }
            },
            Err(column) => {
                let i = choose|i: int|
                    0 <= i < rest.len() && legs.qualified(#[trigger] rest[i]) == Err::<JsonV, _>(
                        column,
                    ) && forall|j: int| 0 <= j < i ==> legs.qualified(#[trigger] rest[j]) is Ok;
                assert(items[i] == rest[i]);
                assert forall|j: int| 0 <= j < i implies legs.qualified(
                    #[trigger] items[j],
                ) is Ok by {
                    assert(rest[j] == items[j]);
                }
            },
        }
    }
}

proof fn lemma_members_in_place(legs: JoinLegsV, members: MembersV)
    ensures
        match legs.qualified_members(members) {
            Ok(out) => out.len() == members.len() && forall|i: int|
                0 <= i < members.len() ==> (#[trigger] out[i]).0 == members[i].0 && legs.qualified(
                    members[i].1,
                ) == Ok::<_, UnattributableColumnV>(out[i].1),
            Err(column) => exists|i: int|
                0 <= i < members.len() && legs.qualified((#[trigger] members[i]).1) == Err::<
                    JsonV,
                    _,
                >(column) && forall|j: int|
                    0 <= j < i ==> legs.qualified((#[trigger] members[j]).1) is Ok,
        },
    decreases members.len(),
{
    if members.len() > 0 {
        let rest = members.drop_last();
        lemma_members_in_place(legs, rest);
        assert(members[members.len() - 1] == members.last());
        match legs.qualified_members(rest) {
            Ok(out) => {
                assert forall|j: int| 0 <= j < rest.len() implies legs.qualified(
                    (#[trigger] members[j]).1,
                ) is Ok by {
                    assert(out[j].0 == rest[j].0);
                    assert(rest[j] == members[j]);
                }
            },
            Err(column) => {
                let i = choose|i: int|
                    0 <= i < rest.len() && legs.qualified((#[trigger] rest[i]).1) == Err::<
                        JsonV,
                        _,
                    >(column) && forall|j: int|
                        0 <= j < i ==> legs.qualified((#[trigger] rest[j]).1) is Ok;
                assert(members[i] == rest[i]);
                assert forall|j: int| 0 <= j < i implies legs.qualified(
                    (#[trigger] members[j]).1,
                ) is Ok by {
                    assert(rest[j] == members[j]);
                }
            },
        }
    }
}

/// An object that is no column keeps its keys, each value qualified in its place. So does a column
/// that belongs to no leg.
pub proof fn lemma_objects_are_qualified(legs: JoinLegsV, members: MembersV)
    requires
        !is_column(members) || legs.resolve(members) is NoLeg,
    ensures
        legs.qualified(JsonV::Object(members)) matches Ok(tree) ==> {
            &&& tree matches JsonV::Object(out)
            &&& out.len() == members.len()
            &&& forall|i: int|
                0 <= i < members.len() ==> (#[trigger] out[i]).0 == members[i].0 && legs.qualified(
                    members[i].1,
                ) == Ok::<_, UnattributableColumnV>(out[i].1)
        },
        legs.qualified(JsonV::Object(members)) matches Err(column) ==> exists|i: int|
            0 <= i < members.len() && legs.qualified((#[trigger] members[i]).1) == Err::<JsonV, _>(
                column,
            ) && forall|j: int| 0 <= j < i ==> legs.qualified((#[trigger] members[j]).1) is Ok,
{
    lemma_members_in_place(legs, members);
}

proof fn lemma_lookup_in_place(
    legs: JoinLegsV,
    members: MembersV,
    out: MembersV,
    key: Seq<char>,
)
    requires
        members.len() == out.len(),
        forall|i: int|
            0 <= i < members.len() ==> (#[trigger] out[i]).0 == members[i].0 && legs.qualified(
                members[i].1,
            ) == Ok::<_, UnattributableColumnV>(out[i].1),
    ensures
        match lookup(members, key) {
            Some(value) => lookup(out, key) matches Some(changed) && legs.qualified(value) == Ok::<
                _,
                UnattributableColumnV,
            >(changed),
            None => lookup(out, key) is None,
        },
    decreases members.len(),
{
    if members.len() > 0 {
        assert(out[0].0 == members[0].0);
        if members[0].0 != key {
            let rest = members.skip(1);
            let out_rest = out.skip(1);
            assert forall|i: int| 0 <= i < rest.len() implies (#[trigger] out_rest[i]).0
                == rest[i].0 && legs.qualified(rest[i].1) == Ok::<_, UnattributableColumnV>(
                out_rest[i].1,
            ) by {
                assert(out[i + 1].0 == members[i + 1].0);
            }
            lemma_lookup_in_place(legs, rest, out_rest, key);
        }
    }
}

/// A column that belongs to a leg carries the alias of that leg, whatever alias it carried, and
/// reads as before under every other key.
pub proof fn lemma_columns_carry_their_legs(
    legs: JoinLegsV,
    members: MembersV,
    leg: usize,
    key: Seq<char>,
)
    requires
        is_column(members),
        legs.resolve(members) == ColumnLeg::Leg(leg),
    ensures
        legs.qualified(JsonV::Object(members)) matches Ok(tree) ==> {
            &&& tree.field("tableAlias"@) == Some(JsonV::Str("LHS_T"@ + decimal(leg as nat)))
            &&& key != "tableAlias"@ ==> match lookup(members, key) {
                Some(value) => tree.field(key) matches Some(changed) && legs.qualified(value)
                    == Ok::<_, UnattributableColumnV>(changed),
                None => tree.field(key) is None,
            }
        },
        legs.qualified(JsonV::Object(members)) matches Err(column) ==> exists|i: int|
            0 <= i < members.len() && legs.qualified((#[trigger] members[i]).1) == Err::<JsonV, _>(
                column,
            ),
{
    lemma_members_in_place(legs, members);
    if let Ok(out) = legs.qualified_members(members) {
        lemma_lookup_in_place(legs, members, out, key);
        lemma_member_is_set(out, "tableAlias"@, JsonV::Str(leg_alias_text(leg)), key);
    }
}

/// A column that cannot be attributed fails, with what it says of its table, its alias and its name,
/// unless something below it fails before it.
pub proof fn lemma_unattributable_columns_fail(legs: JoinLegsV, members: MembersV)
    requires
        is_column(members),
        legs.resolve(members) is Unattributable,
    ensures
        legs.qualified(JsonV::Object(members)) is Err,
        (forall|i: int| 0 <= i < members.len() ==> legs.qualified((#[trigger] members[i]).1) is Ok)
            ==> (legs.qualified(JsonV::Object(members)) matches Err(column) && Some(
            column.table_name,
        ) == member_text(members, "tableName"@) && column.table_alias == member_text(
            members,
            "tableAlias"@,
        ) && column.column_name == member_text(members, "name"@)),
{
    lemma_members_in_place(legs, members);
}

/// An error names the column, its table and its alias, and says where it has none.
pub proof fn lemma_columns_are_described(table: Seq<char>, alias: Seq<char>, name: Seq<char>)
    ensures
        (UnattributableColumnV {
            table_name: table,
            table_alias: Some(alias),
            column_name: Some(name),
        }).description() == "column "@ + name + " of table "@ + table + " with alias "@ + alias,
        (UnattributableColumnV {
            table_name: table,
            table_alias: None,
            column_name: Some(name),
        }).description() == "column "@ + name + " of table "@ + table + " with no alias"@,
        (UnattributableColumnV {
            table_name: table,
            table_alias: None,
            column_name: None,
        }).description() == "column "@ + "<unnamed>"@ + " of table "@ + table + " with no alias"@,
{
}

} // verus!
