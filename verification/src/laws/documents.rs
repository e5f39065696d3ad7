//! Reading and rewriting documents.

use crate::json::{lookup, member_text, JsonV, MembersV};
use crate::laws::trees::lemma_lookup_absent;
use crate::tree::{column_nodes, is_column, item_column_nodes, items_without_aliases,
    member_column_nodes, members_without_aliases, with_member, without_aliases};
use vstd::prelude::*;

verus! {

/// The value of a key is that of its first occurrence.
pub proof fn lemma_first_member_counts(members: MembersV, key: Seq<char>, i: int)
    requires
        0 <= i < members.len(),
        members[i].0 == key,
        forall|j: int| 0 <= j < i ==> (#[trigger] members[j]).0 != key,
    ensures
        lookup(members, key) == Some(members[i].1),
        JsonV::Object(members).field(key) == Some(members[i].1),
    decreases i,
{
    if i > 0 {
        assert(members[0].0 != key);
        let rest = members.skip(1);
        assert(rest[i - 1] == members[i]);
        assert forall|j: int| 0 <= j < i - 1 implies (#[trigger] rest[j]).0 != key by {
            assert(members[j + 1].0 != key);
        }
        lemma_first_member_counts(rest, key, i - 1);
    }
}

/// A key that no member has gives nothing, and a value that is no object has no members.
pub proof fn lemma_absent_members(members: MembersV, value: JsonV, key: Seq<char>)
    requires
        forall|i: int| 0 <= i < members.len() ==> (#[trigger] members[i]).0 != key,
        value !is Object,
    ensures
        JsonV::Object(members).field(key) is None,
        value.field(key) is None,
{
    lemma_lookup_absent(members, key);
}

/// A member is read as a text, an array, a number or a truth value exactly where it is one.
pub proof fn lemma_members_are_read_by_kind(
    value: JsonV,
    key: Seq<char>,
    text: Seq<char>,
    items: Seq<JsonV>,
    n: u64,
    b: bool,
)
    ensures
        value.text_field(key) == Some(text) <==> value.field(key) == Some(JsonV::Str(text)),
        value.items_field(key) == Some(items) <==> value.field(key) == Some(JsonV::Array(items)),
        value.nonempty_items_field(key) == Some(items) <==> items.len() > 0 && value.field(key)
            == Some(JsonV::Array(items)),
        value.unsigned_field(key) == Some(n) <==> value.field(key) == Some(JsonV::Unsigned(n)),
        value.bool_field(key) == Some(b) <==> value.field(key) == Some(JsonV::Bool(b)),
        value.is_kind(text) <==> value.field("type"@) == Some(JsonV::Str(text)),
{
}

/// A member is present when it is there and not null.
pub proof fn lemma_null_is_not_present(value: JsonV, key: Seq<char>)
    ensures
        value.field(key) is None ==> value.present_field(key) is None,
        value.field(key) == Some(JsonV::Null) ==> value.present_field(key) is None,
        value.field(key) matches Some(member) && member != JsonV::Null ==> value.present_field(key)
            == value.field(key),
{
}

/// A member text is that of the object that holds the members.
pub proof fn lemma_member_texts_are_fields(members: MembersV, key: Seq<char>)
    ensures
        member_text(members, key) == JsonV::Object(members).text_field(key),
        is_column(members) <==> JsonV::Object(members).field("type"@) == Some(
            JsonV::Str("column"@),
        ),
{
}

/// The columns of a tree come in the order in which they are written: those of an array item by
/// item, those of an object member by member, and a column before the columns below it. A value
/// that is neither array nor object has none.
pub proof fn lemma_columns_in_reading_order(
    members: MembersV,
    left: Seq<JsonV>,
    right: Seq<JsonV>,
    leaf: JsonV,
)
    requires
        leaf !is Array,
        leaf !is Object,
    ensures
        column_nodes(leaf).len() == 0,
        column_nodes(JsonV::Array(Seq::empty())).len() == 0,
        column_nodes(JsonV::Array(seq![leaf])) == column_nodes(leaf),
        column_nodes(JsonV::Array(seq![JsonV::Object(members)])) == column_nodes(
            JsonV::Object(members),
        ),
        column_nodes(JsonV::Array(left + right)) == column_nodes(JsonV::Array(left)) + column_nodes(
            JsonV::Array(right),
        ),
        column_nodes(JsonV::Object(members)) == (if JsonV::Object(members).is_kind("column"@) {
            seq![members]
        } else {
            Seq::empty()
        }) + column_nodes(JsonV::Array(members.map_values(|m: (Seq<char>, JsonV)| m.1))),
{
    lemma_single_item_columns(leaf);
    lemma_single_item_columns(JsonV::Object(members));
    lemma_item_columns_append(left, right);
    lemma_member_columns(members);
}

proof fn lemma_single_item_columns(item: JsonV)
    ensures
        item_column_nodes(seq![item]) == column_nodes(item),
{
    assert(seq![item].drop_last() =~= Seq::empty());
    assert(item_column_nodes(seq![item].drop_last()) =~= Seq::empty());
    assert(item_column_nodes(seq![item]) =~= column_nodes(item));
}

/// The columns of items behind each other are those of the first, then those of the second.
pub proof fn lemma_item_columns_append(left: Seq<JsonV>, right: Seq<JsonV>)
    ensures
        item_column_nodes(left + right) == item_column_nodes(left) + item_column_nodes(right),
    decreases right.len(),
{
    if right.len() == 0 {
        assert(left + right =~= left);
        assert(item_column_nodes(left + right) =~= item_column_nodes(left) + item_column_nodes(
            right,
        ));
    } else {
        assert((left + right).drop_last() =~= left + right.drop_last());
        lemma_item_columns_append(left, right.drop_last());
        assert(item_column_nodes(left + right) =~= item_column_nodes(left) + item_column_nodes(
            right,
        ));
    }
}

proof fn lemma_member_columns(members: MembersV)
    ensures
        member_column_nodes(members) == item_column_nodes(
            members.map_values(|m: (Seq<char>, JsonV)| m.1),
        ),
    decreases members.len(),
{
    let values = members.map_values(|m: (Seq<char>, JsonV)| m.1);
    if members.len() > 0 {
        lemma_member_columns(members.drop_last());
        assert(values.drop_last() =~= members.drop_last().map_values(
            |m: (Seq<char>, JsonV)| m.1,
        ));
    }
}

/// Stripping removes the members called `tableAlias` and keeps every other member in its place,
/// stripped itself; it keeps the items of an array, each stripped, and changes no other value.
pub proof fn lemma_only_aliases_are_stripped(
    members: MembersV,
    member: (Seq<char>, JsonV),
    items: Seq<JsonV>,
    leaf: JsonV,
)
    requires
        leaf !is Array,
        leaf !is Object,
    ensures
        without_aliases(leaf) == leaf,
        without_aliases(JsonV::Array(items)) == JsonV::Array(
            items.map_values(|item: JsonV| without_aliases(item)),
        ),
        without_aliases(JsonV::Object(members.push(member))) == JsonV::Object(
            if member.0 == "tableAlias"@ {
                without_aliases(JsonV::Object(members))->Object_0
            } else {
                without_aliases(JsonV::Object(members))->Object_0.push(
                    (member.0, without_aliases(member.1)),
                )
            },
        ),
        without_aliases(JsonV::Object(Seq::empty())) == JsonV::Object(Seq::empty()),
{
    assert(members.push(member).drop_last() =~= members);
    lemma_items_are_stripped(items);
    assert(members_without_aliases(Seq::empty()) =~= Seq::empty());
}

proof fn lemma_items_are_stripped(items: Seq<JsonV>)
    ensures
        items_without_aliases(items) == items.map_values(|item: JsonV| without_aliases(item)),
    decreases items.len(),
{
    if items.len() > 0 {
        lemma_items_are_stripped(items.drop_last());
    }
    assert(items_without_aliases(items) =~= items.map_values(|item: JsonV| without_aliases(item)));
}

/// Setting a member gives its key the value, leaves what every other key reads, and adds a member
/// only where the key was not there.
pub proof fn lemma_member_is_set(
    members: MembersV,
    key: Seq<char>,
    value: JsonV,
    other: Seq<char>,
)
    ensures
        lookup(with_member(members, key, value), key) == Some(value),
        other != key ==> lookup(with_member(members, key, value), other) == lookup(members, other),
        with_member(members, key, value).len() == members.len() + if lookup(members, key) is None {
            1int
        } else {
            0
        },
    decreases members.len(),
{
    let set = with_member(members, key, value);
    if members.len() == 0 {
        assert(set.skip(1) =~= members);
        assert(lookup(set.skip(1), other) is None);
    } else if members[0].0 == key {
        assert(set.skip(1) =~= members.skip(1));
    } else {
        lemma_member_is_set(members.skip(1), key, value, other);
        assert(set.skip(1) =~= with_member(members.skip(1), key, value));
    }
}

} // verus!
