//! The types of group keys.

use crate::aggregates::{at, text_at};
use crate::grouped_agg::detection::{declared_type_at, find_declared_type, GroupedSelectItem,
    GroupedSelectItemV};
use crate::handed::{callable, computes};
use crate::json::{group_json_views, Json, JsonV};
use crate::text::{decimal, number_text};
use crate::types::{char_type_width, char_width};
use vstd::prelude::*;

verus! {

broadcast use group_json_views;

/// The type that the select list declares for the group key at `slot`, by the last item that
/// projects it with one.
pub open spec fn projected_key_type(
    pushdown_req: JsonV,
    items: Seq<GroupedSelectItemV>,
    slot: int,
    exasol_type: spec_fn(JsonV) -> Seq<char>,
) -> Option<Seq<char>>
    decreases items.len(),
{
    if items.len() == 0 {
        None
    } else {
        let before = projected_key_type(pushdown_req, items.drop_last(), slot, exasol_type);
        match items.last() {
            GroupedSelectItemV::GroupKey { group_key_slot, select_index } => {
                if group_key_slot == slot {
                    match declared_type_at(pushdown_req, select_index as int, exasol_type) {
                        Some(declared) => Some(declared),
                        None => before,
                    }
                } else {
                    before
                }
            },
            _ => before,
        }
    }
}

/// The type that the group key at `slot` states itself, as a cast does.
pub open spec fn own_key_type(
    pushdown_req: JsonV,
    slot: int,
    exasol_type: spec_fn(JsonV) -> Seq<char>,
) -> Option<Seq<char>> {
    match pushdown_req.items_field("groupBy"@) {
        Some(nodes) => if 0 <= slot < nodes.len() {
            match nodes[slot].field("dataType"@) {
                Some(data_type) => Some(exasol_type(data_type)),
                None => None,
            }
        } else {
            None
        },
        None => None,
    }
}

/// The type of the group key at `slot`: what the select list declares, else what the key states
/// itself, else the widest text.
pub open spec fn key_type(
    pushdown_req: JsonV,
    items: Seq<GroupedSelectItemV>,
    slot: int,
    exasol_type: spec_fn(JsonV) -> Seq<char>,
) -> Seq<char> {
    match projected_key_type(pushdown_req, items, slot, exasol_type) {
        Some(declared) => declared,
        None => match own_key_type(pushdown_req, slot, exasol_type) {
            Some(stated) => stated,
            None => "VARCHAR(2000000)"@,
        },
    }
}

/// The types of `n` group keys.
pub open spec fn key_types(
    pushdown_req: JsonV,
    items: Seq<GroupedSelectItemV>,
    n: nat,
    exasol_type: spec_fn(JsonV) -> Seq<char>,
) -> Seq<Seq<char>> {
    Seq::new(n, |slot: int| key_type(pushdown_req, items, slot, exasol_type))
}

fn find_projected_key_type<T: Fn(&Json) -> String>(
    pushdown_req: &Json,
    items: &Vec<GroupedSelectItem>,
    slot: usize,
    exasol_type: &T,
) -> (found: Option<String>)
    requires
        callable(*exasol_type),
    ensures
        forall|t: spec_fn(JsonV) -> Seq<char>| #[trigger]
            computes(*exasol_type, t) ==> found.deep_view() == projected_key_type(
                pushdown_req@,
                items.deep_view(),
                slot as int,
                t,
            ),
{
    let ghost views = items.deep_view();
    let mut found: Option<String> = None;
    let mut i: usize = 0;
    while i < items.len()
        invariant
            0 <= i <= items.len(),
            views == items.deep_view(),
            callable(*exasol_type),
            forall|t: spec_fn(JsonV) -> Seq<char>| #[trigger]
                computes(*exasol_type, t) ==> found.deep_view() == projected_key_type(
                    pushdown_req@,
                    views.take(i as int),
                    slot as int,
                    t,
                ),
        decreases items.len() - i,
    {
        assert(views.take(i + 1).drop_last() =~= views.take(i as int));
        assert(views.take(i + 1).last() == items@[i as int].deep_view());
        if let GroupedSelectItem::GroupKey { group_key_slot, select_index } = &items[i] {
            if *group_key_slot == slot {
                if let Some(declared) = find_declared_type(
                    pushdown_req,
                    *select_index,
                    exasol_type,
                ) {
                    found = Some(declared);
                }
            }
        }
        i += 1;
    }
    assert(views.take(i as int) =~= views);
    found
}

fn find_own_key_type<T: Fn(&Json) -> String>(
    pushdown_req: &Json,
    slot: usize,
    exasol_type: &T,
) -> (found: Option<String>)
    requires
        callable(*exasol_type),
    ensures
        forall|t: spec_fn(JsonV) -> Seq<char>| #[trigger]
            computes(*exasol_type, t) ==> found.deep_view() == own_key_type(
                pushdown_req@,
                slot as int,
                t,
            ),
{
    match pushdown_req.get_array("groupBy") {
        Some(nodes) => if slot < nodes.len() {
            assert(nodes.deep_view()[slot as int] == nodes@[slot as int]@);
            match nodes[slot].get("dataType") {
                Some(data_type) => Some(exasol_type(data_type)),
                None => None,
            }
        } else {
            None
        },
        None => None,
    }
}

/// Finds the types of group keys. Items are matched to keys by their slot and not by their text.
pub fn group_key_exasol_types<T: Fn(&Json) -> String>(
    pushdown_req: &Json,
    group_keys: &Vec<String>,
    select_items: &Vec<GroupedSelectItem>,
    exasol_type: &T,
) -> (types: Vec<String>)
    requires
        callable(*exasol_type),
    ensures
        types@.len() == group_keys@.len(),
        forall|t: spec_fn(JsonV) -> Seq<char>| #[trigger]
            computes(*exasol_type, t) ==> types.deep_view() == key_types(
                pushdown_req@,
                select_items.deep_view(),
                group_keys@.len(),
                t,
            ),
{
    let mut types: Vec<String> = Vec::new();
    let mut slot: usize = 0;
    while slot < group_keys.len()
        invariant
            0 <= slot <= group_keys.len(),
            types@.len() == slot,
            callable(*exasol_type),
            forall|t: spec_fn(JsonV) -> Seq<char>| #[trigger]
                computes(*exasol_type, t) ==> types.deep_view() =~= key_types(
                    pushdown_req@,
                    select_items.deep_view(),
                    group_keys@.len(),
                    t,
                ).take(slot as int),
        decreases group_keys.len() - slot,
    {
        let ghost before = types.deep_view();
        let found = match find_projected_key_type(pushdown_req, select_items, slot, exasol_type) {
            Some(declared) => declared,
            None => match find_own_key_type(pushdown_req, slot, exasol_type) {
                Some(stated) => stated,
                None => "VARCHAR(2000000)".to_string(),
            },
        };
        types.push(found);
        assert(types.deep_view() =~= before.push(found@));
        slot += 1;
    }
    assert forall|t: spec_fn(JsonV) -> Seq<char>| #[trigger] computes(
        *exasol_type,
        t,
    ) implies types.deep_view() == key_types(
        pushdown_req@,
        select_items.deep_view(),
        group_keys@.len(),
        t,
    ) by {
        assert(types.deep_view() =~= key_types(
            pushdown_req@,
            select_items.deep_view(),
            group_keys@.len(),
            t,
        ));
    }
    types
}

/// An expression blank-padded to `width`. A longer value is left as it is, so that the cast of the
/// merged key still rejects it.
pub open spec fn padded(fragment: Seq<char>, width: nat) -> Seq<char> {
    "CASE WHEN character_length("@ + fragment + ") < "@ + decimal(width) + " THEN rpad("@ + fragment
        + ", "@ + decimal(width) + ") ELSE "@ + fragment + " END"@
}

/// A group key as the shards compute it: blank-padded when its type is `CHAR(n)`.
pub open spec fn padded_key(fragment: Seq<char>, declared: Option<Seq<char>>) -> Seq<char> {
    match declared {
        Some(declared_type) => match char_type_width(declared_type) {
            Some(width) => padded(fragment, width),
            None => fragment,
        },
        None => fragment,
    }
}

/// Group keys as the shards compute them.
pub open spec fn padded_keys(group_keys: Seq<Seq<char>>, types: Seq<Seq<char>>) -> Seq<Seq<char>> {
    Seq::new(group_keys.len(), |slot: int| padded_key(group_keys[slot], at(types, slot)))
}

fn pad_key(fragment: &str, declared: Option<&str>) -> (sql: String)
    ensures
        sql@ == padded_key(fragment@, declared.deep_view()),
{
    let width = match declared {
        Some(declared_type) => char_width(declared_type),
        None => None,
    };
    match width {
        Some(columns) => {
            let digits = number_text(columns as u64);
            let mut sql = "CASE WHEN character_length(".to_string();
            sql.append(fragment);
            sql.append(") < ");
            sql.append(digits.as_str());
            sql.append(" THEN rpad(");
            sql.append(fragment);
            sql.append(", ");
            sql.append(digits.as_str());
            sql.append(") ELSE ");
            sql.append(fragment);
            sql.append(" END");
            sql
        },
        None => fragment.to_string(),
    }
}

/// Blank-pads the group keys of type `CHAR(n)`. A cast to `CHAR(n)` pads in the reading engine, so
/// values that differ in trailing blanks are one group there; a scan does not pad, and the merge
/// would return a row per variant.
pub fn blank_pad_char_group_keys(
    group_keys: &Vec<String>,
    group_key_types: &Vec<String>,
) -> (padded: Vec<String>)
    ensures
        padded.deep_view() == padded_keys(group_keys.deep_view(), group_key_types.deep_view()),
{
    let ghost model = padded_keys(group_keys.deep_view(), group_key_types.deep_view());
    let mut keys: Vec<String> = Vec::new();
    let mut slot: usize = 0;
    while slot < group_keys.len()
        invariant
            0 <= slot <= group_keys.len(),
            model == padded_keys(group_keys.deep_view(), group_key_types.deep_view()),
            keys.deep_view() =~= model.take(slot as int),
        decreases group_keys.len() - slot,
    {
        let ghost before = keys.deep_view();
        let key = pad_key(group_keys[slot].as_str(), text_at(group_key_types, slot));
        keys.push(key);
        assert(keys.deep_view() =~= before.push(key@));
        slot += 1;
    }
    assert(keys.deep_view() =~= model);
    keys
}

} // verus!
