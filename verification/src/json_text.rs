//! Writing a JSON value as text.

use crate::json::{group_json_views, Json, JsonV, MembersV};
use crate::text::{decimal, digit_char, join, joined, number_text, signed_decimal, signed_number_text};
use vstd::prelude::*;

verus! {

broadcast use group_json_views;

/// A hexadecimal digit, in lower case.
pub open spec fn hex_digit(value: nat) -> char {
    if value < 10 {
        digit_char(value)
    } else {
        ('a' as nat + value - 10) as char
    }
}

/// A character inside a JSON string. Quotes, backslashes and control characters are escaped, by
/// their short escape where JSON has one.
pub open spec fn json_char(c: char) -> Seq<char> {
    if c == '"' || c == '\\' {
        seq!['\\', c]
    } else if c == '\n' {
        seq!['\\', 'n']
    } else if c == '\r' {
        seq!['\\', 'r']
    } else if c == '\t' {
        seq!['\\', 't']
    } else if c as nat == 0x08 {
        seq!['\\', 'b']
    } else if c as nat == 0x0c {
        seq!['\\', 'f']
    } else if (c as nat) < 0x20 {
        seq!['\\', 'u', '0', '0', hex_digit(c as nat / 16), hex_digit(c as nat % 16)]
    } else {
        seq![c]
    }
}

/// A JSON string: the characters between double quotes.
pub open spec fn json_string(text: Seq<char>) -> Seq<char> {
    seq!['"'] + text.map_values(|c: char| json_char(c)).flatten() + seq!['"']
}

/// Calls `serde_json::to_string` on a string, which cannot fail: it writes to memory. The result is
/// the string between double quotes, with a backslash before quotes and backslashes, the short
/// escapes of backspace, form feed, line feed, carriage return and tab, `\u00` and two lower-case
/// hexadecimal digits for the other characters below a space, and every other character as it is.
#[verifier::external_body]
fn json_string_text(text: &str) -> (json: String)
    ensures
        json@ == json_string(text@),
{
    serde_json::to_string(text).unwrap_or_default()
}

/// The compact text of a JSON value.
pub open spec fn json_text(tree: JsonV) -> Seq<char>
    decreases tree,
{
    match tree {
        JsonV::Null => "null"@,
        JsonV::Bool(true) => "true"@,
        JsonV::Bool(false) => "false"@,
        JsonV::Unsigned(n) => decimal(n as nat),
        JsonV::Negative(n) => signed_decimal(n as int),
        JsonV::Decimal(text) => text,
        JsonV::Str(text) => json_string(text),
        JsonV::Array(items) => "["@ + joined(item_texts(items), ","@) + "]"@,
        JsonV::Object(members) => "{"@ + joined(member_texts(members), ","@) + "}"@,
    }
}

/// The texts of items.
pub open spec fn item_texts(items: Seq<JsonV>) -> Seq<Seq<char>>
    decreases items,
{
    if items.len() == 0 {
        Seq::empty()
    } else {
        item_texts(items.drop_last()).push(json_text(items.last()))
    }
}

/// The texts of members, each a key and a value.
pub open spec fn member_texts(members: MembersV) -> Seq<Seq<char>>
    decreases members,
{
    if members.len() == 0 {
        Seq::empty()
    } else {
        member_texts(members.drop_last()).push(
            json_string(members.last().0) + ":"@ + json_text(members.last().1),
        )
    }
}

/// Writes a JSON value compactly.
pub fn write_json(tree: &Json) -> (text: String)
    ensures
        text@ == json_text(tree@),
    decreases *tree,
{
    match tree {
        Json::Null => "null".to_string(),
        Json::Bool(flag) => if *flag {
            "true".to_string()
        } else {
            "false".to_string()
        },
        Json::Unsigned(n) => number_text(*n),
        Json::Negative(n) => signed_number_text(*n),
        Json::Decimal(text) => text.clone(),
        Json::Str(text) => json_string_text(text.as_str()),
        Json::Array(items) => {
            let ghost views = items.deep_view();
            let mut texts: Vec<String> = Vec::new();
            let mut i: usize = 0;
            assert(texts.deep_view() =~= item_texts(views.take(0)));
            while i < items.len()
                invariant
                    0 <= i <= items.len(),
                    *tree == Json::Array(*items),
                    views == items.deep_view(),
                    texts.deep_view() == item_texts(views.take(i as int)),
                decreases items.len() - i,
            {
                assert(views.take(i + 1).drop_last() =~= views.take(i as int));
                assert(decreases_to!(*tree => tree->Array_0@[i as int]));
                let ghost before = texts.deep_view();
                let text = write_json(&items[i]);
                texts.push(text);
                assert(texts.deep_view() =~= before.push(text@));
                i += 1;
            }
            assert(views.take(i as int) =~= views);
            let mut text = "[".to_string();
            text.append(join(&texts, ",").as_str());
            text.append("]");
            text
        },
        Json::Object(members) => {
            let ghost views = members.deep_view();
            let mut texts: Vec<String> = Vec::new();
            let mut i: usize = 0;
            assert(texts.deep_view() =~= member_texts(views.take(0)));
            while i < members.len()
                invariant
                    0 <= i <= members.len(),
                    *tree == Json::Object(*members),
                    views == members.deep_view(),
                    texts.deep_view() == member_texts(views.take(i as int)),
                decreases members.len() - i,
            {
                assert(views.take(i + 1).drop_last() =~= views.take(i as int));
                assert(decreases_to!(*tree => tree->Object_0@[i as int].1));
                let ghost before = texts.deep_view();
                let mut text = json_string_text(members[i].0.as_str());
                text.append(":");
                text.append(write_json(&members[i].1).as_str());
                texts.push(text);
                assert(texts.deep_view() =~= before.push(text@));
                i += 1;
            }
            assert(views.take(i as int) =~= views);
            let mut text = "{".to_string();
            text.append(join(&texts, ",").as_str());
            text.append("}");
            text
        },
    }
}

} // verus!
