//! Texts: lists, identifiers, numbers and letters.

use crate::json::{JsonV, MembersV};
use crate::json_text::{item_texts, json_char, json_string, json_text, member_texts};
use crate::laws::grouped::lemma_decimal_reads_back;
use crate::text::{ascii_same, ascii_upper, decimal, doubled, joined, quoted, signed_decimal,
    unicode_upper, uppercase};
use crate::types::{is_numeral, numeral_value};
use vstd::prelude::*;

verus! {

/// A list of one part is that part, and two lists behind each other have the separator once, between
/// the last part of the first and the first part of the second.
pub proof fn lemma_lists_are_joined(
    left: Seq<Seq<char>>,
    right: Seq<Seq<char>>,
    part: Seq<char>,
    separator: Seq<char>,
)
    requires
        left.len() > 0,
        right.len() > 0,
    ensures
        joined(Seq::empty(), separator) == Seq::<char>::empty(),
        joined(seq![part], separator) == part,
        joined(left + right, separator) == joined(left, separator) + separator + joined(
            right,
            separator,
        ),
    decreases right.len(),
{
    let all = left + right;
    assert(all.drop_last() =~= left + right.drop_last());
    if right.len() == 1 {
        assert(all.drop_last() =~= left);
        assert(joined(right, separator) == right[0]);
    } else {
        lemma_lists_are_joined(left, right.drop_last(), part, separator);
        assert(joined(all, separator) =~= joined(left, separator) + separator + joined(
            right,
            separator,
        ));
    }
}

/// Doubling a mark goes character by character: a mark is written twice, anything else once.
pub proof fn lemma_marks_are_doubled(left: Seq<char>, right: Seq<char>, mark: char, c: char)
    ensures
        doubled(left + right, mark) == doubled(left, mark) + doubled(right, mark),
        doubled(seq![c], mark) == if c == mark {
            seq![c, c]
        } else {
            seq![c]
        },
    decreases right.len(),
{
    assert(seq![c].drop_last() =~= Seq::empty());
    assert(doubled(seq![c].drop_last(), mark) =~= Seq::empty());
    assert(doubled(seq![c], mark) =~= if c == mark {
        seq![c, c]
    } else {
        seq![c]
    });
    if right.len() == 0 {
        assert(left + right =~= left);
        assert(doubled(left + right, mark) =~= doubled(left, mark) + doubled(right, mark));
    } else {
        assert((left + right).drop_last() =~= left + right.drop_last());
        lemma_marks_are_doubled(left, right.drop_last(), mark, c);
        assert(doubled(left + right, mark) =~= doubled(left, mark) + doubled(right, mark));
    }
}

/// A text without the mark is not changed by doubling it.
pub proof fn lemma_unmarked_text_stays(text: Seq<char>, mark: char)
    requires
        !text.contains(mark),
    ensures
        doubled(text, mark) == text,
    decreases text.len(),
{
    if text.len() > 0 {
        let rest = text.drop_last();
        assert forall|i: int| 0 <= i < rest.len() implies rest[i] != mark by {
            assert(text[i] == rest[i]);
        }
        assert(text[text.len() - 1] != mark);
        lemma_unmarked_text_stays(rest, mark);
        assert(rest.push(text.last()) =~= text);
    }
}

/// An identifier is its name between double quotes: as it is where it holds none, and with those it
/// holds doubled otherwise.
pub proof fn lemma_identifiers_are_quoted(name: Seq<char>)
    ensures
        quoted(name) == seq!['"'] + doubled(name, '"') + seq!['"'],
        !name.contains('"') ==> quoted(name) == seq!['"'] + name + seq!['"'],
{
    assert(quoted(name) =~= seq!['"'] + doubled(name, '"') + seq!['"']);
    if !name.contains('"') {
        lemma_unmarked_text_stays(name, '"');
    }
}

/// The text of a number is made of decimal digits, reads as that number, and starts with no zero
/// unless it is the number zero. A negative number has a minus sign before the text of its
/// magnitude.
pub proof fn lemma_numbers_are_written(value: nat)
    ensures
        is_numeral(decimal(value)),
        numeral_value(decimal(value)) == value,
        value > 0 ==> decimal(value)[0] != '0',
        signed_decimal(value as int) == decimal(value),
        value > 0 ==> signed_decimal(-(value as int)) == seq!['-'] + decimal(value),
    decreases value,
{
    lemma_decimal_reads_back(value);
    if value >= 10 {
        lemma_numbers_are_written(value / 10);
        assert(decimal(value)[0] == decimal(value / 10)[0]);
    } else {
        assert(crate::text::digit_char(value) as int == 48 + value);
    }
    if value > 0 {
        assert(signed_decimal(-(value as int)) =~= seq!['-'] + decimal(value));
    }
}

/// Reading digits is positional: a further digit multiplies what is read by ten.
pub proof fn lemma_digits_are_positional(digits: Seq<char>, digit: char)
    requires
        '0' <= digit <= '9',
    ensures
        numeral_value(Seq::empty()) == 0,
        numeral_value(digits.push(digit)) == 10 * numeral_value(digits) + (digit as int - 48),
{
    assert(digits.push(digit).drop_last() =~= digits);
}

/// ASCII uppercase maps the letters `a` to `z` to the letters `A` to `Z`, one by one, and leaves
/// every other character as it is.
pub proof fn lemma_ascii_letters_are_raised(text: Seq<char>, i: int)
    requires
        0 <= i < text.len(),
    ensures
        ascii_upper(text).len() == text.len(),
        'a' <= text[i] <= 'z' ==> ascii_upper(text)[i] as int == text[i] as int - 'a' as int
            + 'A' as int,
        !('a' <= text[i] <= 'z') ==> ascii_upper(text)[i] == text[i],
{
}

/// Two texts agree up to ASCII case when they have the same length and each pair of characters is
/// equal or the two cases of one ASCII letter.
pub proof fn lemma_ascii_case_is_ignored(a: Seq<char>, b: Seq<char>)
    ensures
        ascii_same(a, b) <==> a.len() == b.len() && forall|i: int|
            0 <= i < a.len() ==> {
                ||| #[trigger] a[i] == b[i]
                ||| 'a' <= a[i] <= 'z' && a[i] as int - 32 == b[i] as int
                ||| 'a' <= b[i] <= 'z' && b[i] as int - 32 == a[i] as int
            },
{
    if ascii_same(a, b) {
        assert(ascii_upper(a).len() == ascii_upper(b).len());
        assert forall|i: int| 0 <= i < a.len() implies {
            ||| #[trigger] a[i] == b[i]
            ||| 'a' <= a[i] <= 'z' && a[i] as int - 32 == b[i] as int
            ||| 'a' <= b[i] <= 'z' && b[i] as int - 32 == a[i] as int
        } by {
            assert(ascii_upper(a)[i] == ascii_upper(b)[i]);
        }
    }
    if a.len() == b.len() && forall|i: int|
        0 <= i < a.len() ==> {
            ||| #[trigger] a[i] == b[i]
            ||| 'a' <= a[i] <= 'z' && a[i] as int - 32 == b[i] as int
            ||| 'a' <= b[i] <= 'z' && b[i] as int - 32 == a[i] as int
        } {
        assert(ascii_upper(a) =~= ascii_upper(b));
    }
}

/// A text with a character beyond ASCII is folded by the Unicode mapping, and one without by the
/// ASCII letters.
pub proof fn lemma_uppercase_folds(text: Seq<char>)
    ensures
        (exists|i: int| 0 <= i < text.len() && (#[trigger] text[i]) as nat > 127) ==> uppercase(
            text,
        ) == unicode_upper(text),
        (forall|i: int| 0 <= i < text.len() ==> (#[trigger] text[i]) as nat <= 127) ==> uppercase(
            text,
        ) == ascii_upper(text),
{
}

/// The text of a JSON array lists the texts of its items between brackets, in their order, and that
/// of an object its keys and values between braces.
pub proof fn lemma_json_texts(items: Seq<JsonV>, members: MembersV, n: u64, m: i64, text: Seq<char>)
    requires
        m < 0,
    ensures
        json_text(JsonV::Null) == "null"@,
        json_text(JsonV::Bool(true)) == "true"@,
        json_text(JsonV::Bool(false)) == "false"@,
        json_text(JsonV::Unsigned(n)) == decimal(n as nat),
        json_text(JsonV::Negative(m)) == seq!['-'] + decimal((-m) as nat),
        json_text(JsonV::Decimal(text)) == text,
        json_text(JsonV::Str(text)) == json_string(text),
        json_text(JsonV::Array(items)) == "["@ + joined(
            Seq::new(items.len(), |i: int| json_text(items[i])),
            ","@,
        ) + "]"@,
        json_text(JsonV::Object(members)) == "{"@ + joined(
            Seq::new(
                members.len(),
                |i: int| json_string(members[i].0) + ":"@ + json_text(members[i].1),
            ),
            ","@,
        ) + "}"@,
{
    lemma_numbers_are_written((-m) as nat);
    lemma_item_texts(items);
    lemma_member_texts(members);
}

proof fn lemma_item_texts(items: Seq<JsonV>)
    ensures
        item_texts(items) == Seq::new(items.len(), |i: int| json_text(items[i])),
    decreases items.len(),
{
    if items.len() > 0 {
        lemma_item_texts(items.drop_last());
    }
    assert(item_texts(items) =~= Seq::new(items.len(), |i: int| json_text(items[i])));
}

proof fn lemma_member_texts(members: MembersV)
    ensures
        member_texts(members) == Seq::new(
            members.len(),
            |i: int| json_string(members[i].0) + ":"@ + json_text(members[i].1),
        ),
    decreases members.len(),
{
    if members.len() > 0 {
        lemma_member_texts(members.drop_last());
    }
    assert(member_texts(members) =~= Seq::new(
        members.len(),
        |i: int| json_string(members[i].0) + ":"@ + json_text(members[i].1),
    ));
}

/// A JSON string holds its characters between double quotes. A character from the space on stands
/// for itself, but for a quote and a backslash, which have a backslash before them; every other
/// character starts with a backslash and holds no control character.
pub proof fn lemma_json_characters(c: char)
    ensures
        json_string(seq![c]) == seq!['"'] + json_char(c) + seq!['"'],
        c as int >= 0x20 && c != '"' && c != '\\' ==> json_char(c) == seq![c],
        c == '"' || c == '\\' ==> json_char(c) == seq!['\\', c],
        c == '\n' ==> json_char(c) == seq!['\\', 'n'],
        c == '\r' ==> json_char(c) == seq!['\\', 'r'],
        c == '\t' ==> json_char(c) == seq!['\\', 't'],
        c as int == 0x8 ==> json_char(c) == seq!['\\', 'b'],
        c as int == 0xc ==> json_char(c) == seq!['\\', 'f'],
        (c as int) < 0x8 || c as int == 0xb || 0xe <= c as int <= 0x1f ==> json_char(c) == seq![
            '\\',
            'u',
            '0',
            '0',
            "0123456789abcdef"@[c as int / 16],
            "0123456789abcdef"@[c as int % 16],
        ],
        (c as int) < 0x20 ==> json_char(c).len() >= 2 && json_char(c)[0] == '\\' && forall|i: int|
            0 <= i < json_char(c).len() ==> (#[trigger] json_char(c)[i]) as int >= 0x20,
{
    let texts = seq![c].map_values(|d: char| json_char(d));
    assert(texts =~= seq![json_char(c)]);
    assert(texts.drop_first() =~= Seq::empty());
    assert(texts.flatten() =~= json_char(c)) by {
        reveal_with_fuel(Seq::flatten, 3);
    }
    reveal_strlit("0123456789abcdef");
    if (c as int) < 0x20 {
        let code = c as nat;
        assert(code / 16 < 2);
        assert(code % 16 < 16);
    }
}

} // verus!
