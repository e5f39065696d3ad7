//! Type names, and the types of group keys.

use crate::grouped_agg::detection::{declared_type_at, select_type, GroupedSelectItemV};
use crate::grouped_agg::key_types::{key_type, key_types, own_key_type, padded_key, padded_keys,
    projected_key_type};
use crate::json::JsonV;
use crate::laws::grouped::lemma_decimal_reads_back;
use crate::laws::sort_orders::{place_of, projects_key};
use crate::text::{decimal, signed_decimal};
use crate::types::{char_type_width, decimal_args, has_prefix, is_numeral, is_white_space,
    numeral_value, small_signed_reading, sum_type, trimmed, unsigned_reading};
use vstd::prelude::*;

verus! {

/// Trimming takes white space off both ends and nothing else: a text that starts and ends with
/// something else stays, and white space before or behind a text makes no difference.
pub proof fn lemma_trimming_takes_white_space(text: Seq<char>, blank: char)
    requires
        is_white_space(blank),
    ensures
        text.len() == 0 ==> trimmed(text) == text,
        text.len() > 0 && !is_white_space(text[0]) && !is_white_space(text.last()) ==> trimmed(text)
            == text,
        trimmed(seq![blank] + text) == trimmed(text),
        trimmed(text.push(blank)) == trimmed(text),
    decreases text.len(),
{
    assert((seq![blank] + text).skip(1) =~= text);
    let longer = text.push(blank);
    if text.len() == 0 {
        assert(longer.skip(1) =~= text);
    } else if is_white_space(text[0]) {
        lemma_trimming_takes_white_space(text.skip(1), blank);
        assert(longer.skip(1) =~= text.skip(1).push(blank));
    } else {
        assert(longer.drop_last() =~= text);
    }
}

/// The characters that are taken for white space.
pub proof fn lemma_white_space_characters(c: char)
    ensures
        c == ' ' || c == '\t' || c == '\n' || c == '\r' ==> is_white_space(c),
        '!' <= c <= '~' ==> !is_white_space(c),
        c as int == 0xb || c as int == 0xc || c as int == 0x85 || c as int == 0xa0 || c as int
            == 0x1680 || 0x2000 <= c as int <= 0x200a || c as int == 0x2028 || c as int == 0x2029
            || c as int == 0x202f || c as int == 0x205f || c as int == 0x3000 ==> is_white_space(c),
        c as int > 0x3000 || 0x2060 <= c as int <= 0x2fff || 0x1681 <= c as int <= 0x1fff || 0xa1
            <= c as int <= 0x167f ==> !is_white_space(c),
{
}

/// A number is read from its digits, with or without a plus sign, up to a bound; a text with
/// anything else is none.
pub proof fn lemma_numbers_are_read(value: nat, max: nat, text: Seq<char>)
    ensures
        unsigned_reading(decimal(value), max) == if value <= max {
            Some(value)
        } else {
            None
        },
        unsigned_reading(seq!['+'] + decimal(value), max) == if value <= max {
            Some(value)
        } else {
            None
        },
        small_signed_reading(decimal(value)) == if value <= 127 {
            Some(value as int)
        } else {
            None
        },
        small_signed_reading(seq!['-'] + decimal(value)) == if value <= 128 {
            Some(-(value as int))
        } else {
            None
        },
        unsigned_reading(text, max) matches Some(read) ==> read <= max && (is_numeral(text)
            && numeral_value(text) == read || text.len() > 0 && text[0] == '+' && is_numeral(
            text.skip(1),
        ) && numeral_value(text.skip(1)) == read),
        small_signed_reading(text) matches Some(read) ==> -128 <= read <= 127,
{
    lemma_decimal_reads_back(value);
    assert('0' <= decimal(value)[0] <= '9');
    assert((seq!['+'] + decimal(value)).skip(1) =~= decimal(value));
    assert((seq!['-'] + decimal(value)).skip(1) =~= decimal(value));
}

/// A decimal type name has the precision and the scale that it states; the scale is zero where it
/// states none.
pub proof fn lemma_decimal_names_are_read(precision: nat, scale: int)
    requires
        precision <= 255,
        -128 <= scale <= 127,
    ensures
        decimal_args("DECIMAL("@ + decimal(precision) + ","@ + signed_decimal(scale) + ")"@) == Some(
            (precision, scale),
        ),
        decimal_args("DECIMAL("@ + decimal(precision) + ")"@) == Some((precision, 0int)),
{
    reveal_strlit("DECIMAL(");
    reveal_strlit(",");
    reveal_strlit(")");
    lemma_decimal_reads_back(precision);
    let magnitude = if scale < 0 {
        (-scale) as nat
    } else {
        scale as nat
    };
    lemma_decimal_reads_back(magnitude);
    let first = decimal(precision);
    let second = signed_decimal(scale);
    lemma_numbers_are_read(precision, 255, first);
    lemma_numbers_are_read(magnitude, 255, second);
    assert(scale < 0 ==> second =~= seq!['-'] + decimal(magnitude));
    assert forall|i: int| 0 <= i < first.len() implies '0' <= #[trigger] first[i] <= '9' by {}
    assert forall|i: int| 0 <= i < second.len() implies #[trigger] second[i] == '-' || '0'
        <= second[i] <= '9' by {
        if scale < 0 && i > 0 {
            assert(second[i] == decimal(magnitude)[i - 1]);
        }
    }
    assert(trimmed(first) == first);
    assert(trimmed(second) == second);

    let long = "DECIMAL("@ + first + ","@ + second + ")"@;
    assert(long.take(8) =~= "DECIMAL("@);
    let long_args = long.subrange(8, long.len() - 1);
    assert(long_args =~= first + seq![','] + second);
    long_args.index_of_first_ensures(',');
    assert(long_args[first.len() as int] == ',');
    let comma = long_args.index_of_first(',')->0;
    assert(comma == first.len()) by {
        if comma < first.len() {
            assert(long_args[comma] == first[comma]);
        }
    }
    assert(long_args.take(comma) =~= first);
    assert(long_args.skip(comma + 1) =~= second);

    let short = "DECIMAL("@ + first + ")"@;
    assert(short.take(8) =~= "DECIMAL("@);
    let short_args = short.subrange(8, short.len() - 1);
    assert(short_args =~= first);
    short_args.index_of_first_ensures(',');
}

/// A name that does not start as a decimal type is none.
pub proof fn lemma_other_names_are_no_decimals(name: Seq<char>)
    requires
        !has_prefix(name, "DECIMAL("@),
    ensures
        decimal_args(name) is None,
        sum_type(name) == "DOUBLE PRECISION"@,
{
}

/// A sum over decimals is carried in the widest decimal of their scale; any other in floating point.
pub proof fn lemma_sums_are_widened(precision: nat, scale: int, name: Seq<char>)
    requires
        precision <= 255,
        -128 <= scale <= 127,
    ensures
        sum_type("DECIMAL("@ + decimal(precision) + ","@ + signed_decimal(scale) + ")"@)
            == "DECIMAL(36,"@ + signed_decimal(scale) + ")"@,
        decimal_args(name) matches Some(args) ==> sum_type(name) == "DECIMAL(36,"@ + signed_decimal(
            args.1,
        ) + ")"@,
        decimal_args(name) is None ==> sum_type(name) == "DOUBLE PRECISION"@,
{
    lemma_decimal_names_are_read(precision, scale);
}

/// A `CHAR` type name has the width between its parentheses, whatever stands behind them; a name
/// that does not start so has none.
pub proof fn lemma_char_widths_are_read(width: nat, rest: Seq<char>, name: Seq<char>)
    requires
        width <= u32::MAX,
    ensures
        char_type_width("CHAR("@ + decimal(width) + ")"@ + rest) == Some(width),
        !has_prefix(name, "CHAR("@) ==> char_type_width(name) is None,
{
    reveal_strlit("CHAR(");
    reveal_strlit(")");
    lemma_numbers_are_read(width, u32::MAX as nat, name);
    lemma_decimal_reads_back(width);
    let digits = decimal(width);
    let full = "CHAR("@ + digits + ")"@ + rest;
    assert(full.take(5) =~= "CHAR("@);
    let inner = full.skip(5);
    assert(inner =~= digits + seq![')'] + rest);
    inner.index_of_first_ensures(')');
    assert(inner[digits.len() as int] == ')');
    let close = inner.index_of_first(')')->0;
    assert(close == digits.len()) by {
        if close < digits.len() {
            assert(inner[close] == digits[close]);
        } else if close > digits.len() {
            assert(inner[digits.len() as int] != ')');
        }
    }
    assert(inner.take(close) =~= digits);
}

/// A text starts with another when it is that text with something behind it.
pub proof fn lemma_prefixes(text: Seq<char>, prefix: Seq<char>, rest: Seq<char>)
    ensures
        has_prefix(prefix + rest, prefix),
        has_prefix(text, prefix) ==> text == prefix + text.skip(prefix.len() as int),
{
    assert((prefix + rest).take(prefix.len() as int) =~= prefix);
    if has_prefix(text, prefix) {
        assert(text =~= text.take(prefix.len() as int) + text.skip(prefix.len() as int));
    }
}

/// The type of an item of the select list is the one at its own place among the declared types, and
/// the widest text where there is none.
pub proof fn lemma_declared_types_in_place(
    pushdown_req: JsonV,
    types: Seq<JsonV>,
    index: int,
    exasol_type: spec_fn(JsonV) -> Seq<char>,
)
    requires
        pushdown_req.field("selectListDataTypes"@) == Some(JsonV::Array(types)),
        0 <= index,
    ensures
        index < types.len() ==> declared_type_at(pushdown_req, index, exasol_type) == Some(
            exasol_type(types[index]),
        ) && select_type(pushdown_req, index, exasol_type) == exasol_type(types[index]),
        index >= types.len() ==> declared_type_at(pushdown_req, index, exasol_type) is None
            && select_type(pushdown_req, index, exasol_type) == "VARCHAR(2000000)"@,
{
}

/// Without declared types every item of the select list is the widest text.
pub proof fn lemma_undeclared_types(
    pushdown_req: JsonV,
    index: int,
    exasol_type: spec_fn(JsonV) -> Seq<char>,
)
    requires
        pushdown_req.items_field("selectListDataTypes"@) is None,
    ensures
        declared_type_at(pushdown_req, index, exasol_type) is None,
        select_type(pushdown_req, index, exasol_type) == "VARCHAR(2000000)"@,
{
}

/// Whether an item projects the group key at `slot` with a declared type.
pub open spec fn types_key(
    pushdown_req: JsonV,
    item: GroupedSelectItemV,
    slot: usize,
    exasol_type: spec_fn(JsonV) -> Seq<char>,
) -> bool {
    projects_key(item, slot) && declared_type_at(
        pushdown_req,
        place_of(item) as int,
        exasol_type,
    ) is Some
}

proof fn lemma_projected_types(
    pushdown_req: JsonV,
    items: Seq<GroupedSelectItemV>,
    slot: usize,
    exasol_type: spec_fn(JsonV) -> Seq<char>,
)
    ensures
        match projected_key_type(pushdown_req, items, slot as int, exasol_type) {
            Some(found) => exists|i: int|
                0 <= i < items.len() && types_key(
                    pushdown_req,
                    #[trigger] items[i],
                    slot,
                    exasol_type,
                ) && declared_type_at(pushdown_req, place_of(items[i]) as int, exasol_type) == Some(
                    found,
                ) && forall|j: int|
                    i < j < items.len() ==> !types_key(
                        pushdown_req,
                        #[trigger] items[j],
                        slot,
                        exasol_type,
                    ),
            None => forall|i: int|
                0 <= i < items.len() ==> !types_key(
                    pushdown_req,
                    #[trigger] items[i],
                    slot,
                    exasol_type,
                ),
        },
    decreases items.len(),
{
    if items.len() > 0 {
        let rest = items.drop_last();
        lemma_projected_types(pushdown_req, rest, slot, exasol_type);
        let last = items[items.len() - 1];
        if !types_key(pushdown_req, last, slot, exasol_type) {
            assert(projected_key_type(pushdown_req, items, slot as int, exasol_type)
                == projected_key_type(pushdown_req, rest, slot as int, exasol_type));
            if projected_key_type(pushdown_req, rest, slot as int, exasol_type) is Some {
                let found = projected_key_type(pushdown_req, rest, slot as int, exasol_type)->0;
                let i = choose|i: int|
                    0 <= i < rest.len() && types_key(
                        pushdown_req,
                        #[trigger] rest[i],
                        slot,
                        exasol_type,
                    ) && declared_type_at(pushdown_req, place_of(rest[i]) as int, exasol_type)
                        == Some(found) && forall|j: int|
                        i < j < rest.len() ==> !types_key(
                            pushdown_req,
                            #[trigger] rest[j],
                            slot,
                            exasol_type,
                        );
                assert(items[i] == rest[i]);
                assert forall|j: int| i < j < items.len() implies !types_key(
                    pushdown_req,
                    #[trigger] items[j],
                    slot,
                    exasol_type,
                ) by {
                    if j < rest.len() {
                        assert(rest[j] == items[j]);
                    }
                }
            } else {
                assert forall|j: int| 0 <= j < items.len() implies !types_key(
                    pushdown_req,
                    #[trigger] items[j],
                    slot,
                    exasol_type,
                ) by {
                    if j < rest.len() {
                        assert(rest[j] == items[j]);
                    }
                }
            }
        }
    }
}

/// A group key has the type that is declared at the place of the last item that projects it with
/// one; without such an item the type that the key states itself, and the widest text where it
/// states none.
pub proof fn lemma_group_key_types(
    pushdown_req: JsonV,
    items: Seq<GroupedSelectItemV>,
    count: nat,
    slot: usize,
    exasol_type: spec_fn(JsonV) -> Seq<char>,
)
    requires
        slot < count,
    ensures
        key_types(pushdown_req, items, count, exasol_type).len() == count,
        ({
            let found = key_types(pushdown_req, items, count, exasol_type)[slot as int];
            ||| exists|i: int|
                0 <= i < items.len() && types_key(
                    pushdown_req,
                    #[trigger] items[i],
                    slot,
                    exasol_type,
                ) && declared_type_at(pushdown_req, place_of(items[i]) as int, exasol_type) == Some(
                    found,
                ) && forall|j: int|
                    i < j < items.len() ==> !types_key(
                        pushdown_req,
                        #[trigger] items[j],
                        slot,
                        exasol_type,
                    )
            ||| (forall|i: int|
                0 <= i < items.len() ==> !types_key(
                    pushdown_req,
                    #[trigger] items[i],
                    slot,
                    exasol_type,
                )) && found == match own_key_type(pushdown_req, slot as int, exasol_type) {
                Some(stated) => stated,
                None => "VARCHAR(2000000)"@,
            }
        }),
{
    lemma_projected_types(pushdown_req, items, slot, exasol_type);
    assert(key_types(pushdown_req, items, count, exasol_type)[slot as int] == key_type(
        pushdown_req,
        items,
        slot as int,
        exasol_type,
    ));
}

/// A group key states the type of the node at its own place among the group keys.
pub proof fn lemma_stated_key_types(
    pushdown_req: JsonV,
    nodes: Seq<JsonV>,
    slot: int,
    exasol_type: spec_fn(JsonV) -> Seq<char>,
)
    requires
        pushdown_req.field("groupBy"@) == Some(JsonV::Array(nodes)),
        0 <= slot < nodes.len(),
    ensures
        own_key_type(pushdown_req, slot, exasol_type) == match nodes[slot].field("dataType"@) {
            Some(data_type) => Some(exasol_type(data_type)),
            None => None,
        },
{
}

/// A group key of a `CHAR` type is padded with blanks to the width of that type where it is shorter,
/// and stays as it is where it is not. A key of any other type stays as it is.
pub proof fn lemma_char_keys_are_padded(
    group_keys: Seq<Seq<char>>,
    types: Seq<Seq<char>>,
    slot: int,
)
    requires
        0 <= slot < group_keys.len(),
    ensures
        padded_keys(group_keys, types).len() == group_keys.len(),
        ({
            let key = group_keys[slot];
            padded_keys(group_keys, types)[slot] == if slot < types.len() && char_type_width(
                types[slot],
            ) is Some {
                let width = decimal(char_type_width(types[slot])->0);
                "CASE WHEN character_length("@ + key + ") < "@ + width + " THEN rpad("@ + key
                    + ", "@ + width + ") ELSE "@ + key + " END"@
            } else {
                key
            }
        }),
{
    assert(padded_keys(group_keys, types)[slot] == padded_key(
        group_keys[slot],
        crate::aggregates::at(types, slot),
    ));
}

} // verus!
