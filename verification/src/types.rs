//! Exasol type names: decimal arguments, character widths and numeric types.

use crate::text::{chars_of, signed_number_text};
use vstd::prelude::*;

verus! {

/// The Unicode `White_Space` characters.
pub open spec fn is_white_space(c: char) -> bool {
    ||| 0x9 <= c as int <= 0xd
    ||| c as int == 0x20
    ||| c as int == 0x85
    ||| c as int == 0xa0
    ||| c as int == 0x1680
    ||| 0x2000 <= c as int <= 0x200a
    ||| c as int == 0x2028
    ||| c as int == 0x2029
    ||| c as int == 0x202f
    ||| c as int == 0x205f
    ||| c as int == 0x3000
}

fn white_space(c: char) -> (yes: bool)
    ensures
        yes == is_white_space(c),
{
    let code: u32 = c as u32;
    (0x9 <= code && code <= 0xd) || code == 0x20 || code == 0x85 || code == 0xa0 || code == 0x1680
        || (0x2000 <= code && code <= 0x200a) || code == 0x2028 || code == 0x2029 || code == 0x202f
        || code == 0x205f || code == 0x3000
}

/// `text` without white space at either end.
pub open spec fn trimmed(text: Seq<char>) -> Seq<char>
    decreases text.len(),
{
    if text.len() == 0 {
        text
    } else if is_white_space(text[0]) {
        trimmed(text.skip(1))
    } else if is_white_space(text.last()) {
        trimmed(text.drop_last())
    } else {
        text
    }
}

/// Whether every character of a non-empty text is a decimal digit.
pub open spec fn is_numeral(text: Seq<char>) -> bool {
    text.len() > 0 && forall|i: int| 0 <= i < text.len() ==> '0' <= #[trigger] text[i] <= '9'
}

/// The number that a text of decimal digits stands for.
pub open spec fn numeral_value(text: Seq<char>) -> nat
    decreases text.len(),
{
    if text.len() == 0 {
        0
    } else {
        (numeral_value(text.drop_last()) * 10 + (text.last() as int - 48)) as nat
    }
}

/// The unsigned integer a text spells, an optional `+` before its digits, up to `max`.
pub open spec fn unsigned_reading(text: Seq<char>, max: nat) -> Option<nat> {
    let digits = if text.len() > 0 && text[0] == '+' {
        text.skip(1)
    } else {
        text
    };
    if is_numeral(digits) && numeral_value(digits) <= max {
        Some(numeral_value(digits))
    } else {
        None
    }
}

/// The signed integer a text spells, an optional sign before its digits, between `-128` and
/// `127`.
pub open spec fn small_signed_reading(text: Seq<char>) -> Option<int> {
    if text.len() > 0 && text[0] == '-' {
        let digits = text.skip(1);
        if is_numeral(digits) && numeral_value(digits) <= 128 {
            Some(-(numeral_value(digits) as int))
        } else {
            None
        }
    } else {
        match unsigned_reading(text, 127) {
            Some(value) => Some(value as int),
            None => None,
        }
    }
}

/// The value of the digits of `chars[from..to]`, unless they are no numeral or exceed `max`.
fn read_numeral(chars: &Vec<char>, from: usize, to: usize, max: u32) -> (value: Option<u32>)
    requires
        from <= to <= chars@.len(),
    ensures
        value == (if is_numeral(chars@.subrange(from as int, to as int)) && numeral_value(
            chars@.subrange(from as int, to as int),
        ) <= max {
            Some(numeral_value(chars@.subrange(from as int, to as int)) as u32)
        } else {
            None
        }),
{
    let ghost digits = chars@.subrange(from as int, to as int);
    if from == to {
        return None;
    }
    let mut value: u64 = 0;
    let mut too_large: bool = false;
    let mut i: usize = from;
    while i < to
        invariant
            from <= i <= to <= chars@.len(),
            digits == chars@.subrange(from as int, to as int),
            forall|j: int| 0 <= j < i - from ==> '0' <= #[trigger] digits[j] <= '9',
            !too_large ==> value == numeral_value(digits.take(i - from)) && value <= max,
            too_large ==> numeral_value(digits.take(i - from)) > max,
        decreases to - i,
    {
        let c = chars[i];
        assert(c == digits[i - from]);
        if c < '0' || c > '9' {
            assert(!is_numeral(digits));
            return None;
        }
        assert(digits.take(i - from + 1).drop_last() =~= digits.take(i - from));
        if !too_large {
            value = value * 10 + (c as u64 - 48);
            if value > max as u64 {
                too_large = true;
            }
        }
        i += 1;
    }
    assert(digits.take(i - from) =~= digits);
    if too_large {
        None
    } else {
        Some(value as u32)
    }
}

/// Reads `chars[from..to]` as an unsigned integer up to `max`.
fn read_unsigned(chars: &Vec<char>, from: usize, to: usize, max: u32) -> (value: Option<u32>)
    requires
        from <= to <= chars@.len(),
    ensures
        match unsigned_reading(chars@.subrange(from as int, to as int), max as nat) {
            Some(n) => value == Some(n as u32),
            None => value is None,
        },
{
    let ghost text = chars@.subrange(from as int, to as int);
    if from < to && chars[from] == '+' {
        assert(text.skip(1) =~= chars@.subrange(from + 1, to as int));
        read_numeral(chars, from + 1, to, max)
    } else {
        read_numeral(chars, from, to, max)
    }
}

/// Reads `chars[from..to]` as an integer between `-128` and `127`.
fn read_small_signed(chars: &Vec<char>, from: usize, to: usize) -> (value: Option<i8>)
    requires
        from <= to <= chars@.len(),
    ensures
        match small_signed_reading(chars@.subrange(from as int, to as int)) {
            Some(n) => value == Some(n as i8),
            None => value is None,
        },
{
    let ghost text = chars@.subrange(from as int, to as int);
    if from < to && chars[from] == '-' {
        assert(text.skip(1) =~= chars@.subrange(from + 1, to as int));
        match read_numeral(chars, from + 1, to, 128) {
            Some(magnitude) => Some((-(magnitude as i64)) as i8),
            None => None,
        }
    } else {
        match read_unsigned(chars, from, to, 127) {
            Some(value) => Some(value as i8),
            None => None,
        }
    }
}

/// The bounds of `chars[from..to]` without white space at either end.
fn trimmed_bounds(chars: &Vec<char>, from: usize, to: usize) -> (bounds: (usize, usize))
    requires
        from <= to <= chars@.len(),
    ensures
        from <= bounds.0 <= bounds.1 <= to,
        chars@.subrange(bounds.0 as int, bounds.1 as int) == trimmed(
            chars@.subrange(from as int, to as int),
        ),
    decreases to - from,
{
    let ghost text = chars@.subrange(from as int, to as int);
    if from == to {
        (from, to)
    } else if white_space(chars[from]) {
        assert(text.skip(1) =~= chars@.subrange(from + 1, to as int));
        trimmed_bounds(chars, from + 1, to)
    } else if white_space(chars[to - 1]) {
        assert(text.drop_last() =~= chars@.subrange(from as int, to - 1));
        trimmed_bounds(chars, from, to - 1)
    } else {
        (from, to)
    }
}

/// The index of the first `mark` at or after `from`, or the length when there is none.
fn find_char(chars: &Vec<char>, from: usize, to: usize, mark: char) -> (at: usize)
    requires
        from <= to <= chars@.len(),
    ensures
        from <= at <= to,
        forall|j: int| from <= j < at ==> chars@[j] != mark,
        at < to ==> chars@[at as int] == mark,
{
    let mut i: usize = from;
    while i < to
        invariant
            from <= i <= to <= chars@.len(),
            forall|j: int| from <= j < i ==> chars@[j] != mark,
        decreases to - i,
    {
        if chars[i] == mark {
            return i;
        }
        i += 1;
    }
    to
}

/// Whether `text` starts with `prefix`.
pub open spec fn has_prefix(text: Seq<char>, prefix: Seq<char>) -> bool {
    prefix.len() <= text.len() && text.take(prefix.len() as int) == prefix
}

/// Tests whether a text starts with another.
pub fn starts_with(chars: &Vec<char>, prefix: &str) -> (yes: bool)
    ensures
        yes == has_prefix(chars@, prefix@),
{
    let head = chars_of(prefix);
    if head.len() > chars.len() {
        return false;
    }
    let mut i: usize = 0;
    while i < head.len()
        invariant
            0 <= i <= head.len() <= chars.len(),
            head@ == prefix@,
            forall|j: int| 0 <= j < i ==> chars@[j] == prefix@[j],
        decreases head.len() - i,
    {
        if chars[i] != head[i] {
            assert(chars@.take(prefix@.len() as int)[i as int] != prefix@[i as int]);
            return false;
        }
        i += 1;
    }
    assert(chars@.take(prefix@.len() as int) =~= prefix@);
    true
}

/// The arguments of a type name `DECIMAL(p)` or `DECIMAL(p,s)`: a precision from 0 to 255 and a
/// scale from -128 to 127 that defaults to 0. White space around either is skipped.
pub open spec fn decimal_args(name: Seq<char>) -> Option<(nat, int)> {
    if has_prefix(name, "DECIMAL("@) && name.len() > 8 && name.last() == ')' {
        let args = name.subrange(8, name.len() - 1);
        match args.index_of_first(',') {
            Some(comma) => match (
                unsigned_reading(trimmed(args.take(comma)), 255),
                small_signed_reading(trimmed(args.skip(comma + 1))),
            ) {
                (Some(precision), Some(scale)) => Some((precision, scale)),
                _ => None,
            },
            None => match unsigned_reading(trimmed(args), 255) {
                Some(precision) => Some((precision, 0)),
                None => None,
            },
        }
    } else {
        None
    }
}

/// Reads the arguments of a DECIMAL type name.
pub fn parse_decimal_args(name: &str) -> (args: Option<(u8, i8)>)
    ensures
        match decimal_args(name@) {
            Some((precision, scale)) => args == Some((precision as u8, scale as i8)),
            None => args is None,
        },
{
    proof {
        reveal_strlit("DECIMAL(");
    }
    let chars = chars_of(name);
    if !starts_with(&chars, "DECIMAL(") || chars.len() <= 8 || chars[chars.len() - 1] != ')' {
        return None;
    }
    let end: usize = chars.len() - 1;
    let ghost inner = chars@.subrange(8, end as int);
    let comma: usize = find_char(&chars, 8, end, ',');
    proof {
        inner.index_of_first_ensures(',');
    }
    if comma < end {
        assert(inner[comma - 8] == ',');
        assert(inner.index_of_first(',') == Some(comma - 8)) by {
            let found = inner.index_of_first(',')->0;
            assert(inner.contains(','));
            if found > comma - 8 {
                assert(inner[comma - 8] == ',');
            } else if found < comma - 8 {
                assert(chars@[found + 8] == inner[found]);
            }
        }
        assert(inner.take(comma - 8) =~= chars@.subrange(8, comma as int));
        assert(inner.skip(comma - 8 + 1) =~= chars@.subrange(comma + 1, end as int));
        let (p_from, p_to) = trimmed_bounds(&chars, 8, comma);
        let (s_from, s_to) = trimmed_bounds(&chars, comma + 1, end);
        match (
            read_unsigned(&chars, p_from, p_to, 255),
            read_small_signed(&chars, s_from, s_to),
        ) {
            (Some(precision), Some(scale)) => Some((precision as u8, scale)),
            _ => None,
        }
    } else {
        assert(!inner.contains(',')) by {
            if inner.contains(',') {
                let k = choose|k: int| 0 <= k < inner.len() && inner[k] == ',';
                assert(chars@[k + 8] == ',');
            }
        }
        let (p_from, p_to) = trimmed_bounds(&chars, 8, end);
        match read_unsigned(&chars, p_from, p_to, 255) {
            Some(precision) => Some((precision as u8, 0i8)),
            None => None,
        }
    }
}

/// The width of a type name `CHAR(n)`, whatever follows the closing parenthesis.
pub open spec fn char_type_width(name: Seq<char>) -> Option<nat> {
    if has_prefix(name, "CHAR("@) {
        let rest = name.skip(5);
        match rest.index_of_first(')') {
            Some(close) => unsigned_reading(rest.take(close), u32::MAX as nat),
            None => None,
        }
    } else {
        None
    }
}

/// Reads the digits between the parentheses of a `CHAR(n)` type name, so `CHAR(3) ASCII` still
/// yields a width; the anchored prefix never matches `VARCHAR(n)`.
pub fn char_width(declared_type: &str) -> (width: Option<u32>)
    ensures
        match char_type_width(declared_type@) {
            Some(n) => width == Some(n as u32),
            None => width is None,
        },
{
    proof {
        reveal_strlit("CHAR(");
    }
    let chars = chars_of(declared_type);
    if !starts_with(&chars, "CHAR(") {
        return None;
    }
    let end: usize = chars.len();
    let ghost rest = chars@.skip(5);
    let close: usize = find_char(&chars, 5, end, ')');
    proof {
        rest.index_of_first_ensures(')');
    }
    if close < end {
        assert(rest[close - 5] == ')');
        assert(rest.index_of_first(')') == Some(close - 5)) by {
            let found = rest.index_of_first(')')->0;
            assert(rest.contains(')'));
            if found > close - 5 {
                assert(rest[close - 5] == ')');
            } else if found < close - 5 {
                assert(chars@[found + 5] == rest[found]);
            }
        }
        assert(rest.take(close - 5) =~= chars@.subrange(5, close as int));
        read_unsigned(&chars, 5, close, u32::MAX)
    } else {
        assert(!rest.contains(')')) by {
            if rest.contains(')') {
                let k = choose|k: int| 0 <= k < rest.len() && rest[k] == ')';
                assert(chars@[k + 5] == ')');
            }
        }
        None
    }
}

/// Whether a type name is numeric: `DOUBLE PRECISION` or some `DECIMAL(..)`.
pub open spec fn numeric_type(name: Seq<char>) -> bool {
    name == "DOUBLE PRECISION"@ || has_prefix(name, "DECIMAL("@)
}

/// Tests whether a type name is numeric.
pub fn is_numeric_exasol_type(name: &str) -> (yes: bool)
    ensures
        yes == numeric_type(name@),
{
    crate::text::same_text(name, "DOUBLE PRECISION") || starts_with(
        &chars_of(name),
        "DECIMAL(",
    )
}

/// The type in which a SUM over a column of the given type is carried: decimals widen to
/// `DECIMAL(36,s)`, everything else is `DOUBLE PRECISION`.
pub open spec fn sum_type(column_type: Seq<char>) -> Seq<char> {
    match decimal_args(column_type) {
        Some((_precision, scale)) => "DECIMAL(36,"@ + crate::text::signed_decimal(scale) + ")"@,
        None => "DOUBLE PRECISION"@,
    }
}

/// Picks the type in which a SUM is carried.
pub fn sum_emit_type(column_type: &str) -> (sum: String)
    ensures
        sum@ == sum_type(column_type@),
{
    match parse_decimal_args(column_type) {
        Some((_precision, scale)) => {
            let mut sum = "DECIMAL(36,".to_string();
            sum.append(signed_number_text(scale as i64).as_str());
            sum.append(")");
            sum
        },
        None => "DOUBLE PRECISION".to_string(),
    }
}

} // verus!
