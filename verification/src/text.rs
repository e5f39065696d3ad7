//! Text building blocks: joining, quoting, number texts, ASCII folding and the
//! integer readings that type names carry.

use vstd::prelude::*;

verus! {

/// `String::push` appends one character to the end of the text and changes nothing else.
pub assume_specification[ String::push ](text: &mut String, ch: char)
    ensures
        final(text)@ == old(text)@.push(ch),
;

/// What `str::to_uppercase` makes of a text: the Unicode uppercase mapping of its characters.
pub uninterp spec fn unicode_upper(text: Seq<char>) -> Seq<char>;

/// Calls `str::to_uppercase`, whose result depends on the text alone. The Unicode mapping of an
/// ASCII text is its ASCII uppercase; what it makes of other texts is left to its name.
#[verifier::external_body]
fn unicode_uppercase(text: &str) -> (upper: String)
    ensures
        upper@ == unicode_upper(text@),
        all_ascii(text@) ==> upper@ == ascii_upper(text@),
{
    text.to_uppercase()
}

/// Whether a text holds ASCII characters only.
pub open spec fn all_ascii(text: Seq<char>) -> bool {
    forall|i: int| 0 <= i < text.len() ==> (#[trigger] text[i]) as nat <= 127
}

/// The uppercase of a text: that of its ASCII letters where it holds ASCII characters only, and the
/// Unicode mapping otherwise.
pub open spec fn uppercase(text: Seq<char>) -> Seq<char> {
    if all_ascii(text) {
        ascii_upper(text)
    } else {
        unicode_upper(text)
    }
}

/// Folds a text to uppercase.
pub fn to_uppercase(text: &str) -> (upper: String)
    ensures
        upper@ == uppercase(text@),
{
    unicode_uppercase(text)
}

/// Whether two texts hold the same characters.
pub fn same_text(a: &str, b: &str) -> (same: bool)
    ensures
        same == (a@ == b@),
{
    a.to_string() == b.to_string()
}

/// The characters of a text.
pub fn chars_of(text: &str) -> (chars: Vec<char>)
    ensures
        chars@ == text@,
{
    let mut chars: Vec<char> = Vec::new();
    for c in it: text.chars()
        invariant
            chars@ == it.seq().take(it.index() as int),
            it.seq() == text@,
    {
        chars.push(c);
    }
    assert(chars@ =~= text@);
    chars
}

/// The parts in order with `separator` between neighbours.
pub open spec fn joined(parts: Seq<Seq<char>>, separator: Seq<char>) -> Seq<char>
    decreases parts.len(),
{
    if parts.len() == 0 {
        Seq::empty()
    } else if parts.len() == 1 {
        parts[0]
    } else {
        joined(parts.drop_last(), separator) + separator + parts.last()
    }
}

/// Joins texts with a separator.
pub fn join(parts: &Vec<String>, separator: &str) -> (text: String)
    ensures
        text@ == joined(parts.deep_view(), separator@),
{
    let ghost views = parts.deep_view();
    if parts.len() == 0 {
        return String::new();
    }
    let mut text = parts[0].clone();
    let mut i: usize = 1;
    assert(views.take(1) =~= seq![parts@[0]@]);
    while i < parts.len()
        invariant
            1 <= i <= parts.len(),
            views == parts.deep_view(),
            text@ == joined(views.take(i as int), separator@),
        decreases parts.len() - i,
    {
        text.append(separator);
        text.append(parts[i].as_str());
        assert(views.take(i + 1).drop_last() =~= views.take(i as int));
        i += 1;
    }
    assert(views.take(i as int) =~= views);
    text
}

/// `text` with every occurrence of `mark` written twice.
pub open spec fn doubled(text: Seq<char>, mark: char) -> Seq<char>
    decreases text.len(),
{
    if text.len() == 0 {
        Seq::empty()
    } else if text.last() == mark {
        doubled(text.drop_last(), mark).push(mark).push(mark)
    } else {
        doubled(text.drop_last(), mark).push(text.last())
    }
}

/// A delimited SQL identifier: the name between double quotes, its own double quotes doubled.
pub open spec fn quoted(name: Seq<char>) -> Seq<char> {
    doubled(name, '"').insert(0, '"').push('"')
}

/// Renders a delimited SQL identifier.
pub fn quote_ident(name: &str) -> (sql: String)
    ensures
        sql@ == quoted(name@),
{
    let chars = chars_of(name);
    let mut sql = String::new();
    sql.push('"');
    let mut i: usize = 0;
    assert(sql@ =~= doubled(chars@.take(0), '"').insert(0, '"'));
    while i < chars.len()
        invariant
            0 <= i <= chars.len(),
            sql@ == doubled(chars@.take(i as int), '"').insert(0, '"'),
        decreases chars.len() - i,
    {
        assert(chars@.take(i + 1).drop_last() =~= chars@.take(i as int));
        let ghost done = doubled(chars@.take(i as int), '"');
        let c = chars[i];
        sql.push(c);
        assert(sql@ =~= done.push(c).insert(0, '"'));
        if c == '"' {
            sql.push('"');
            assert(sql@ =~= done.push(c).push('"').insert(0, '"'));
        }
        i += 1;
    }
    assert(chars@.take(i as int) =~= name@);
    sql.push('"');
    sql
}

/// The decimal digit of a value below ten.
pub open spec fn digit_char(value: nat) -> char {
    (48 + value) as char
}

/// The decimal digits of a number, without leading zeros.
pub open spec fn decimal(value: nat) -> Seq<char>
    decreases value,
{
    if value < 10 {
        seq![digit_char(value)]
    } else {
        decimal(value / 10).push(digit_char(value % 10))
    }
}

/// The decimal text of a signed number.
pub open spec fn signed_decimal(value: int) -> Seq<char> {
    if value < 0 {
        decimal((-value) as nat).insert(0, '-')
    } else {
        decimal(value as nat)
    }
}

/// Renders a number in decimal.
pub fn number_text(value: u64) -> (text: String)
    ensures
        text@ == decimal(value as nat),
    decreases value,
{
    let mut text = if value < 10 {
        String::new()
    } else {
        number_text(value / 10)
    };
    text.push((48u8 + (value % 10) as u8) as char);
    assert(text@ =~= decimal(value as nat));
    text
}

/// Renders a signed number in decimal.
pub fn signed_number_text(value: i64) -> (text: String)
    ensures
        text@ == signed_decimal(value as int),
{
    if value < 0 {
        let mut text = String::new();
        text.push('-');
        let magnitude: i128 = -(value as i128);
        text.append(number_text(magnitude as u64).as_str());
        assert(text@ =~= signed_decimal(value as int));
        text
    } else {
        number_text(value as u64)
    }
}

/// ASCII uppercase of one character; every other character stays.
pub open spec fn ascii_upper_char(c: char) -> char {
    if 'a' <= c <= 'z' {
        (c as int - 32) as char
    } else {
        c
    }
}

/// ASCII uppercase of a text.
pub open spec fn ascii_upper(text: Seq<char>) -> Seq<char> {
    text.map_values(|c: char| ascii_upper_char(c))
}

fn upper_char(c: char) -> (upper: char)
    ensures
        upper == ascii_upper_char(c),
{
    if 'a' <= c && c <= 'z' {
        ((c as u8) - 32) as char
    } else {
        c
    }
}

/// Folds ASCII letters to uppercase and leaves every other character as it is.
pub fn to_ascii_uppercase(text: &str) -> (upper: String)
    ensures
        upper@ == ascii_upper(text@),
{
    let chars = chars_of(text);
    let mut upper = String::new();
    let mut i: usize = 0;
    while i < chars.len()
        invariant
            0 <= i <= chars.len(),
            upper@ == ascii_upper(chars@.take(i as int)),
        decreases chars.len() - i,
    {
        upper.push(upper_char(chars[i]));
        i += 1;
        assert(upper@ =~= ascii_upper(chars@.take(i as int)));
    }
    assert(chars@.take(i as int) =~= text@);
    upper
}

/// Whether two texts agree up to the case of ASCII letters.
pub open spec fn ascii_same(a: Seq<char>, b: Seq<char>) -> bool {
    ascii_upper(a) == ascii_upper(b)
}

/// Compares two texts up to the case of ASCII letters.
pub fn eq_ignore_ascii_case(a: &str, b: &str) -> (same: bool)
    ensures
        same == ascii_same(a@, b@),
{
    let left = to_ascii_uppercase(a);
    let right = to_ascii_uppercase(b);
    same_text(left.as_str(), right.as_str())
}

} // verus!
