//! Sort keys, limits and offsets.

use crate::json::{Json, JsonV};
use crate::text::{decimal, join, joined, number_text, quoted, quote_ident};
use vstd::prelude::*;

verus! {

/// A column to sort by.
#[derive(Debug, PartialEq, Eq)]
pub struct SortKey {
    pub column: String,
    pub ascending: bool,
    pub nulls_last: bool,
}

impl Clone for SortKey {
    fn clone(&self) -> (copy: SortKey)
        ensures
            copy == *self,
    {
        SortKey {
            column: self.column.clone(),
            ascending: self.ascending,
            nulls_last: self.nulls_last,
        }
    }
}

/// The value of a [`SortKey`].
#[verifier::ext_equal]
pub struct SortKeyV {
    pub column: Seq<char>,
    pub ascending: bool,
    pub nulls_last: bool,
}

impl DeepView for SortKey {
    type V = SortKeyV;

    open spec fn deep_view(&self) -> SortKeyV {
        SortKeyV {
            column: self.column@,
            ascending: self.ascending,
            nulls_last: self.nulls_last,
        }
    }
}

/// What a result is sorted by: a column, or the rendered text of an expression.
#[derive(Debug, PartialEq, Eq)]
pub enum ParsedSortKey {
    Column(SortKey),
    Expression { expr: String, ascending: bool, nulls_last: bool },
}

/// The value of a [`ParsedSortKey`].
#[verifier::ext_equal]
pub enum ParsedSortKeyV {
    Column(SortKeyV),
    Expression { expr: Seq<char>, ascending: bool, nulls_last: bool },
}

impl DeepView for ParsedSortKey {
    type V = ParsedSortKeyV;

    open spec fn deep_view(&self) -> ParsedSortKeyV {
        match self {
            ParsedSortKey::Column(key) => ParsedSortKeyV::Column(key.deep_view()),
            ParsedSortKey::Expression { expr, ascending, nulls_last } => {
                ParsedSortKeyV::Expression {
                    expr: expr@,
                    ascending: *ascending,
                    nulls_last: *nulls_last,
                }
            },
        }
    }
}

/// The direction and null placement of an `orderBy` element; both have to be stated.
pub open spec fn sort_flags(element: JsonV) -> Option<(bool, bool)> {
    match (element.bool_field("isAscending"@), element.bool_field("nullsLast"@)) {
        (Some(ascending), Some(nulls_last)) => Some((ascending, nulls_last)),
        _ => None,
    }
}

/// Reads the direction and null placement of an `orderBy` element.
pub fn parse_sort_flags(element: &Json) -> (flags: Option<(bool, bool)>)
    ensures
        flags == sort_flags(element@),
{
    match (element.get_bool("isAscending"), element.get_bool("nullsLast")) {
        (Some(ascending), Some(nulls_last)) => Some((ascending, nulls_last)),
        _ => None,
    }
}

/// The sort key of an `orderBy` element that sorts by a bare column.
pub open spec fn sort_key(element: JsonV) -> Option<SortKeyV> {
    match (sort_flags(element), element.field("expression"@)) {
        (Some((ascending, nulls_last)), Some(expression)) => if expression.is_kind("column"@) {
            match expression.text_field("name"@) {
                Some(column) => Some(SortKeyV { column, ascending, nulls_last }),
                None => None,
            }
        } else {
            None
        },
        _ => None,
    }
}

/// Reads an `orderBy` element that sorts by a bare column.
pub fn parse_sort_key_element(element: &Json) -> (key: Option<SortKey>)
    ensures
        key.deep_view() == sort_key(element@),
{
    match (parse_sort_flags(element), element.get("expression")) {
        (Some((ascending, nulls_last)), Some(expression)) => if expression.is_kind("column") {
            match expression.get_str("name") {
                Some(column) => Some(
                    SortKey { column: column.to_string(), ascending, nulls_last },
                ),
                None => None,
            }
        } else {
            None
        },
        _ => None,
    }
}

/// An `ORDER BY` element with its direction and null placement written out.
pub open spec fn ordered(expr: Seq<char>, ascending: bool, nulls_last: bool) -> Seq<char> {
    expr + (if ascending {
        " ASC"@
    } else {
        " DESC"@
    }) + (if nulls_last {
        " NULLS LAST"@
    } else {
        " NULLS FIRST"@
    })
}

/// Renders an `ORDER BY` element.
pub fn render_ordered(expr: &str, ascending: bool, nulls_last: bool) -> (sql: String)
    ensures
        sql@ == ordered(expr@, ascending, nulls_last),
{
    let mut sql = expr.to_string();
    if ascending {
        sql.append(" ASC");
    } else {
        sql.append(" DESC");
    }
    if nulls_last {
        sql.append(" NULLS LAST");
    } else {
        sql.append(" NULLS FIRST");
    }
    sql
}

/// The rows a request asks for at most.
pub open spec fn limit_of(request: JsonV) -> Option<u64> {
    match request.field("limit"@) {
        Some(limit) => limit.unsigned_field("numElements"@),
        None => None,
    }
}

/// The rows a request asks to skip.
pub open spec fn offset_of(request: JsonV) -> u64 {
    match request.field("limit"@) {
        Some(limit) => match limit.unsigned_field("offset"@) {
            Some(offset) => offset,
            None => 0,
        },
        None => 0,
    }
}

/// Reads the rows a request asks for at most.
pub fn extract_limit(request: &Json) -> (limit: Option<u64>)
    ensures
        limit == limit_of(request@),
{
    match request.get("limit") {
        Some(limit) => limit.get_u64("numElements"),
        None => None,
    }
}

/// Reads the rows a request asks to skip.
pub fn extract_offset(request: &Json) -> (offset: u64)
    ensures
        offset == offset_of(request@),
{
    match request.get("limit") {
        Some(limit) => match limit.get_u64("offset") {
            Some(offset) => offset,
            None => 0,
        },
        None => 0,
    }
}

/// The window clause: nothing without a limit, and no `OFFSET` for an offset of zero.
pub open spec fn limit_offset(limit: Option<u64>, offset: u64) -> Seq<char> {
    match limit {
        Some(rows) => if offset == 0 {
            " LIMIT "@ + decimal(rows as nat)
        } else {
            " LIMIT "@ + decimal(rows as nat) + " OFFSET "@ + decimal(offset as nat)
        },
        None => Seq::empty(),
    }
}

/// Renders the window clause.
pub fn render_limit_offset(limit: Option<u64>, offset: u64) -> (sql: String)
    ensures
        sql@ == limit_offset(limit, offset),
{
    match limit {
        Some(rows) => {
            let mut sql = " LIMIT ".to_string();
            sql.append(number_text(rows).as_str());
            if offset != 0 {
                sql.append(" OFFSET ");
                sql.append(number_text(offset).as_str());
            }
            sql
        },
        None => String::new(),
    }
}

/// An `ORDER BY` element for a sort key.
pub open spec fn ordered_key(key: ParsedSortKeyV) -> Seq<char> {
    match key {
        ParsedSortKeyV::Column(column) => ordered(
            quoted(column.column),
            column.ascending,
            column.nulls_last,
        ),
        ParsedSortKeyV::Expression { expr, ascending, nulls_last } => ordered(
            expr,
            ascending,
            nulls_last,
        ),
    }
}

/// The elements of an `ORDER BY` for sort keys.
pub open spec fn ordered_keys(keys: Seq<ParsedSortKeyV>) -> Seq<Seq<char>> {
    keys.map_values(|key: ParsedSortKeyV| ordered_key(key))
}

/// A query that sorts and windows the rows of `fan_out` and names only the visible columns; the
/// bare `fan_out` when there is nothing to sort by.
pub open spec fn ordered_wrapper(
    fan_out: Seq<char>,
    visible: Seq<Seq<char>>,
    keys: Seq<ParsedSortKeyV>,
    limit: Option<u64>,
    offset: u64,
) -> Seq<char> {
    if keys.len() == 0 {
        fan_out
    } else {
        "SELECT "@ + joined(visible, ", "@) + " FROM ("@ + fan_out + ") ORDER BY "@ + joined(
            ordered_keys(keys),
            ", "@,
        ) + limit_offset(limit, offset)
    }
}

/// Wraps a query so that its rows are sorted and windowed.
pub fn wrap_declined_order_by(
    fan_out: &str,
    visible: &Vec<String>,
    keys: &Vec<ParsedSortKey>,
    limit: Option<u64>,
    offset: u64,
) -> (sql: String)
    ensures
        sql@ == ordered_wrapper(fan_out@, visible.deep_view(), keys.deep_view(), limit, offset),
{
    if keys.len() == 0 {
        return fan_out.to_string();
    }
    let ghost views = keys.deep_view();
    let mut elements: Vec<String> = Vec::new();
    let mut i: usize = 0;
    while i < keys.len()
        invariant
            0 <= i <= keys.len(),
            views == keys.deep_view(),
            elements.deep_view() =~= ordered_keys(views).take(i as int),
        decreases keys.len() - i,
    {
        let ghost before = elements.deep_view();
        let element = match &keys[i] {
            ParsedSortKey::Column(key) => render_ordered(
                quote_ident(key.column.as_str()).as_str(),
                key.ascending,
                key.nulls_last,
            ),
            ParsedSortKey::Expression { expr, ascending, nulls_last } => render_ordered(
                expr.as_str(),
                *ascending,
                *nulls_last,
            ),
        };
        assert(element@ == ordered_key(views[i as int]));
        elements.push(element);
        assert(elements.deep_view() =~= before.push(element@));
        i += 1;
    }
    assert(elements.deep_view() =~= ordered_keys(views));
    let mut sql = "SELECT ".to_string();
    sql.append(join(visible, ", ").as_str());
    sql.append(" FROM (");
    sql.append(fan_out);
    sql.append(") ORDER BY ");
    sql.append(join(&elements, ", ").as_str());
    sql.append(render_limit_offset(limit, offset).as_str());
    sql
}

} // verus!
