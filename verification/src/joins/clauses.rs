//! The clauses of the query over the legs of a join, rendered with every column qualified by its
//! leg.

use crate::error::{outcome, UserError};
use crate::handed::{callable, computes};
use crate::joins::attribution::{leg_alias_text, JoinLegs, JoinLegsV, UnattributableColumn,
    UnattributableColumnV};
use crate::joins::rendering::{render_qualified, rendered_qualified};
use crate::json::{group_json_views, Json, JsonV};
use crate::json_text::{json_text, write_json};
use crate::ordering::{extract_limit, extract_offset, limit_of, limit_offset, offset_of, ordered,
    parse_sort_flags, render_limit_offset, render_ordered, sort_flags};
use crate::scan::{item_sql, projection_item_select_sql, ColumnType, ColumnTypeV, ProjectionItem,
    ProjectionItemV};
use crate::text::{join, joined, quote_ident, quoted};
use vstd::prelude::*;

verus! {

broadcast use group_json_views;

/// A function that renders a tree, or declines it.
pub type Renderer = spec_fn(JsonV) -> Option<Seq<char>>;

/// The message of a request that is declined for good.
pub open spec fn decline_text(clause: Seq<char>) -> Seq<char> {
    "join pushdown declined: "@ + clause + "; this is a hard error, not a native re-plan"@
}

/// Declines a request for good.
pub fn join_render_decline(clause: &str) -> (error: UserError)
    ensures
        error@ == decline_text(clause@),
{
    let mut message = "join pushdown declined: ".to_string();
    message.append(clause);
    message.append("; this is a hard error, not a native re-plan");
    UserError { message }
}

/// The message for a column that could belong to several legs.
pub open spec fn unattributable_text(column: UnattributableColumnV) -> Seq<char> {
    decline_text(
        column.description()
            + " could not be attributed to a join leg, so no correct qualified reference exists"@,
    )
}

/// Declines a request that holds a column which could belong to several legs. Picking one of them
/// would return wrong rows.
pub fn unattributable_decline(column: UnattributableColumn) -> (error: UserError)
    ensures
        error@ == unattributable_text(column@),
{
    let mut clause = column.describe();
    clause.append(
        " could not be attributed to a join leg, so no correct qualified reference exists",
    );
    join_render_decline(clause.as_str())
}

/// The qualified text of a tree; the decline `what` when it has none.
pub open spec fn clause_sql(
    node: JsonV,
    legs: JoinLegsV,
    render: Renderer,
    what: Seq<char>,
) -> Result<Seq<char>, Seq<char>> {
    match rendered_qualified(node, legs, render) {
        Ok(Some(sql)) => Ok(sql),
        Ok(None) => Err(decline_text(what)),
        Err(column) => Err(unattributable_text(column)),
    }
}

/// Renders a tree qualified, or declines the request with `what`.
pub fn render_clause<E: Fn(&Json) -> Option<String>>(
    node: &Json,
    legs: &JoinLegs,
    expression: &E,
    what: &str,
) -> (sql: Result<String, UserError>)
    requires
        callable(*expression),
    ensures
        forall|g: Renderer| #[trigger]
            computes(*expression, g) ==> outcome(sql) == clause_sql(node@, legs@, g, what@),
{
    match render_qualified(node, legs, expression) {
        Ok(Some(sql)) => Ok(sql),
        Ok(None) => Err(join_render_decline(what)),
        Err(column) => Err(unattributable_decline(column)),
    }
}

/// The qualified texts of trees, or the error of the first that has none.
pub open spec fn clauses_sql(
    nodes: Seq<JsonV>,
    legs: JoinLegsV,
    render: Renderer,
    what: Seq<char>,
) -> Result<Seq<Seq<char>>, Seq<char>>
    decreases nodes.len(),
{
    if nodes.len() == 0 {
        Ok(Seq::empty())
    } else {
        match clauses_sql(nodes.drop_last(), legs, render, what) {
            Ok(texts) => match clause_sql(nodes.last(), legs, render, what) {
                Ok(sql) => Ok(texts.push(sql)),
                Err(message) => Err(message),
            },
            Err(message) => Err(message),
        }
    }
}

proof fn lemma_clauses_error(
    nodes: Seq<JsonV>,
    legs: JoinLegsV,
    render: Renderer,
    what: Seq<char>,
    n: int,
)
    requires
        0 <= n <= nodes.len(),
        clauses_sql(nodes.take(n), legs, render, what) is Err,
    ensures
        clauses_sql(nodes, legs, render, what) == clauses_sql(nodes.take(n), legs, render, what),
    decreases nodes.len() - n,
{
    if n == nodes.len() {
        assert(nodes.take(n) =~= nodes);
    } else {
        assert(nodes.take(n + 1).drop_last() =~= nodes.take(n));
        lemma_clauses_error(nodes, legs, render, what, n + 1);
    }
}

/// Renders trees qualified, or declines the request for the first that has no rendering.
pub fn render_clauses<E: Fn(&Json) -> Option<String>>(
    nodes: &Vec<Json>,
    legs: &JoinLegs,
    expression: &E,
    what: &str,
) -> (texts: Result<Vec<String>, UserError>)
    requires
        callable(*expression),
    ensures
        texts matches Ok(rendered) ==> rendered@.len() == nodes@.len(),
        forall|g: Renderer| #[trigger]
            computes(*expression, g) ==> outcome(texts) == clauses_sql(
                nodes.deep_view(),
                legs@,
                g,
                what@,
            ),
{
    let ghost views = nodes.deep_view();
    let mut texts: Vec<String> = Vec::new();
    let mut i: usize = 0;
    assert(texts.deep_view() =~= Seq::empty());
    while i < nodes.len()
        invariant
            0 <= i <= nodes.len(),
            views == nodes.deep_view(),
            texts@.len() == i,
            callable(*expression),
            forall|g: Renderer| #[trigger]
                computes(*expression, g) ==> clauses_sql(views.take(i as int), legs@, g, what@)
                    == Ok::<Seq<Seq<char>>, Seq<char>>(texts.deep_view()),
        decreases nodes.len() - i,
    {
        assert(views.take(i + 1).drop_last() =~= views.take(i as int));
        let ghost before = texts.deep_view();
        match render_clause(&nodes[i], legs, expression, what) {
            Ok(sql) => {
                texts.push(sql);
                assert(texts.deep_view() =~= before.push(sql@));
            },
            Err(error) => {
                proof {
                    assert forall|g: Renderer| #[trigger] computes(
                        *expression,
                        g,
                    ) implies clauses_sql(views, legs@, g, what@) == Err::<
                        Seq<Seq<char>>,
                        Seq<char>,
                    >(error@) by {
                        lemma_clauses_error(views, legs@, g, what@, i + 1);
                    }
                }
                return Err(error);
            },
        }
        i += 1;
    }
    assert(views.take(i as int) =~= views);
    Ok(texts)
}

/// The qualified reference to a column of a leg.
pub open spec fn leg_column_sql(leg: usize, name: Seq<char>) -> Seq<char> {
    quoted(leg_alias_text(leg)) + "."@ + quoted(name)
}

/// Every column of one leg, qualified.
pub open spec fn leg_row_items(leg: usize, columns: Seq<ColumnTypeV>) -> Seq<ProjectionItemV> {
    columns.map_values(
        |column: ColumnTypeV| ProjectionItemV::Expr { expr: leg_column_sql(leg, column.0) },
    )
}

/// Every column of every leg, qualified.
pub open spec fn full_row_items(cols_per_leg: Seq<Seq<ColumnTypeV>>) -> Seq<ProjectionItemV>
    decreases cols_per_leg.len(),
{
    if cols_per_leg.len() == 0 {
        Seq::empty()
    } else {
        full_row_items(cols_per_leg.drop_last()) + leg_row_items(
            (cols_per_leg.len() - 1) as usize,
            cols_per_leg.last(),
        )
    }
}

/// Projects every column of every leg, qualified.
pub fn n_full_row_qualified_items(
    legs: &JoinLegs,
    cols_per_leg: &Vec<Vec<ColumnType>>,
) -> (items: Vec<ProjectionItem>)
    ensures
        items.deep_view() == full_row_items(cols_per_leg.deep_view()),
{
    let ghost views = cols_per_leg.deep_view();
    let mut items: Vec<ProjectionItem> = Vec::new();
    let mut leg: usize = 0;
    assert(items.deep_view() =~= full_row_items(views.take(0)));
    while leg < cols_per_leg.len()
        invariant
            0 <= leg <= cols_per_leg.len(),
            views == cols_per_leg.deep_view(),
            items.deep_view() == full_row_items(views.take(leg as int)),
        decreases cols_per_leg.len() - leg,
    {
        assert(views.take(leg + 1).drop_last() =~= views.take(leg as int));
        let alias = quote_ident(legs.leg_alias(leg).as_str());
        let ghost start = items.deep_view();
        let ghost row = leg_row_items(leg, views[leg as int]);
        let mut i: usize = 0;
        assert(items.deep_view() =~= start + row.take(0));
        while i < cols_per_leg[leg as usize].len()
            invariant
                leg < cols_per_leg.len(),
                views == cols_per_leg.deep_view(),
                0 <= i <= cols_per_leg@[leg as int].len(),
                alias@ == quoted(leg_alias_text(leg)),
                row == leg_row_items(leg, views[leg as int]),
                items.deep_view() == start + row.take(i as int),
            decreases cols_per_leg@[leg as int].len() - i,
        {
            let mut expr = alias.clone();
            expr.append(".");
            expr.append(quote_ident(cols_per_leg[leg][i].0.as_str()).as_str());
            let ghost before = items.deep_view();
            let item = ProjectionItem::Expr { expr };
            items.push(item);
            assert(items.deep_view() =~= before.push(item.deep_view()));
            assert(cols_per_leg@[leg as int].deep_view() == views[leg as int]);
            assert(item.deep_view() == row[i as int]);
            assert(items.deep_view() =~= start + row.take(i + 1));
            i += 1;
        }
        assert(row.take(i as int) =~= row);
        leg += 1;
    }
    assert(views.take(leg as int) =~= views);
    items
}

/// The decline for a select-list item.
pub open spec fn select_decline() -> Seq<char> {
    "a select-list item could not be rendered for the qualified N-scan join"@
}

/// Rendered texts as projection items.
pub open spec fn expr_items(texts: Seq<Seq<char>>) -> Seq<ProjectionItemV> {
    texts.map_values(|sql: Seq<char>| ProjectionItemV::Expr { expr: sql })
}

/// What the query over the legs selects: the rendered select list, or every column of every leg
/// when there is none.
pub open spec fn select_items(
    pushdown_req: JsonV,
    legs: JoinLegsV,
    cols_per_leg: Seq<Seq<ColumnTypeV>>,
    render: Renderer,
) -> Result<Seq<ProjectionItemV>, Seq<char>> {
    match pushdown_req.nonempty_items_field("selectList"@) {
        Some(list) => match clauses_sql(list, legs, render, select_decline()) {
            Ok(texts) => Ok(expr_items(texts)),
            Err(message) => Err(message),
        },
        None => Ok(full_row_items(cols_per_leg)),
    }
}

/// Renders what the query over the legs selects.
pub fn n_scan_join_select_items<E: Fn(&Json) -> Option<String>>(
    pushdown_req: &Json,
    legs: &JoinLegs,
    cols_per_leg: &Vec<Vec<ColumnType>>,
    expression: &E,
) -> (items: Result<Vec<ProjectionItem>, UserError>)
    requires
        callable(*expression),
    ensures
        forall|g: Renderer| #[trigger]
            computes(*expression, g) ==> outcome(items) == select_items(
                pushdown_req@,
                legs@,
                cols_per_leg.deep_view(),
                g,
            ),
{
    match pushdown_req.get_nonempty_array("selectList") {
        Some(list) => match render_clauses(
            list,
            legs,
            expression,
            "a select-list item could not be rendered for the qualified N-scan join",
        ) {
            Ok(texts) => {
                let ghost views = texts.deep_view();
                let mut items: Vec<ProjectionItem> = Vec::new();
                let mut i: usize = 0;
                while i < texts.len()
                    invariant
                        0 <= i <= texts.len(),
                        views == texts.deep_view(),
                        items.deep_view() =~= expr_items(views).take(i as int),
                    decreases texts.len() - i,
                {
                    let ghost before = items.deep_view();
                    let item = ProjectionItem::Expr { expr: texts[i].clone() };
                    items.push(item);
                    assert(items.deep_view() =~= before.push(item.deep_view()));
                    i += 1;
                }
                assert(items.deep_view() =~= expr_items(views));
                Ok(items)
            },
            Err(error) => Err(error),
        },
        None => Ok(n_full_row_qualified_items(legs, cols_per_leg)),
    }
}

/// The decline for a group key.
pub open spec fn group_by_decline() -> Seq<char> {
    "a GROUP BY key could not be rendered for the qualified N-scan join"@
}

/// The group keys of a request, if it has any.
pub open spec fn group_by_sql(pushdown_req: JsonV, legs: JoinLegsV, render: Renderer) -> Result<
    Option<Seq<char>>,
    Seq<char>,
> {
    match pushdown_req.nonempty_items_field("groupBy"@) {
        Some(keys) => match clauses_sql(keys, legs, render, group_by_decline()) {
            Ok(texts) => Ok(Some(joined(texts, ", "@))),
            Err(message) => Err(message),
        },
        None => Ok(None),
    }
}

/// Renders the group keys of a request, if it has any.
pub fn qualified_join_group_by<E: Fn(&Json) -> Option<String>>(
    pushdown_req: &Json,
    legs: &JoinLegs,
    expression: &E,
) -> (sql: Result<Option<String>, UserError>)
    requires
        callable(*expression),
    ensures
        forall|g: Renderer| #[trigger]
            computes(*expression, g) ==> outcome(sql) == group_by_sql(pushdown_req@, legs@, g),
{
    match pushdown_req.get_nonempty_array("groupBy") {
        Some(keys) => match render_clauses(
            keys,
            legs,
            expression,
            "a GROUP BY key could not be rendered for the qualified N-scan join",
        ) {
            Ok(texts) => Ok(Some(join(&texts, ", "))),
            Err(error) => Err(error),
        },
        None => Ok(None),
    }
}

/// The decline for a `HAVING`.
pub open spec fn having_decline() -> Seq<char> {
    "HAVING could not be rendered for the qualified N-scan join"@
}

/// The `HAVING` of a request, if it has one.
pub open spec fn having_sql(pushdown_req: JsonV, legs: JoinLegsV, render: Renderer) -> Result<
    Option<Seq<char>>,
    Seq<char>,
> {
    match pushdown_req.present_field("having"@) {
        Some(having) => match clause_sql(having, legs, render, having_decline()) {
            Ok(sql) => Ok(Some(sql)),
            Err(message) => Err(message),
        },
        None => Ok(None),
    }
}

/// Renders the `HAVING` of a request, if it has one.
pub fn qualified_join_having<E: Fn(&Json) -> Option<String>>(
    pushdown_req: &Json,
    legs: &JoinLegs,
    expression: &E,
) -> (sql: Result<Option<String>, UserError>)
    requires
        callable(*expression),
    ensures
        forall|g: Renderer| #[trigger]
            computes(*expression, g) ==> outcome(sql) == having_sql(pushdown_req@, legs@, g),
{
    match pushdown_req.get_present("having") {
        Some(having) => match render_clause(
            having,
            legs,
            expression,
            "HAVING could not be rendered for the qualified N-scan join",
        ) {
            Ok(sql) => Ok(Some(sql)),
            Err(error) => Err(error),
        },
        None => Ok(None),
    }
}

/// The decline for a sort key.
pub open spec fn order_by_decline() -> Seq<char> {
    "an ORDER BY key could not be rendered for the qualified N-scan join"@
}

/// One sort key with its direction and null placement.
pub open spec fn order_element_sql(element: JsonV, legs: JoinLegsV, render: Renderer) -> Result<
    Seq<char>,
    Seq<char>,
> {
    match (sort_flags(element), element.field("expression"@)) {
        (Some((ascending, nulls_last)), Some(expression)) => match clause_sql(
            expression,
            legs,
            render,
            order_by_decline(),
        ) {
            Ok(sql) => Ok(ordered(sql, ascending, nulls_last)),
            Err(message) => Err(message),
        },
        _ => Err(decline_text(order_by_decline())),
    }
}

/// Sort keys with their directions and null placements, or the error of the first that has none.
pub open spec fn order_elements_sql(
    elements: Seq<JsonV>,
    legs: JoinLegsV,
    render: Renderer,
) -> Result<Seq<Seq<char>>, Seq<char>>
    decreases elements.len(),
{
    if elements.len() == 0 {
        Ok(Seq::empty())
    } else {
        match order_elements_sql(elements.drop_last(), legs, render) {
            Ok(texts) => match order_element_sql(elements.last(), legs, render) {
                Ok(sql) => Ok(texts.push(sql)),
                Err(message) => Err(message),
            },
            Err(message) => Err(message),
        }
    }
}

proof fn lemma_order_error(elements: Seq<JsonV>, legs: JoinLegsV, render: Renderer, n: int)
    requires
        0 <= n <= elements.len(),
        order_elements_sql(elements.take(n), legs, render) is Err,
    ensures
        order_elements_sql(elements, legs, render) == order_elements_sql(
            elements.take(n),
            legs,
            render,
        ),
    decreases elements.len() - n,
{
    if n == elements.len() {
        assert(elements.take(n) =~= elements);
    } else {
        assert(elements.take(n + 1).drop_last() =~= elements.take(n));
        lemma_order_error(elements, legs, render, n + 1);
    }
}

/// The sort order of a request, if it has one.
pub open spec fn order_by_sql(pushdown_req: JsonV, legs: JoinLegsV, render: Renderer) -> Result<
    Option<Seq<char>>,
    Seq<char>,
> {
    match pushdown_req.nonempty_items_field("orderBy"@) {
        Some(elements) => match order_elements_sql(elements, legs, render) {
            Ok(texts) => Ok(Some(joined(texts, ", "@))),
            Err(message) => Err(message),
        },
        None => Ok(None),
    }
}

fn render_order_element<E: Fn(&Json) -> Option<String>>(
    element: &Json,
    legs: &JoinLegs,
    expression: &E,
) -> (sql: Result<String, UserError>)
    requires
        callable(*expression),
    ensures
        forall|g: Renderer| #[trigger]
            computes(*expression, g) ==> outcome(sql) == order_element_sql(element@, legs@, g),
{
    match (parse_sort_flags(element), element.get("expression")) {
        (Some((ascending, nulls_last)), Some(expr)) => match render_clause(
            expr,
            legs,
            expression,
            "an ORDER BY key could not be rendered for the qualified N-scan join",
        ) {
            Ok(sql) => Ok(render_ordered(sql.as_str(), ascending, nulls_last)),
            Err(error) => Err(error),
        },
        _ => Err(
            join_render_decline(
                "an ORDER BY key could not be rendered for the qualified N-scan join",
            ),
        ),
    }
}

/// Renders the sort order of a request, if it has one.
pub fn qualified_join_order_by<E: Fn(&Json) -> Option<String>>(
    pushdown_req: &Json,
    legs: &JoinLegs,
    expression: &E,
) -> (sql: Result<Option<String>, UserError>)
    requires
        callable(*expression),
    ensures
        forall|g: Renderer| #[trigger]
            computes(*expression, g) ==> outcome(sql) == order_by_sql(pushdown_req@, legs@, g),
{
    let elements = match pushdown_req.get_nonempty_array("orderBy") {
        Some(elements) => elements,
        None => {
            return Ok(None);
        },
    };
    let ghost views = elements.deep_view();
    let mut texts: Vec<String> = Vec::new();
    let mut i: usize = 0;
    assert(texts.deep_view() =~= Seq::empty());
    while i < elements.len()
        invariant
            0 <= i <= elements.len(),
            views == elements.deep_view(),
            pushdown_req@.nonempty_items_field("orderBy"@) == Some(views),
            callable(*expression),
            forall|g: Renderer| #[trigger]
                computes(*expression, g) ==> order_elements_sql(views.take(i as int), legs@, g)
                    == Ok::<Seq<Seq<char>>, Seq<char>>(texts.deep_view()),
        decreases elements.len() - i,
    {
        assert(views.take(i + 1).drop_last() =~= views.take(i as int));
        let ghost before = texts.deep_view();
        match render_order_element(&elements[i], legs, expression) {
            Ok(sql) => {
                texts.push(sql);
                assert(texts.deep_view() =~= before.push(sql@));
            },
            Err(error) => {
                proof {
                    assert forall|g: Renderer| #[trigger] computes(
                        *expression,
                        g,
                    ) implies order_elements_sql(views, legs@, g) == Err::<
                        Seq<Seq<char>>,
                        Seq<char>,
                    >(error@) by {
                        lemma_order_error(views, legs@, g, i + 1);
                    }
                }
                return Err(error);
            },
        }
        i += 1;
    }
    assert(views.take(i as int) =~= views);
    Ok(Some(join(&texts, ", ")))
}

/// What the query over the legs selects, and everything after its `FROM` and `WHERE`.
#[derive(Debug, PartialEq, Eq)]
pub struct OuterWrapperClauses {
    pub select: String,
    pub trailing: String,
}

/// The value of an [`OuterWrapperClauses`].
#[verifier::ext_equal]
pub struct OuterWrapperClausesV {
    pub select: Seq<char>,
    pub trailing: Seq<char>,
}

impl DeepView for OuterWrapperClauses {
    type V = OuterWrapperClausesV;

    open spec fn deep_view(&self) -> OuterWrapperClausesV {
        OuterWrapperClausesV { select: self.select@, trailing: self.trailing@ }
    }
}

/// The SQL of projection items.
pub open spec fn items_sql(items: Seq<ProjectionItemV>) -> Seq<Seq<char>> {
    items.map_values(|item: ProjectionItemV| item_sql(item))
}

/// The select list: `*` when nothing is selected.
pub open spec fn select_text(items: Seq<ProjectionItemV>) -> Seq<char> {
    if items.len() == 0 {
        "*"@
    } else {
        joined(items_sql(items), ", "@)
    }
}

/// A clause behind its keyword, or nothing.
pub open spec fn keyword_clause(keyword: Seq<char>, clause: Option<Seq<char>>) -> Seq<char> {
    match clause {
        Some(sql) => keyword + sql,
        None => Seq::empty(),
    }
}

/// Group keys, `HAVING`, sort order and window, in this order.
pub open spec fn trailing_text(
    group_by: Option<Seq<char>>,
    having: Option<Seq<char>>,
    order_by: Option<Seq<char>>,
    limit: Option<u64>,
    offset: u64,
) -> Seq<char> {
    keyword_clause(" GROUP BY "@, group_by) + keyword_clause(" HAVING "@, having)
        + keyword_clause(" ORDER BY "@, order_by) + limit_offset(limit, offset)
}

/// The clauses of the query over the legs. They are rendered in the order in which they are
/// written, so the first that cannot be rendered gives the error; the window applies last.
pub open spec fn outer_clauses(
    pushdown_req: JsonV,
    legs: JoinLegsV,
    cols_per_leg: Seq<Seq<ColumnTypeV>>,
    render: Renderer,
) -> Result<OuterWrapperClausesV, Seq<char>> {
    match select_items(pushdown_req, legs, cols_per_leg, render) {
        Ok(items) => match group_by_sql(pushdown_req, legs, render) {
            Ok(group_by) => match having_sql(pushdown_req, legs, render) {
                Ok(having) => match order_by_sql(pushdown_req, legs, render) {
                    Ok(order_by) => Ok(
                        OuterWrapperClausesV {
                            select: select_text(items),
                            trailing: trailing_text(
                                group_by,
                                having,
                                order_by,
                                limit_of(pushdown_req),
                                offset_of(pushdown_req),
                            ),
                        },
                    ),
                    Err(message) => Err(message),
                },
                Err(message) => Err(message),
            },
            Err(message) => Err(message),
        },
        Err(message) => Err(message),
    }
}

fn render_select_text(items: &Vec<ProjectionItem>) -> (sql: String)
    ensures
        sql@ == select_text(items.deep_view()),
{
    if items.len() == 0 {
        return "*".to_string();
    }
    let ghost views = items.deep_view();
    let mut texts: Vec<String> = Vec::new();
    let mut i: usize = 0;
    while i < items.len()
        invariant
            0 <= i <= items.len(),
            views == items.deep_view(),
            texts.deep_view() =~= items_sql(views).take(i as int),
        decreases items.len() - i,
    {
        let ghost before = texts.deep_view();
        let text = projection_item_select_sql(&items[i]);
        texts.push(text);
        assert(texts.deep_view() =~= before.push(text@));
        i += 1;
    }
    assert(texts.deep_view() =~= items_sql(views));
    join(&texts, ", ")
}

fn append_clause(sql: &mut String, keyword: &str, clause: &Option<String>)
    ensures
        final(sql)@ == old(sql)@ + keyword_clause(keyword@, clause.deep_view()),
{
    let ghost before = sql@;
    if let Some(text) = clause {
        sql.append(keyword);
        sql.append(text.as_str());
    }
    assert(sql@ =~= before + keyword_clause(keyword@, clause.deep_view()));
}

/// Renders the clauses of the query over the legs.
pub fn outer_wrapper_clauses<E: Fn(&Json) -> Option<String>>(
    pushdown_req: &Json,
    legs: &JoinLegs,
    cols_per_leg: &Vec<Vec<ColumnType>>,
    expression: &E,
) -> (clauses: Result<OuterWrapperClauses, UserError>)
    requires
        callable(*expression),
    ensures
        forall|g: Renderer| #[trigger]
            computes(*expression, g) ==> outcome(clauses) == outer_clauses(
                pushdown_req@,
                legs@,
                cols_per_leg.deep_view(),
                g,
            ),
{
    let items = match n_scan_join_select_items(pushdown_req, legs, cols_per_leg, expression) {
        Ok(items) => items,
        Err(error) => {
            return Err(error);
        },
    };
    let group_by = match qualified_join_group_by(pushdown_req, legs, expression) {
        Ok(clause) => clause,
        Err(error) => {
            return Err(error);
        },
    };
    let having = match qualified_join_having(pushdown_req, legs, expression) {
        Ok(clause) => clause,
        Err(error) => {
            return Err(error);
        },
    };
    let order_by = match qualified_join_order_by(pushdown_req, legs, expression) {
        Ok(clause) => clause,
        Err(error) => {
            return Err(error);
        },
    };
    let limit = extract_limit(pushdown_req);
    let offset: u64 = extract_offset(pushdown_req);
    let select = render_select_text(&items);
    let mut trailing = String::new();
    append_clause(&mut trailing, " GROUP BY ", &group_by);
    append_clause(&mut trailing, " HAVING ", &having);
    append_clause(&mut trailing, " ORDER BY ", &order_by);
    trailing.append(render_limit_offset(limit, offset).as_str());
    assert(trailing@ =~= trailing_text(
        group_by.deep_view(),
        having.deep_view(),
        order_by.deep_view(),
        limit,
        offset,
    ));
    Ok(OuterWrapperClauses { select, trailing })
}

/// The message for a filter that can be applied nowhere.
pub open spec fn nowhere_text(subject: Seq<char>, tree_json: Seq<char>) -> Seq<char> {
    decline_text(
        subject + " could be rendered by neither dialect, so it could be applied nowhere: "@
            + tree_json,
    )
}

/// The `WHERE` that applies a filter in the query over the legs: none when the filter is trivially
/// true, an error when it has no rendering or a column that could belong to several legs.
pub open spec fn self_applied_where(
    tree: JsonV,
    legs: JoinLegsV,
    subject: Seq<char>,
    expression: Renderer,
    filter: Renderer,
) -> Result<Option<Seq<char>>, Seq<char>> {
    match rendered_qualified(tree, legs, filter) {
        Ok(Some(sql)) => Ok(Some(sql)),
        Ok(None) => match rendered_qualified(tree, legs, expression) {
            Ok(Some(_)) => Ok(None),
            Ok(None) => Err(nowhere_text(subject, json_text(tree))),
            Err(column) => Err(unattributable_text(column)),
        },
        Err(column) => Err(unattributable_text(column)),
    }
}

/// Renders a filter that the query over the legs applies itself. `filter` declines a trivially
/// true filter too, which `expression` still renders.
pub fn render_self_applied_where<
    E: Fn(&Json) -> Option<String>,
    F: Fn(&Json) -> Option<String>,
>(
    tree: &Json,
    legs: &JoinLegs,
    subject: &str,
    expression: &E,
    filter: &F,
) -> (sql: Result<Option<String>, UserError>)
    requires
        callable(*expression),
        callable(*filter),
    ensures
        forall|e: Renderer, f: Renderer|
            #![trigger computes(*expression, e), computes(*filter, f)]
            computes(*expression, e) && computes(*filter, f) ==> outcome(sql)
                == self_applied_where(tree@, legs@, subject@, e, f),
{
    match render_qualified(tree, legs, filter) {
        Ok(Some(sql)) => Ok(Some(sql)),
        Ok(None) => match render_qualified(tree, legs, expression) {
            Ok(Some(_)) => Ok(None),
            Ok(None) => {
                let mut clause = subject.to_string();
                clause.append(
                    " could be rendered by neither dialect, so it could be applied nowhere: ",
                );
                clause.append(write_json(tree).as_str());
                Err(join_render_decline(clause.as_str()))
            },
            Err(column) => Err(unattributable_decline(column)),
        },
        Err(column) => Err(unattributable_decline(column)),
    }
}

} // verus!
