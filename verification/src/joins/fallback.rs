//! One table, scanned raw and aggregated by the reading engine.
//!
//! An aggregation that does not decompose into partial results is served like a join of one leg:
//! the scan emits rows, and the query over it carries the select list, the group keys, the
//! `HAVING`, the sort order and the window.

use crate::error::{outcome, UserError};

use crate::joins::attribution::{leg_alias_text, JoinLegs, JoinLegsV};
use crate::joins::clauses::{keyword_clause, outer_clauses, outer_wrapper_clauses,
    render_self_applied_where, self_applied_where};
use crate::joins::dialects::{can_write_queries, writes_queries, DrivingSql,
    QueryDialect, QueryDialectV};
use crate::joins::rendering::{clause_values, columns_named, has_no_explicit_select_list,
    keep_columns, referenced_clause_values, selects_whole_row, walk_all};
use crate::json::{find_member_text, group_json_views, member_text, Json, JsonV, Members,
    MembersV};
use crate::scan::{column_items, copied_column, copied_join, full_row_projection, types_of,
    ColumnType, ColumnTypeV, CommonScanSpec, CommonScanSpecV, FileEntry, FileEntryV, ProjectionItem,
    ProjectionItemV, ScanSpec, ScanSpecV};
use crate::text::{decimal, number_text, quote_ident, quoted, to_uppercase, uppercase};
use crate::tree::item_column_nodes;
use vstd::prelude::*;

verus! {

broadcast use group_json_views;

/// The uppercase name of a column.
pub open spec fn upper_column_name(column: MembersV) -> Option<Seq<char>> {
    match member_text(column, "name"@) {
        Some(name) => Some(uppercase(name)),
        None => None,
    }
}

/// The uppercase names of columns.
pub open spec fn upper_column_names(columns: Seq<MembersV>) -> Seq<Seq<char>> {
    columns.filter_map(|column: MembersV| upper_column_name(column))
}

fn collect_all_column_names(columns: &Vec<&Members>) -> (names: Vec<String>)
    ensures
        names.deep_view() == upper_column_names(columns.deep_view()),
{
    let ghost views = columns.deep_view();
    let mut names: Vec<String> = Vec::new();
    let mut i: usize = 0;
    assert(names.deep_view() =~= upper_column_names(views.take(0)));
    while i < columns.len()
        invariant
            0 <= i <= columns.len(),
            views == columns.deep_view(),
            names.deep_view() == upper_column_names(views.take(i as int)),
        decreases columns.len() - i,
    {
        assert(views.take(i + 1).drop_last() =~= views.take(i as int));
        let ghost before = names.deep_view();
        if let Some(name) = find_member_text(columns[i], "name") {
            let upper = to_uppercase(name);
            names.push(upper);
            assert(names.deep_view() =~= before + seq![upper@]);
        }
        i += 1;
    }
    assert(views.take(i as int) =~= views);
    names
}

/// The columns that a scan has to emit: all of them for a whole row, else those that some clause
/// refers to, and the first one when no clause refers to any.
pub open spec fn referenced_columns(
    pushdown_req: JsonV,
    all_cols: Seq<ColumnTypeV>,
) -> Seq<ColumnTypeV> {
    let named = columns_named(
        all_cols,
        upper_column_names(item_column_nodes(clause_values(pushdown_req))),
    );
    if selects_whole_row(pushdown_req) {
        all_cols
    } else if named.len() == 0 && all_cols.len() > 0 {
        seq![all_cols[0]]
    } else {
        named
    }
}

/// Projects the columns that a scan has to emit. A whole row is not narrowed, since its columns are
/// checked by position; an empty projection would not be valid.
pub fn referenced_column_projection(
    pushdown_req: &Json,
    all_cols: &Vec<ColumnType>,
) -> (row: (Vec<ProjectionItem>, Vec<String>))
    ensures
        row.0.deep_view() == column_items(referenced_columns(pushdown_req@, all_cols.deep_view())),
        row.1.deep_view() == types_of(referenced_columns(pushdown_req@, all_cols.deep_view())),
{
    if has_no_explicit_select_list(pushdown_req) {
        return full_row_projection(all_cols);
    }
    let clauses = referenced_clause_values(pushdown_req);
    let mut columns: Vec<&Members> = Vec::new();
    walk_all(&clauses, &mut columns);
    assert(columns.deep_view() =~= item_column_nodes(clause_values(pushdown_req@)));
    let names = collect_all_column_names(&columns);
    let mut kept = keep_columns(all_cols, &names);
    if kept.len() == 0 && all_cols.len() > 0 {
        let first = copied_column(&all_cols[0]);
        kept.push(first);
        assert(kept.deep_view() =~= seq![all_cols.deep_view()[0]]);
    }
    full_row_projection(&kept)
}

/// A scan and the types of the columns it emits, in the order of its projection.
#[derive(Debug, PartialEq)]
pub struct FanOutProjection<'a> {
    pub spec: &'a ScanSpec,
    pub proj_types: &'a Vec<String>,
}

/// The message for a projection whose types do not match its items.
pub open spec fn misaligned_text(items: nat, types: nat) -> Seq<char> {
    "the fan-out projection carries "@ + decimal(items) + " item(s) but "@ + decimal(types)
        + " declared type(s); the two must stay positionally aligned"@
}

impl<'a> FanOutProjection<'a> {
    /// Each projected item has a type.
    pub open spec fn aligned(self) -> bool {
        self.spec.common.projection@.len() == self.proj_types@.len()
    }

    /// Pairs a scan with the types of its columns. A list of another length would truncate the
    /// columns that the scan emits.
    pub fn new(spec: &'a ScanSpec, proj_types: &'a Vec<String>) -> (fan_out: Result<
        FanOutProjection<'a>,
        UserError,
    >)
        ensures
            match fan_out {
                Ok(pair) => pair.aligned() && pair.spec == spec && pair.proj_types == proj_types,
                Err(error) => spec.common.projection@.len() != proj_types@.len() && error@
                    == misaligned_text(spec.common.projection@.len(), proj_types@.len()),
            },
    {
        if spec.common.projection.len() != proj_types.len() {
            let mut message = "the fan-out projection carries ".to_string();
            message.append(number_text(spec.common.projection.len() as u64).as_str());
            message.append(" item(s) but ");
            message.append(number_text(proj_types.len() as u64).as_str());
            message.append(" declared type(s); the two must stay positionally aligned");
            return Err(UserError { message });
        }
        Ok(FanOutProjection { spec, proj_types })
    }
}

/// The columns among the first `n` projected items, with their types.
pub open spec fn typed_columns(
    items: Seq<ProjectionItemV>,
    types: Seq<Seq<char>>,
    n: int,
) -> Seq<ColumnTypeV>
    decreases n,
{
    if n <= 0 {
        Seq::empty()
    } else {
        let before = typed_columns(items, types, n - 1);
        match items[n - 1] {
            ProjectionItemV::Column(name) => before.push((name, types[n - 1])),
            ProjectionItemV::Expr { .. } => before,
        }
    }
}

fn collect_typed_columns(items: &Vec<ProjectionItem>, types: &Vec<String>) -> (columns: Vec<
    ColumnType,
>)
    requires
        items@.len() == types@.len(),
    ensures
        columns.deep_view() == typed_columns(
            items.deep_view(),
            types.deep_view(),
            items@.len() as int,
        ),
{
    let mut columns: Vec<ColumnType> = Vec::new();
    let mut i: usize = 0;
    assert(columns.deep_view() =~= Seq::empty());
    while i < items.len()
        invariant
            0 <= i <= items.len(),
            items@.len() == types@.len(),
            columns.deep_view() == typed_columns(items.deep_view(), types.deep_view(), i as int),
        decreases items.len() - i,
    {
        let ghost before = columns.deep_view();
        if let ProjectionItem::Column(name) = &items[i] {
            let column = (name.clone(), types[i].clone());
            columns.push(column);
            assert(columns.deep_view() =~= before.push(column.deep_view()));
        }
        assert(items.deep_view()[i as int] == items@[i as int].deep_view());
        i += 1;
    }
    columns
}

/// The query over the scan of one table.
pub open spec fn single_table_sql(
    request: JsonV,
    pushdown_req: JsonV,
    scan: ScanSpecV,
    types: Seq<Seq<char>>,
    shards: Seq<Seq<FileEntryV>>,
    declined_filter: Option<JsonV>,
    query: QueryDialectV,
    driving_sql: DrivingSql,
) -> Result<Seq<char>, Seq<char>> {
    let legs = JoinLegsV::of_single_scan(request);
    let projection = scan.common.projection;
    let columns = typed_columns(projection, types, projection.len() as int);
    match outer_clauses(pushdown_req, legs, seq![columns], query.expression) {
        Ok(clauses) => match declined_where(declined_filter, legs, query) {
            Ok(filter) => Ok(
                "SELECT "@ + clauses.select + " FROM ("@ + driving_sql(scan, shards, types, None)
                    + ") AS "@ + quoted(leg_alias_text(0)) + keyword_clause(" WHERE "@, filter)
                    + clauses.trailing,
            ),
            Err(message) => Err(message),
        },
        Err(message) => Err(message),
    }
}

/// The `WHERE` for a filter that the scan cannot apply.
pub open spec fn declined_where(
    declined_filter: Option<JsonV>,
    legs: JoinLegsV,
    query: QueryDialectV,
) -> Result<Option<Seq<char>>, Seq<char>> {
    match declined_filter {
        Some(tree) => self_applied_where(
            tree,
            legs,
            "a declined WHERE predicate"@,
            query.expression,
            query.filter,
        ),
        None => Ok(None),
    }
}

/// Writes the query over the scan of one table. `declined_filter` is a filter that the scan cannot
/// apply: since the scan neither aggregates nor sorts nor limits, the query restricts the rows that
/// its own clauses see. The scan must then have no filter, so that this one applies once.
pub fn build_qualified_single_table_fallback_sql<
    E: Fn(&Json) -> Option<String>,
    F: Fn(&Json) -> Option<String>,
    D: Fn(&ScanSpec, &Vec<Vec<FileEntry>>, &Vec<String>, Option<u64>) -> String,
>(
    request: &Json,
    pushdown_req: &Json,
    fan_out: &FanOutProjection<'_>,
    shards: &Vec<Vec<FileEntry>>,
    declined_filter: Option<&Json>,
    query: &QueryDialect<E, F>,
    driving_sql: &D,
) -> (sql: Result<String, UserError>)
    requires
        fan_out.aligned(),
        query.ready(),
        can_write_queries(*driving_sql),
    ensures
        forall|q: QueryDialectV, d: DrivingSql|
            #![trigger query.speaks(q), writes_queries(*driving_sql, d)]
            query.speaks(q) && writes_queries(*driving_sql, d) ==> outcome(sql)
                == single_table_sql(
                request@,
                pushdown_req@,
                fan_out.spec.deep_view(),
                fan_out.proj_types.deep_view(),
                shards.deep_view(),
                declined_filter.deep_view(),
                q,
                d,
            ),
{
    let legs = JoinLegs::for_single_scan(request);
    let columns = collect_typed_columns(&fan_out.spec.common.projection, fan_out.proj_types);
    let mut cols_per_leg: Vec<Vec<ColumnType>> = Vec::new();
    cols_per_leg.push(columns);
    assert(cols_per_leg.deep_view() =~= seq![columns.deep_view()]);
    let clauses = match outer_wrapper_clauses(
        pushdown_req,
        &legs,
        &cols_per_leg,
        &query.expression,
    ) {
        Ok(clauses) => clauses,
        Err(error) => {
            return Err(error);
        },
    };
    let scan_sql = driving_sql(fan_out.spec, shards, fan_out.proj_types, None);
    let filter = match declined_filter {
        Some(tree) => match render_self_applied_where(
            tree,
            &legs,
            "a declined WHERE predicate",
            &query.expression,
            &query.filter,
        ) {
            Ok(filter) => filter,
            Err(error) => {
                return Err(error);
            },
        },
        None => None,
    };
    let mut sql = "SELECT ".to_string();
    sql.append(clauses.select.as_str());
    sql.append(" FROM (");
    sql.append(scan_sql.as_str());
    sql.append(") AS ");
    sql.append(quote_ident(legs.leg_alias(0).as_str()).as_str());
    let ghost head = sql@;
    if let Some(clause) = &filter {
        sql.append(" WHERE ");
        sql.append(clause.as_str());
    }
    assert(sql@ =~= head + keyword_clause(" WHERE "@, filter.deep_view()));
    sql.append(clauses.trailing.as_str());
    Ok(sql)
}

/// The response that hands a query to the reading engine.
pub open spec fn pushdown_response(sql: Seq<char>) -> JsonV {
    JsonV::Object(seq![("sql"@, JsonV::Str(sql)), ("type"@, JsonV::Str("pushdown"@))])
}

/// Makes the response that hands a query to the reading engine.
pub fn respond_with(sql: String) -> (response: Json)
    ensures
        response@ == pushdown_response(sql@),
{
    let mut members: Members = Vec::new();
    members.push(("sql".to_string(), Json::Str(sql)));
    members.push(("type".to_string(), Json::Str("pushdown".to_string())));
    assert(members.deep_view() =~= pushdown_response(sql@)->Object_0);
    Json::Object(members)
}

/// The scan of raw rows that the fallback reads: the given one with its projection and filter
/// replaced, and without a limit, a sort order or an aggregation.
pub open spec fn raw_scan(
    base: CommonScanSpecV,
    columns: Seq<ColumnTypeV>,
    filter: Option<Seq<char>>,
) -> ScanSpecV {
    ScanSpecV {
        common: CommonScanSpecV {
            projection: column_items(columns),
            filter,
            limit: None,
            order_by: Seq::empty(),
            aggregates: None,
            group_keys: None,
            distinct: false,
            ..base
        },
        files: Seq::empty(),
    }
}

/// The response of the fallback.
pub open spec fn single_table_response(
    request: JsonV,
    pushdown_req: JsonV,
    base: CommonScanSpecV,
    filter: Option<Seq<char>>,
    shards: Seq<Seq<FileEntryV>>,
    col_types: Seq<ColumnTypeV>,
    declined_filter: Option<JsonV>,
    query: QueryDialectV,
    driving_sql: DrivingSql,
) -> Result<JsonV, Seq<char>> {
    let columns = referenced_columns(pushdown_req, col_types);
    match single_table_sql(
        request,
        pushdown_req,
        raw_scan(base, columns, filter),
        types_of(columns),
        shards,
        declined_filter,
        query,
        driving_sql,
    ) {
        Ok(sql) => Ok(pushdown_response(sql)),
        Err(message) => Err(message),
    }
}

/// Answers a request over one table with the query over its raw rows. `filter` has to be absent
/// where `declined_filter` is set. The select list alone decides the projection, so a declined
/// filter keeps the scan narrow.
pub fn qualified_single_table_fallback_pushdown<
    E: Fn(&Json) -> Option<String>,
    F: Fn(&Json) -> Option<String>,
    D: Fn(&ScanSpec, &Vec<Vec<FileEntry>>, &Vec<String>, Option<u64>) -> String,
>(
    request: &Json,
    pushdown_req: &Json,
    base: &CommonScanSpec,
    filter: Option<String>,
    shards: &Vec<Vec<FileEntry>>,
    col_types: &Vec<ColumnType>,
    declined_filter: Option<&Json>,
    query: &QueryDialect<E, F>,
    driving_sql: &D,
) -> (response: Result<Json, UserError>)
    requires
        query.ready(),
        can_write_queries(*driving_sql),
    ensures
        forall|q: QueryDialectV, d: DrivingSql|
            #![trigger query.speaks(q), writes_queries(*driving_sql, d)]
            query.speaks(q) && writes_queries(*driving_sql, d) ==> outcome(response)
                == single_table_response(
                request@,
                pushdown_req@,
                base.deep_view(),
                filter.deep_view(),
                shards.deep_view(),
                col_types.deep_view(),
                declined_filter.deep_view(),
                q,
                d,
            ),
{
    let (projection, types) = referenced_column_projection(pushdown_req, col_types);
    let ghost columns = referenced_columns(pushdown_req@, col_types.deep_view());
    let logical_schema = base.logical_schema.clone();
    let name_mapping = base.name_mapping.clone();
    let partition_columns = base.partition_columns.clone();
    let scan = ScanSpec {
        common: CommonScanSpec {
            table_root: base.table_root.clone(),
            projection,
            filter,
            limit: None,
            order_by: Vec::new(),
            aggregates: None,
            group_keys: None,
            distinct: false,
            logical_schema,
            name_mapping,
            join: copied_join(&base.join),
            partition_columns,
            storage: base.storage.clone(),
            tuning: base.tuning,
        },
        files: Vec::new(),
    };
    proof {
        assert(scan.common.logical_schema@ =~= base.logical_schema@);
        assert(scan.common.name_mapping@ =~= base.name_mapping@);
        assert(scan.common.partition_columns.deep_view() =~= base.partition_columns.deep_view());
        assert(scan.files.deep_view() =~= Seq::empty());
        assert(scan.common.order_by.deep_view() =~= Seq::empty());
        assert(scan.deep_view() =~= raw_scan(base.deep_view(), columns, filter.deep_view()));
        assert(projection.deep_view().len() == types.deep_view().len());
    }
    let fan_out = match FanOutProjection::new(&scan, &types) {
        Ok(fan_out) => fan_out,
        Err(error) => {
            return Err(error);
        },
    };
    match build_qualified_single_table_fallback_sql(
        request,
        pushdown_req,
        &fan_out,
        shards,
        declined_filter,
        query,
        driving_sql,
    ) {
        Ok(sql) => Ok(respond_with(sql)),
        Err(error) => Err(error),
    }
}

} // verus!
