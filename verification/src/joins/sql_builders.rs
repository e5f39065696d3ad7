//! The queries that serve a join.

use crate::error::{outcome, UserError};
use crate::handed::{callable, computes};
use crate::joins::attribution::{leg_alias_text, JoinLegs, JoinLegsV};
use crate::joins::clauses::{clauses_sql, decline_text, join_render_decline, outer_clauses,
    outer_wrapper_clauses, render_clauses, render_self_applied_where, self_applied_where};
use crate::joins::dialects::{JoinServices, JoinServicesV, ScanDialectV};
use crate::joins::planning::{involved_table_columns, table_columns, DetectedJoin, DetectedJoinV,
    ResolvedJoinSide};
use crate::joins::rendering::{conjoin_filters, conjoined, cross_leg_part,
    cross_leg_residual_filter, declined_only, declined_part, leg_columns, leg_local_filter,
    leg_part, referenced_leg_columns, renderable_only, renderable_part, type_screened,
    type_screened_leg_filter};
use crate::json::{group_json_views, Json, JsonV};
use crate::scan::{column_items, full_row_projection, types_of, ColumnType, ColumnTypeV,
    CommonScanSpec, CommonScanSpecV, FileEntry, JoinSpec, JoinSpecV, ProjectionItem,
    ProjectionItemV, ScanSpec, ScanSpecV, ScanStorage, ScanTuning, StorageBackend};
use crate::text::{decimal, join, joined, number_text, quote_ident, quoted};
use crate::tree::{strip_table_alias, without_aliases};
use vstd::prelude::*;

verus! {

broadcast use group_json_views;

/// The point of the chain at which a condition is attached: the point that brings its highest leg
/// into scope. Without a second leg there is no such point.
pub open spec fn attach_point(legs: JoinLegsV, condition: JsonV, last: int) -> Option<int> {
    match legs.attachment(condition) {
        Some(leg) if last >= 1 => Some(
            if leg < 1 {
                1
            } else if leg > last {
                last
            } else {
                leg as int
            },
        ),
        _ => None,
    }
}

/// The texts of the conditions that are attached at `point`, in their order; those attached at
/// no point for `None`.
pub open spec fn attached(
    legs: JoinLegsV,
    conditions: Seq<JsonV>,
    texts: Seq<Seq<char>>,
    last: int,
    point: Option<int>,
) -> Seq<Seq<char>>
    decreases conditions.len(),
{
    if conditions.len() == 0 {
        Seq::empty()
    } else {
        let before = attached(legs, conditions.drop_last(), texts.drop_last(), last, point);
        if attach_point(legs, conditions.last(), last) == point {
            before.push(texts.last())
        } else {
            before
        }
    }
}

/// Texts between parentheses.
pub open spec fn parenthesized(texts: Seq<Seq<char>>) -> Seq<Seq<char>> {
    texts.map_values(|text: Seq<char>| "("@ + text + ")"@)
}

/// The `ON` of a point of the chain.
pub open spec fn on_text(texts: Seq<Seq<char>>) -> Seq<char> {
    if texts.len() == 0 {
        "1=1"@
    } else {
        joined(parenthesized(texts), " AND "@)
    }
}

/// A scan as a subquery under the alias of its leg.
pub open spec fn leg_subquery(fan_out: Seq<char>, leg: usize) -> Seq<char> {
    "("@ + fan_out + ") AS "@ + quoted(leg_alias_text(leg))
}

/// The scans joined left to right, each condition at the point where it is attached.
pub open spec fn join_chain(
    legs: JoinLegsV,
    fan_outs: Seq<Seq<char>>,
    conditions: Seq<JsonV>,
    texts: Seq<Seq<char>>,
    last: int,
) -> Seq<char>
    decreases fan_outs.len(),
{
    if fan_outs.len() == 0 {
        Seq::empty()
    } else if fan_outs.len() == 1 {
        leg_subquery(fan_outs[0], 0)
    } else {
        let point = fan_outs.len() - 1;
        join_chain(legs, fan_outs.drop_last(), conditions, texts, last) + " INNER JOIN "@
            + leg_subquery(fan_outs.last(), point as usize) + " ON "@ + on_text(
            attached(legs, conditions, texts, last, Some(point)),
        )
    }
}

fn parenthesize(texts: &Vec<String>) -> (wrapped: Vec<String>)
    ensures
        wrapped.deep_view() == parenthesized(texts.deep_view()),
{
    let ghost views = texts.deep_view();
    let mut wrapped: Vec<String> = Vec::new();
    let mut i: usize = 0;
    while i < texts.len()
        invariant
            0 <= i <= texts.len(),
            views == texts.deep_view(),
            wrapped.deep_view() =~= parenthesized(views).take(i as int),
        decreases texts.len() - i,
    {
        let ghost before = wrapped.deep_view();
        let mut text = "(".to_string();
        text.append(texts[i].as_str());
        text.append(")");
        wrapped.push(text);
        assert(wrapped.deep_view() =~= before.push(text@));
        i += 1;
    }
    assert(wrapped.deep_view() =~= parenthesized(views));
    wrapped
}

fn find_attach_point(legs: &JoinLegs, condition: &Json, last: usize) -> (point: Option<usize>)
    ensures
        match point {
            Some(at) => attach_point(legs@, condition@, last as int) == Some(at as int),
            None => attach_point(legs@, condition@, last as int) is None,
        },
{
    match legs.attachment_leg(condition) {
        Some(leg) => if last >= 1 {
            if leg < 1 {
                Some(1)
            } else if leg > last {
                Some(last)
            } else {
                Some(leg)
            }
        } else {
            None
        },
        None => None,
    }
}

/// The value of an attach point.
pub open spec fn point_of(point: Option<usize>) -> Option<int> {
    match point {
        Some(at) => Some(at as int),
        None => None,
    }
}

fn collect_attached(
    legs: &JoinLegs,
    conditions: &Vec<Json>,
    texts: &Vec<String>,
    last: usize,
    point: Option<usize>,
) -> (found: Vec<String>)
    requires
        conditions@.len() == texts@.len(),
    ensures
        found.deep_view() == attached(
            legs@,
            conditions.deep_view(),
            texts.deep_view(),
            last as int,
            point_of(point),
        ),
{
    let ghost nodes = conditions.deep_view();
    let ghost sqls = texts.deep_view();
    let mut found: Vec<String> = Vec::new();
    let mut i: usize = 0;
    assert(found.deep_view() =~= Seq::empty());
    while i < conditions.len()
        invariant
            0 <= i <= conditions.len(),
            conditions@.len() == texts@.len(),
            nodes == conditions.deep_view(),
            sqls == texts.deep_view(),
            found.deep_view() == attached(
                legs@,
                nodes.take(i as int),
                sqls.take(i as int),
                last as int,
                point_of(point),
            ),
        decreases conditions.len() - i,
    {
        assert(nodes.take(i + 1).drop_last() =~= nodes.take(i as int));
        assert(sqls.take(i + 1).drop_last() =~= sqls.take(i as int));
        let ghost before = found.deep_view();
        if find_attach_point(legs, &conditions[i], last) == point {
            let text = texts[i].clone();
            found.push(text);
            assert(found.deep_view() =~= before.push(text@));
        }
        i += 1;
    }
    assert(nodes.take(i as int) =~= nodes);
    assert(sqls.take(i as int) =~= sqls);
    found
}

fn append_leg_subquery(sql: &mut String, legs: &JoinLegs, fan_out: &str, leg: usize)
    ensures
        final(sql)@ == old(sql)@ + leg_subquery(fan_out@, leg),
{
    let ghost before = sql@;
    sql.append("(");
    sql.append(fan_out);
    sql.append(") AS ");
    sql.append(quote_ident(legs.leg_alias(leg).as_str()).as_str());
    assert(sql@ =~= before + leg_subquery(fan_out@, leg));
}

/// Chains the scans left to right with inner joins. Each condition is attached, greedily and by
/// its legs, to the earliest point at which all of them are in scope; a point without one is
/// joined on `1=1`. The conditions that no point brings into scope are returned: for an inner join
/// they hold in a `WHERE` just as well.
fn build_n_scan_join_from(
    fan_outs: &Vec<String>,
    legs: &JoinLegs,
    raw_conditions: &Vec<Json>,
    conditions: &Vec<String>,
) -> (from: (String, Vec<String>))
    requires
        fan_outs@.len() >= 1,
        raw_conditions@.len() == conditions@.len(),
    ensures
        from.0@ == join_chain(
            legs@,
            fan_outs.deep_view(),
            raw_conditions.deep_view(),
            conditions.deep_view(),
            fan_outs@.len() - 1,
        ),
        from.1.deep_view() == attached(
            legs@,
            raw_conditions.deep_view(),
            conditions.deep_view(),
            fan_outs@.len() - 1,
            None,
        ),
{
    let last: usize = fan_outs.len() - 1;
    let ghost scans = fan_outs.deep_view();
    let mut sql = String::new();
    append_leg_subquery(&mut sql, legs, fan_outs[0].as_str(), 0);
    assert(scans.take(1).len() == 1);
    assert(sql@ =~= leg_subquery(scans.take(1)[0], 0));
    let mut k: usize = 1;
    while k < fan_outs.len()
        invariant
            1 <= k <= fan_outs.len(),
            last == fan_outs.len() - 1,
            raw_conditions@.len() == conditions@.len(),
            scans == fan_outs.deep_view(),
            sql@ == join_chain(
                legs@,
                scans.take(k as int),
                raw_conditions.deep_view(),
                conditions.deep_view(),
                last as int,
            ),
        decreases fan_outs.len() - k,
    {
        assert(scans.take(k + 1).drop_last() =~= scans.take(k as int));
        let here = collect_attached(legs, raw_conditions, conditions, last, Some(k));
        sql.append(" INNER JOIN ");
        append_leg_subquery(&mut sql, legs, fan_outs[k].as_str(), k);
        sql.append(" ON ");
        if here.len() == 0 {
            sql.append("1=1");
        } else {
            sql.append(join(&parenthesize(&here), " AND ").as_str());
        }
        k += 1;
    }
    assert(scans.take(k as int) =~= scans);
    let residual = collect_attached(legs, raw_conditions, conditions, last, None);
    (sql, residual)
}

/// The scan of one side: its own storage, no row cap and no order.
pub open spec fn side_scan(
    primary: ResolvedJoinSide,
    projection: Seq<ProjectionItemV>,
    filter: Option<Seq<char>>,
    join: Option<JoinSpecV>,
    storage: ScanStorage,
    tuning: ScanTuning,
) -> ScanSpecV {
    ScanSpecV {
        common: CommonScanSpecV {
            table_root: primary.table_root@,
            projection,
            filter,
            limit: None,
            order_by: Seq::empty(),
            aggregates: None,
            group_keys: None,
            distinct: false,
            logical_schema: primary.logical_schema@,
            name_mapping: primary.name_mapping@,
            join,
            partition_columns: primary.partition_columns.deep_view(),
            storage,
            tuning,
        },
        files: Seq::empty(),
    }
}

/// Builds the scan of one side. A cap on joined rows is part of `join`, never of the scan.
pub fn join_fan_out_scan_spec(
    primary: &ResolvedJoinSide,
    projection: Vec<ProjectionItem>,
    filter: Option<String>,
    join: Option<JoinSpec>,
    storage: ScanStorage,
    tuning: ScanTuning,
) -> (spec: ScanSpec)
    ensures
        spec.deep_view() == side_scan(
            *primary,
            projection.deep_view(),
            filter.deep_view(),
            join.deep_view(),
            storage,
            tuning,
        ),
{
    let logical_schema = primary.logical_schema.clone();
    let name_mapping = primary.name_mapping.clone();
    let partition_columns = primary.partition_columns.clone();
    assert(logical_schema@ =~= primary.logical_schema@);
    assert(name_mapping@ =~= primary.name_mapping@);
    assert(partition_columns.deep_view() =~= primary.partition_columns.deep_view());
    let spec = ScanSpec {
        common: CommonScanSpec {
            table_root: primary.table_root.clone(),
            projection,
            filter,
            limit: None,
            order_by: Vec::new(),
            aggregates: None,
            group_keys: None,
            distinct: false,
            logical_schema,
            name_mapping,
            join,
            partition_columns,
            storage,
            tuning,
        },
        files: Vec::new(),
    };
    assert(spec.common.order_by.deep_view() =~= Seq::empty());
    assert(spec.deep_view() =~= side_scan(
        *primary,
        projection.deep_view(),
        filter.deep_view(),
        join.deep_view(),
        storage,
        tuning,
    ));
    spec
}

/// The filter that a scan applies, over bare column names.
pub open spec fn scan_filter_text(side_filter: Option<JsonV>, scan: ScanDialectV) -> Option<
    Seq<char>,
> {
    match side_filter {
        Some(filter) => (scan.filter)(without_aliases(filter)),
        None => None,
    }
}

/// The query that scans the given columns of one side.
pub open spec fn side_fan_out(
    side: ResolvedJoinSide,
    columns: Seq<ColumnTypeV>,
    side_filter: Option<JsonV>,
    services: JoinServicesV,
) -> Result<Seq<char>, Seq<char>> {
    match (services.builder.storage)(side.effective_storage) {
        Ok(storage) => Ok(
            (services.builder.driving_sql)(
                side_scan(
                    side,
                    column_items(columns),
                    scan_filter_text(side_filter, services.scan),
                    None,
                    storage,
                    services.builder.tuning,
                ),
                (services.builder.shards)(side),
                types_of(columns),
                None,
            ),
        ),
        Err(message) => Err(message),
    }
}

/// Writes the query that scans the given columns of one side. The filter comes screened and
/// rewritten: one that this query cannot apply would be applied nowhere.
pub fn build_side_fan_out_sql<
    T: Fn(&Json) -> String,
    E: Fn(&Json) -> Option<String>,
    F: Fn(&Json) -> Option<String>,
    P: Fn(&Json) -> bool,
    W: Fn(&Json, &Vec<ColumnType>) -> Option<Json>,
    L: Fn(&Json) -> Option<String>,
    S: Fn(&ResolvedJoinSide) -> Vec<Vec<FileEntry>>,
    G: Fn(&StorageBackend) -> Result<ScanStorage, UserError>,
    D: Fn(&ScanSpec, &Vec<Vec<FileEntry>>, &Vec<String>, Option<u64>) -> String,
>(
    side: &ResolvedJoinSide,
    columns: &Vec<ColumnType>,
    side_filter: &Option<Json>,
    services: &JoinServices<T, E, F, P, W, L, S, G, D>,
) -> (sql: Result<String, UserError>)
    requires
        services.ready(),
    ensures
        forall|m: JoinServicesV| #[trigger]
            services.provides(m) ==> outcome(sql) == side_fan_out(
                *side,
                columns.deep_view(),
                side_filter.deep_view(),
                m,
            ),
{
    let (proj_cols, proj_types) = full_row_projection(columns);
    let shards = (services.builder.shards)(side);
    let filter = match side_filter {
        Some(tree) => (services.scan.filter)(&strip_table_alias(tree)),
        None => None,
    };
    let storage = match (services.builder.storage)(&side.effective_storage) {
        Ok(storage) => storage,
        Err(error) => {
            return Err(error);
        },
    };
    let spec = join_fan_out_scan_spec(
        side,
        proj_cols,
        filter,
        None,
        storage,
        services.builder.tuning,
    );
    Ok((services.builder.driving_sql)(&spec, &shards, &proj_types, None))
}

/// The columns of each side.
pub open spec fn side_columns(
    request: JsonV,
    sides: Seq<ResolvedJoinSide>,
    exasol_type: spec_fn(JsonV) -> Seq<char>,
) -> Seq<Seq<ColumnTypeV>> {
    Seq::new(
        sides.len(),
        |i: int| table_columns(request, sides[i].table_name@, exasol_type),
    )
}

fn collect_side_columns<T: Fn(&Json) -> String>(
    request: &Json,
    sides: &Vec<ResolvedJoinSide>,
    exasol_type: &T,
) -> (columns: Vec<Vec<ColumnType>>)
    requires
        callable(*exasol_type),
    ensures
        columns@.len() == sides@.len(),
        forall|g: spec_fn(JsonV) -> Seq<char>| #[trigger]
            computes(*exasol_type, g) ==> columns.deep_view() == side_columns(
                request@,
                sides@,
                g,
            ),
{
    let mut columns: Vec<Vec<ColumnType>> = Vec::new();
    let mut i: usize = 0;
    while i < sides.len()
        invariant
            0 <= i <= sides.len(),
            columns@.len() == i,
            callable(*exasol_type),
            forall|g: spec_fn(JsonV) -> Seq<char>| #[trigger]
                computes(*exasol_type, g) ==> columns.deep_view() =~= side_columns(
                    request@,
                    sides@,
                    g,
                ).take(i as int),
        decreases sides.len() - i,
    {
        let ghost before = columns.deep_view();
        let own = involved_table_columns(request, sides[i].table_name.as_str(), exasol_type);
        columns.push(own);
        assert(columns.deep_view() =~= before.push(own.deep_view()));
        i += 1;
    }
    assert forall|g: spec_fn(JsonV) -> Seq<char>| #[trigger] computes(
        *exasol_type,
        g,
    ) implies columns.deep_view() == side_columns(request@, sides@, g) by {
        assert(columns.deep_view() =~= side_columns(request@, sides@, g));
    }
    columns
}

/// Whether some side has no columns.
pub open spec fn lacks_columns(columns: Seq<Seq<ColumnTypeV>>) -> bool {
    exists|i: int| 0 <= i < columns.len() && (#[trigger] columns[i]).len() == 0
}

fn some_side_lacks_columns(columns: &Vec<Vec<ColumnType>>) -> (yes: bool)
    ensures
        yes == lacks_columns(columns.deep_view()),
{
    let ghost views = columns.deep_view();
    let mut i: usize = 0;
    while i < columns.len()
        invariant
            0 <= i <= columns.len(),
            views == columns.deep_view(),
            forall|j: int| 0 <= j < i ==> (#[trigger] views[j]).len() > 0,
        decreases columns.len() - i,
    {
        assert(views[i as int] == columns@[i as int].deep_view());
        if columns[i].len() == 0 {
            return true;
        }
        i += 1;
    }
    false
}

/// A join whose scans are joined by the reading engine.
pub struct NScanJoinV {
    pub request: JsonV,
    pub pushdown_req: JsonV,
    pub join: DetectedJoinV,
    pub sides: Seq<ResolvedJoinSide>,
    pub services: JoinServicesV,
}

impl NScanJoinV {
    /// The legs of the join.
    pub open spec fn legs(self) -> JoinLegsV {
        JoinLegsV::of_leaves(self.join.tables)
    }

    /// The columns of each side.
    pub open spec fn columns(self) -> Seq<Seq<ColumnTypeV>> {
        side_columns(self.request, self.sides, self.services.exasol_type)
    }

    /// The conjuncts of the filter that some leg may apply.
    pub open spec fn leg_eligible(self) -> Option<JsonV> {
        match self.pushdown_req.present_field("filter"@) {
            Some(filter) => renderable_part(filter, self.services.scan.renderable),
            None => None,
        }
    }

    /// The conjuncts that the scan dialect cannot express.
    pub open spec fn declined(self) -> Option<JsonV> {
        match self.pushdown_req.present_field("filter"@) {
            Some(filter) => declined_part(filter, self.services.scan.renderable),
            None => None,
        }
    }

    /// The eligible conjuncts that belong to no single leg.
    pub open spec fn cross_leg(self) -> Option<JsonV> {
        match self.leg_eligible() {
            Some(filter) => cross_leg_part(filter, self.legs()),
            None => None,
        }
    }

    /// The eligible conjuncts of a leg.
    pub open spec fn leg_local(self, leg: int) -> Option<JsonV> {
        match self.leg_eligible() {
            Some(filter) => leg_part(filter, self.legs(), leg as usize),
            None => None,
        }
    }

    /// What a leg applies of its conjuncts, rewritten, and what it hands back.
    pub open spec fn leg_split(self, leg: int) -> (Option<JsonV>, Option<JsonV>) {
        match self.leg_local(leg) {
            Some(local) => type_screened(
                local,
                self.columns()[leg],
                self.services.scan.rewrite,
            ),
            None => (None, None),
        }
    }

    /// The columns that the scan of a leg emits.
    pub open spec fn leg_columns(self, leg: int) -> Seq<ColumnTypeV> {
        leg_columns(
            self.pushdown_req,
            JsonV::Array(self.join.conditions),
            self.legs(),
            leg as usize,
            self.columns()[leg],
        )
    }

    /// The query that scans a leg.
    pub open spec fn fan_out(self, leg: int) -> Result<Seq<char>, Seq<char>> {
        side_fan_out(
            self.sides[leg],
            self.leg_columns(leg),
            self.leg_split(leg).0,
            self.services,
        )
    }

    /// The queries that scan the first `n` legs, or the first error among them.
    pub open spec fn fan_outs(self, n: int) -> Result<Seq<Seq<char>>, Seq<char>>
        decreases n,
    {
        if n <= 0 {
            Ok(Seq::empty())
        } else {
            match self.fan_outs(n - 1) {
                Ok(texts) => match self.fan_out(n - 1) {
                    Ok(sql) => Ok(texts.push(sql)),
                    Err(message) => Err(message),
                },
                Err(message) => Err(message),
            }
        }
    }

    /// What the first `n` legs hand back.
    pub open spec fn handed_back(self, n: int) -> Option<JsonV>
        decreases n,
    {
        if n <= 0 {
            None
        } else {
            conjoined(self.handed_back(n - 1), self.leg_split(n - 1).1)
        }
    }

    /// The conjuncts that the query over the legs applies itself.
    pub open spec fn residual(self) -> Option<JsonV> {
        conjoined(
            conjoined(self.cross_leg(), self.declined()),
            self.handed_back(self.sides.len() as int),
        )
    }

    /// The filter of the query over the legs.
    pub open spec fn residual_where(self) -> Result<Option<Seq<char>>, Seq<char>> {
        match self.residual() {
            Some(tree) => self_applied_where(
                tree,
                self.legs(),
                "a residual WHERE conjunct"@,
                self.services.query.expression,
                self.services.query.filter,
            ),
            None => Ok(None),
        }
    }

    /// The query that joins the scans of the legs.
    pub open spec fn sql(self) -> Result<Seq<char>, Seq<char>> {
        let legs = self.legs();
        if lacks_columns(self.columns()) {
            Err(decline_text(no_columns_decline()))
        } else if legs.leg_count != self.sides.len() {
            Err(count_mismatch_text(legs.leg_count as nat, self.sides.len()))
        } else {
            match clauses_sql(
                self.join.conditions,
                legs,
                self.services.query.expression,
                condition_decline(),
            ) {
                Ok(conditions) => match self.fan_outs(self.sides.len() as int) {
                    Ok(fan_outs) => match self.residual_where() {
                        Ok(filter) => match outer_clauses(
                            self.pushdown_req,
                            legs,
                            self.columns(),
                            self.services.query.expression,
                        ) {
                            Ok(clauses) => Ok(
                                joined_query(
                                    clauses.select,
                                    join_chain(
                                        legs,
                                        fan_outs,
                                        self.join.conditions,
                                        conditions,
                                        fan_outs.len() - 1,
                                    ),
                                    attached(
                                        legs,
                                        self.join.conditions,
                                        conditions,
                                        fan_outs.len() - 1,
                                        None,
                                    ),
                                    filter,
                                    clauses.trailing,
                                ),
                            ),
                            Err(message) => Err(message),
                        },
                        Err(message) => Err(message),
                    },
                    Err(message) => Err(message),
                },
                Err(message) => Err(message),
            }
        }
    }
}

/// The decline for a table without columns.
pub open spec fn no_columns_decline() -> Seq<char> {
    "an involved table carries no column metadata, so the unaccelerated N-scan fallback cannot be built"@
}

/// The message for sides that do not match the legs.
pub open spec fn count_mismatch_text(legs: nat, sides: nat) -> Seq<char> {
    decline_text(
        "leg count ("@ + decimal(legs) + ") and resolved-side count ("@ + decimal(sides)
            + ") disagree, so a leg index cannot index the resolved sides"@,
    )
}

/// The decline for a join condition.
pub open spec fn condition_decline() -> Seq<char> {
    "a join condition could not be rendered against the qualified N-scan schema"@
}

/// The parts of the `WHERE` of the query over the legs: the conditions that no point of the chain
/// brings into scope, then the filter.
pub open spec fn where_parts(residual: Seq<Seq<char>>, filter: Option<Seq<char>>) -> Seq<
    Seq<char>,
> {
    match filter {
        Some(text) => parenthesized(residual).push("("@ + text + ")"@),
        None => parenthesized(residual),
    }
}

/// The query over the legs.
pub open spec fn joined_query(
    select: Seq<char>,
    from: Seq<char>,
    residual: Seq<Seq<char>>,
    filter: Option<Seq<char>>,
    trailing: Seq<char>,
) -> Seq<char> {
    let parts = where_parts(residual, filter);
    let head = "SELECT "@ + select + " FROM "@ + from;
    if parts.len() == 0 {
        head + trailing
    } else {
        head + " WHERE "@ + joined(parts, " AND "@) + trailing
    }
}

fn assemble_joined_query(
    select: &str,
    from: &str,
    residual: &Vec<String>,
    filter: &Option<String>,
    trailing: &str,
) -> (sql: String)
    ensures
        sql@ == joined_query(
            select@,
            from@,
            residual.deep_view(),
            filter.deep_view(),
            trailing@,
        ),
{
    let mut parts = parenthesize(residual);
    let ghost before = parts.deep_view();
    if let Some(text) = filter {
        let mut part = "(".to_string();
        part.append(text.as_str());
        part.append(")");
        parts.push(part);
        assert(parts.deep_view() =~= before.push(part@));
    }
    let mut sql = "SELECT ".to_string();
    sql.append(select);
    sql.append(" FROM ");
    sql.append(from);
    if parts.len() > 0 {
        sql.append(" WHERE ");
        sql.append(join(&parts, " AND ").as_str());
    }
    sql.append(trailing);
    sql
}

/// The first error among the scans is the error of all of them.
proof fn lemma_fan_outs_error(join: NScanJoinV, n: int, all: int)
    requires
        0 <= n <= all,
        join.fan_outs(n) is Err,
    ensures
        join.fan_outs(all) == join.fan_outs(n),
    decreases all - n,
{
    if n < all {
        lemma_fan_outs_error(join, n + 1, all);
    }
}

/// Writes the query that scans each leg, each with the columns that are referred to and the
/// conjuncts that the leg can apply itself; the conjuncts that the legs hand back come along.
fn build_leg_fan_outs<
    T: Fn(&Json) -> String,
    E: Fn(&Json) -> Option<String>,
    F: Fn(&Json) -> Option<String>,
    P: Fn(&Json) -> bool,
    W: Fn(&Json, &Vec<ColumnType>) -> Option<Json>,
    L: Fn(&Json) -> Option<String>,
    S: Fn(&ResolvedJoinSide) -> Vec<Vec<FileEntry>>,
    G: Fn(&StorageBackend) -> Result<ScanStorage, UserError>,
    D: Fn(&ScanSpec, &Vec<Vec<FileEntry>>, &Vec<String>, Option<u64>) -> String,
>(
    pushdown_req: &Json,
    join: &DetectedJoin,
    sides: &Vec<ResolvedJoinSide>,
    legs: &JoinLegs,
    columns: &Vec<Vec<ColumnType>>,
    leg_eligible: &Option<Json>,
    services: &JoinServices<T, E, F, P, W, L, S, G, D>,
) -> (built: Result<(Vec<String>, Option<Json>), UserError>)
    requires
        services.ready(),
        columns@.len() == sides@.len(),
    ensures
        built matches Ok((fan_outs, _)) ==> fan_outs@.len() == sides@.len(),
        forall|model: NScanJoinV| #[trigger]
            n_scan_inputs(
                model,
                *pushdown_req,
                *join,
                *sides,
                *legs,
                *columns,
                *leg_eligible,
            ) && services.provides(model.services) ==> match built {
                Ok((fan_outs, handed_back)) => model.fan_outs(sides@.len() as int) == Ok::<
                    Seq<Seq<char>>,
                    Seq<char>,
                >(fan_outs.deep_view()) && model.handed_back(sides@.len() as int)
                    == handed_back.deep_view(),
                Err(error) => model.fan_outs(sides@.len() as int) == Err::<
                    Seq<Seq<char>>,
                    Seq<char>,
                >(error@),
            },
{
    let conditions = join.conditions.clone();
    assert(conditions.deep_view() =~= join.conditions.deep_view());
    let all_conditions = Json::Array(conditions);
    let mut fan_outs: Vec<String> = Vec::new();
    let mut handed_back: Option<Json> = None;
    let mut i: usize = 0;
    assert(fan_outs.deep_view() =~= Seq::empty());
    while i < sides.len()
        invariant
            0 <= i <= sides.len(),
            services.ready(),
            columns@.len() == sides@.len(),
            fan_outs@.len() == i,
            all_conditions@ == JsonV::Array(join.conditions.deep_view()),
            forall|model: NScanJoinV| #[trigger]
                n_scan_inputs(
                    model,
                    *pushdown_req,
                    *join,
                    *sides,
                    *legs,
                    *columns,
                    *leg_eligible,
                ) && services.provides(model.services) ==> model.fan_outs(i as int) == Ok::<
                    Seq<Seq<char>>,
                    Seq<char>,
                >(fan_outs.deep_view()) && model.handed_back(i as int) == handed_back.deep_view(),
        decreases sides.len() - i,
    {
        let narrowed = referenced_leg_columns(
            pushdown_req,
            &all_conditions,
            legs,
            i,
            &columns[i],
        );
        let local = match leg_eligible {
            Some(filter) => leg_local_filter(filter, legs, i),
            None => None,
        };
        let (side_filter, side_declined) = match &local {
            Some(tree) => type_screened_leg_filter(tree, &columns[i], &services.scan.rewrite),
            None => (None, None),
        };
        handed_back = conjoin_filters(handed_back, side_declined);
        let ghost before = fan_outs.deep_view();
        match build_side_fan_out_sql(&sides[i], &narrowed, &side_filter, services) {
            Ok(sql) => {
                fan_outs.push(sql);
                assert(fan_outs.deep_view() =~= before.push(sql@));
            },
            Err(error) => {
                proof {
                    assert forall|model: NScanJoinV| #[trigger]
                        n_scan_inputs(
                            model,
                            *pushdown_req,
                            *join,
                            *sides,
                            *legs,
                            *columns,
                            *leg_eligible,
                        ) && services.provides(model.services) implies model.fan_outs(
                        sides@.len() as int,
                    ) == Err::<Seq<Seq<char>>, Seq<char>>(error@) by {
                        assert(columns.deep_view()[i as int] == columns@[i as int].deep_view());
                        assert(model.fan_outs(i + 1) == Err::<Seq<Seq<char>>, Seq<char>>(error@));
                        lemma_fan_outs_error(model, i + 1, sides@.len() as int);
                    }
                }
                return Err(error);
            },
        }
        assert(columns.deep_view()[i as int] == columns@[i as int].deep_view());
        i += 1;
    }
    Ok((fan_outs, handed_back))
}

/// The parts of a join that its scans are built from belong to the model.
spec fn n_scan_inputs(
    model: NScanJoinV,
    pushdown_req: Json,
    join: DetectedJoin,
    sides: Vec<ResolvedJoinSide>,
    legs: JoinLegs,
    columns: Vec<Vec<ColumnType>>,
    leg_eligible: Option<Json>,
) -> bool {
    &&& model.pushdown_req == pushdown_req@
    &&& model.join == join.deep_view()
    &&& model.sides == sides@
    &&& model.legs() == legs@
    &&& model.columns() == columns.deep_view()
    &&& model.leg_eligible() == leg_eligible.deep_view()
}

/// The join that a request asks for, as [`build_n_scan_join_sql`] serves it.
pub open spec fn n_scan_join(
    request: Json,
    pushdown_req: Json,
    join: DetectedJoin,
    sides: Vec<ResolvedJoinSide>,
    services: JoinServicesV,
) -> NScanJoinV {
    NScanJoinV {
        request: request@,
        pushdown_req: pushdown_req@,
        join: join.deep_view(),
        sides: sides@,
        services,
    }
}

fn count_mismatch(legs: usize, sides: usize) -> (error: UserError)
    ensures
        error@ == count_mismatch_text(legs as nat, sides as nat),
{
    let mut clause = "leg count (".to_string();
    clause.append(number_text(legs as u64).as_str());
    clause.append(") and resolved-side count (");
    clause.append(number_text(sides as u64).as_str());
    clause.append(") disagree, so a leg index cannot index the resolved sides");
    join_render_decline(clause.as_str())
}

/// Writes the query that serves every join: each table is scanned by its own query, and the
/// reading engine joins the scans left to right. Every column is qualified by its leg, so shared
/// table and column names are safe.
///
/// A leg applies the conjuncts of the filter that are its own, that the scan dialect can express
/// and that can be rewritten for its column types. Everything else, with the conditions that no
/// point of the chain brings into scope, is applied by the query over the legs. An error means
/// that no correct query exists.
pub fn build_n_scan_join_sql<
    T: Fn(&Json) -> String,
    E: Fn(&Json) -> Option<String>,
    F: Fn(&Json) -> Option<String>,
    P: Fn(&Json) -> bool,
    W: Fn(&Json, &Vec<ColumnType>) -> Option<Json>,
    L: Fn(&Json) -> Option<String>,
    S: Fn(&ResolvedJoinSide) -> Vec<Vec<FileEntry>>,
    G: Fn(&StorageBackend) -> Result<ScanStorage, UserError>,
    D: Fn(&ScanSpec, &Vec<Vec<FileEntry>>, &Vec<String>, Option<u64>) -> String,
>(
    request: &Json,
    pushdown_req: &Json,
    join: &DetectedJoin,
    sides: &Vec<ResolvedJoinSide>,
    services: &JoinServices<T, E, F, P, W, L, S, G, D>,
) -> (sql: Result<String, UserError>)
    requires
        services.ready(),
        join.tables@.len() > 0 || sides@.len() > 0,
    ensures
        forall|m: JoinServicesV| #[trigger]
            services.provides(m) ==> outcome(sql) == n_scan_join(
                *request,
                *pushdown_req,
                *join,
                *sides,
                m,
            ).sql(),
{
    let columns = collect_side_columns(request, sides, &services.exasol_type);
    if some_side_lacks_columns(&columns) {
        return Err(
            join_render_decline(
                "an involved table carries no column metadata, so the unaccelerated N-scan fallback cannot be built",
            ),
        );
    }
    let legs = join.legs();
    if legs.leg_count() != sides.len() {
        return Err(count_mismatch(legs.leg_count(), sides.len()));
    }
    assert(join.tables.deep_view().len() == join.tables.len());
    let conditions = match render_clauses(
        &join.conditions,
        &legs,
        &services.query.expression,
        "a join condition could not be rendered against the qualified N-scan schema",
    ) {
        Ok(conditions) => conditions,
        Err(error) => {
            return Err(error);
        },
    };
    let where_filter = pushdown_req.get_present("filter");
    let leg_eligible = match where_filter {
        Some(filter) => renderable_only(filter, &services.scan.renderable),
        None => None,
    };
    proof {
        assert forall|m: JoinServicesV| #[trigger] services.provides(m) implies n_scan_inputs(
            n_scan_join(*request, *pushdown_req, *join, *sides, m),
            *pushdown_req,
            *join,
            *sides,
            legs,
            columns,
            leg_eligible,
        ) by {}
    }
    let (fan_outs, handed_back) = match build_leg_fan_outs(
        pushdown_req,
        join,
        sides,
        &legs,
        &columns,
        &leg_eligible,
        services,
    ) {
        Ok(built) => built,
        Err(error) => {
            return Err(error);
        },
    };
    let cross_leg = match &leg_eligible {
        Some(filter) => cross_leg_residual_filter(filter, &legs),
        None => None,
    };
    let declined = match where_filter {
        Some(filter) => declined_only(filter, &services.scan.renderable),
        None => None,
    };
    let residual = conjoin_filters(conjoin_filters(cross_leg, declined), handed_back);
    let filter = match &residual {
        Some(tree) => match render_self_applied_where(
            tree,
            &legs,
            "a residual WHERE conjunct",
            &services.query.expression,
            &services.query.filter,
        ) {
            Ok(filter) => filter,
            Err(error) => {
                return Err(error);
            },
        },
        None => None,
    };
    let clauses = match outer_wrapper_clauses(
        pushdown_req,
        &legs,
        &columns,
        &services.query.expression,
    ) {
        Ok(clauses) => clauses,
        Err(error) => {
            return Err(error);
        },
    };
    let (from, residual_conditions) = build_n_scan_join_from(
        &fan_outs,
        &legs,
        &join.conditions,
        &conditions,
    );
    Ok(
        assemble_joined_query(
            clauses.select.as_str(),
            from.as_str(),
            &residual_conditions,
            &filter,
            clauses.trailing.as_str(),
        ),
    )
}

} // verus!
