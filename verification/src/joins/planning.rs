//! Recognising a join, sizing its sides and classifying its window.

use crate::error::{outcome, UserError};
use crate::handed::{callable, computes};
use crate::json::{group_json_views, lemma_field_decreases, Json, JsonV};
use crate::ordering::{extract_limit, extract_offset, limit_of, offset_of, parse_sort_key_element,
    sort_key, ParsedSortKey, ParsedSortKeyV};
use crate::scan::{ColumnType, ColumnTypeV, FileEntry, LogicalField, NameMappingEntry,
    RefusedColumn, StorageBackend};
use crate::text::{ascii_same, eq_ignore_ascii_case, same_text, to_uppercase, uppercase};
use vstd::prelude::*;

verus! {

broadcast use group_json_views;

/// Why a join cannot be served.
#[derive(Debug, Clone, Copy, PartialEq, Eq, Structural)]
pub enum IneligibleJoinReason {
    /// A join node anywhere in the tree is not inner; joining the rows and filtering them cannot
    /// reproduce an outer join.
    NotInnerJoinType,
    UnsupportedShape,
}

/// One occurrence of a table in a join.
#[derive(Debug, Clone, PartialEq)]
pub struct JoinLeaf {
    pub table_name: String,
    /// Verbatim. `None` when the occurrence has no alias, which is an identity of its own.
    pub table_alias: Option<String>,
    /// The catalog identifier, in its original case.
    pub table_identifier: String,
}

/// The value of a [`JoinLeaf`].
#[verifier::ext_equal]
pub struct JoinLeafV {
    pub table_name: Seq<char>,
    pub table_alias: Option<Seq<char>>,
    pub table_identifier: Seq<char>,
}

impl DeepView for JoinLeaf {
    type V = JoinLeafV;

    open spec fn deep_view(&self) -> JoinLeafV {
        JoinLeafV {
            table_name: self.table_name@,
            table_alias: self.table_alias.deep_view(),
            table_identifier: self.table_identifier@,
        }
    }
}

/// The tables of an inner join, left to right, and its conditions. The conditions hold together,
/// so their order is immaterial.
#[derive(Debug, Clone, PartialEq)]
pub struct DetectedJoin {
    pub tables: Vec<JoinLeaf>,
    pub conditions: Vec<Json>,
}

/// The value of a [`DetectedJoin`].
#[verifier::ext_equal]
pub struct DetectedJoinV {
    pub tables: Seq<JoinLeafV>,
    pub conditions: Seq<JsonV>,
}

impl DeepView for DetectedJoin {
    type V = DetectedJoinV;

    open spec fn deep_view(&self) -> DetectedJoinV {
        DetectedJoinV {
            tables: self.tables.deep_view(),
            conditions: self.conditions.deep_view(),
        }
    }
}

/// What the `from` clause of a request is.
#[derive(Debug, Clone, PartialEq)]
pub enum JoinShape {
    NotAJoin,
    Ineligible(IneligibleJoinReason),
    Join(DetectedJoin),
}

/// The value of a [`JoinShape`].
#[verifier::ext_equal]
pub enum JoinShapeV {
    NotAJoin,
    Ineligible(IneligibleJoinReason),
    Join(DetectedJoinV),
}

impl DeepView for JoinShape {
    type V = JoinShapeV;

    open spec fn deep_view(&self) -> JoinShapeV {
        match self {
            JoinShape::NotAJoin => JoinShapeV::NotAJoin,
            JoinShape::Ineligible(reason) => JoinShapeV::Ineligible(*reason),
            JoinShape::Join(join) => JoinShapeV::Join(join.deep_view()),
        }
    }
}

/// A table name and the alias of one of its occurrences.
pub type Occurrence = (Seq<char>, Option<Seq<char>>);

/// The occurrences and the conditions of a join tree.
#[verifier::ext_equal]
pub struct JoinTreeV {
    pub leaves: Seq<Occurrence>,
    pub conditions: Seq<JsonV>,
}

/// Whether a join node is inner.
pub open spec fn is_inner_join(node: JsonV) -> bool {
    match node.text_field("join_type"@) {
        Some(join_type) => ascii_same(join_type, "inner"@),
        None => false,
    }
}

/// The occurrences of a join tree left to right, and its conditions, those of a node after those
/// of the nodes below it.
pub open spec fn join_tree(node: JsonV) -> Result<JoinTreeV, IneligibleJoinReason>
    decreases node,
{
    if node.is_kind("join"@) {
        if !is_inner_join(node) {
            Err(IneligibleJoinReason::NotInnerJoinType)
        } else if node.field("left"@) is Some && node.field("right"@) is Some
            && node.present_field("condition"@) is Some {
            proof {
                lemma_field_decreases(node, "left"@);
                lemma_field_decreases(node, "right"@);
            }
            match join_tree(node.field("left"@)->0) {
                Ok(left) => match join_tree(node.field("right"@)->0) {
                    Ok(right) => Ok(
                        JoinTreeV {
                            leaves: left.leaves + right.leaves,
                            conditions: (left.conditions + right.conditions).push(
                                node.present_field("condition"@)->0,
                            ),
                        },
                    ),
                    Err(reason) => Err(reason),
                },
                Err(reason) => Err(reason),
            }
        } else {
            Err(IneligibleJoinReason::UnsupportedShape)
        }
    } else if node.is_kind("table"@) {
        match node.text_field("name"@) {
            Some(name) => Ok(
                JoinTreeV {
                    leaves: seq![(name, node.text_field("alias"@))],
                    conditions: Seq::empty(),
                },
            ),
            None => Err(IneligibleJoinReason::UnsupportedShape),
        }
    } else {
        Err(IneligibleJoinReason::UnsupportedShape)
    }
}

/// Appends the occurrences and conditions of a join tree.
fn collect_join_tree(
    node: &Json,
    leaves: &mut Vec<(String, Option<String>)>,
    conditions: &mut Vec<Json>,
) -> (outcome: Result<(), IneligibleJoinReason>)
    ensures
        match outcome {
            Ok(()) => join_tree(node@) is Ok && final(leaves).deep_view() == old(leaves).deep_view()
                + join_tree(node@)->Ok_0.leaves && final(conditions).deep_view() == old(
                conditions,
            ).deep_view() + join_tree(node@)->Ok_0.conditions,
            Err(reason) => join_tree(node@) == Err::<JoinTreeV, IneligibleJoinReason>(reason),
        },
    decreases node@,
{
    let ghost leaves_before = leaves.deep_view();
    let ghost conditions_before = conditions.deep_view();
    if node.is_kind("join") {
        let inner = match node.get_str("join_type") {
            Some(join_type) => eq_ignore_ascii_case(join_type, "inner"),
            None => false,
        };
        if !inner {
            return Err(IneligibleJoinReason::NotInnerJoinType);
        }
        let (left, right) = match (node.get("left"), node.get("right")) {
            (Some(left), Some(right)) => (left, right),
            _ => {
                return Err(IneligibleJoinReason::UnsupportedShape);
            },
        };
        let condition = match node.get_present("condition") {
            Some(condition) => condition.clone(),
            None => {
                return Err(IneligibleJoinReason::UnsupportedShape);
            },
        };
        proof {
            lemma_field_decreases(node@, "left"@);
            lemma_field_decreases(node@, "right"@);
        }
        match collect_join_tree(left, leaves, conditions) {
            Ok(()) => {},
            Err(reason) => {
                return Err(reason);
            },
        }
        match collect_join_tree(right, leaves, conditions) {
            Ok(()) => {},
            Err(reason) => {
                return Err(reason);
            },
        }
        let ghost below = conditions.deep_view();
        conditions.push(condition);
        assert(conditions.deep_view() =~= below.push(condition@));
        assert(leaves.deep_view() =~= leaves_before + join_tree(node@)->Ok_0.leaves);
        assert(conditions.deep_view() =~= conditions_before + join_tree(node@)->Ok_0.conditions);
        Ok(())
    } else if node.is_kind("table") {
        match node.get_str("name") {
            Some(name) => {
                let alias = match node.get_str("alias") {
                    Some(alias) => Some(alias.to_string()),
                    None => None,
                };
                let leaf = (name.to_string(), alias);
                leaves.push(leaf);
                assert(leaves.deep_view() =~= leaves_before.push(leaf.deep_view()));
                assert(leaves.deep_view() =~= leaves_before + join_tree(node@)->Ok_0.leaves);
                assert(conditions.deep_view() =~= conditions_before + join_tree(
                    node@,
                )->Ok_0.conditions);
                Ok(())
            },
            None => Err(IneligibleJoinReason::UnsupportedShape),
        }
    } else {
        Err(IneligibleJoinReason::UnsupportedShape)
    }
}

/// The catalog identifier of the first entry for `table`.
pub open spec fn identifier_of(table_map: Seq<(Seq<char>, Seq<char>)>, table: Seq<char>) -> Option<
    Seq<char>,
>
    decreases table_map.len(),
{
    if table_map.len() == 0 {
        None
    } else if table_map[0].0 == table {
        Some(table_map[0].1)
    } else {
        identifier_of(table_map.skip(1), table)
    }
}

fn find_identifier<'a>(table_map: &'a Vec<(String, String)>, table: &str) -> (identifier: Option<
    &'a str,
>)
    ensures
        identifier.deep_view() == identifier_of(table_map.deep_view(), table@),
{
    let ghost views = table_map.deep_view();
    let mut i: usize = 0;
    assert(views.skip(0) =~= views);
    while i < table_map.len()
        invariant
            0 <= i <= table_map.len(),
            views == table_map.deep_view(),
            identifier_of(views, table@) == identifier_of(views.skip(i as int), table@),
        decreases table_map.len() - i,
    {
        assert(views.skip(i as int)[0] == views[i as int]);
        assert(views.skip(i as int).skip(1) =~= views.skip(i + 1));
        if same_text(table_map[i].0.as_str(), table) {
            return Some(table_map[i].1.as_str());
        }
        i += 1;
    }
    None
}

/// The error for a table that the table map does not hold.
pub open spec fn unmapped_table(table: Seq<char>) -> Seq<char> {
    "pushdown: virtual table '"@ + table
        + "' is not in TABLE_MAP; drop and recreate the virtual schema"@
}

/// The occurrences with their catalog identifiers, or the error for the first that has none.
pub open spec fn mapped_leaves(
    leaves: Seq<Occurrence>,
    table_map: Seq<(Seq<char>, Seq<char>)>,
) -> Result<Seq<JoinLeafV>, Seq<char>>
    decreases leaves.len(),
{
    if leaves.len() == 0 {
        Ok(Seq::empty())
    } else {
        match mapped_leaves(leaves.drop_last(), table_map) {
            Ok(mapped) => match identifier_of(table_map, leaves.last().0) {
                Some(identifier) => Ok(
                    mapped.push(
                        JoinLeafV {
                            table_name: leaves.last().0,
                            table_alias: leaves.last().1,
                            table_identifier: identifier,
                        },
                    ),
                ),
                None => Err(unmapped_table(leaves.last().0)),
            },
            Err(message) => Err(message),
        }
    }
}

proof fn lemma_mapped_error(
    leaves: Seq<Occurrence>,
    table_map: Seq<(Seq<char>, Seq<char>)>,
    n: int,
)
    requires
        0 <= n <= leaves.len(),
        mapped_leaves(leaves.take(n), table_map) is Err,
    ensures
        mapped_leaves(leaves, table_map) == mapped_leaves(leaves.take(n), table_map),
    decreases leaves.len() - n,
{
    if n == leaves.len() {
        assert(leaves.take(n) =~= leaves);
    } else {
        assert(leaves.take(n + 1).drop_last() =~= leaves.take(n));
        lemma_mapped_error(leaves, table_map, n + 1);
    }
}

/// What the `from` clause of a request is. A join of mapped tables is served whatever its
/// conditions; a table that the map does not hold is an error, not a decline.
pub open spec fn join_shape(
    pushdown_req: JsonV,
    table_map: Seq<(Seq<char>, Seq<char>)>,
) -> Result<JoinShapeV, Seq<char>> {
    match pushdown_req.field("from"@) {
        Some(from) => if from.is_kind("join"@) {
            match join_tree(from) {
                Ok(tree) => match mapped_leaves(tree.leaves, table_map) {
                    Ok(tables) => Ok(
                        JoinShapeV::Join(DetectedJoinV { tables, conditions: tree.conditions }),
                    ),
                    Err(message) => Err(message),
                },
                Err(reason) => Ok(JoinShapeV::Ineligible(reason)),
            }
        } else {
            Ok(JoinShapeV::NotAJoin)
        },
        None => Ok(JoinShapeV::NotAJoin),
    }
}

/// Recognises a join. `table_map` gives the catalog identifier of each virtual table.
pub fn detect_join(pushdown_req: &Json, table_map: &Vec<(String, String)>) -> (shape: Result<
    JoinShape,
    UserError,
>)
    ensures
        outcome(shape) == join_shape(pushdown_req@, table_map.deep_view()),
{
    let from = match pushdown_req.get("from") {
        Some(from) => from,
        None => {
            return Ok(JoinShape::NotAJoin);
        },
    };
    if !from.is_kind("join") {
        return Ok(JoinShape::NotAJoin);
    }
    let mut leaves: Vec<(String, Option<String>)> = Vec::new();
    let mut conditions: Vec<Json> = Vec::new();
    match collect_join_tree(from, &mut leaves, &mut conditions) {
        Ok(()) => {},
        Err(reason) => {
            return Ok(JoinShape::Ineligible(reason));
        },
    }
    let ghost occurrences = join_tree(from@)->Ok_0.leaves;
    assert(leaves.deep_view() =~= occurrences);
    assert(conditions.deep_view() =~= join_tree(from@)->Ok_0.conditions);
    let mut tables: Vec<JoinLeaf> = Vec::new();
    let mut i: usize = 0;
    assert(tables.deep_view() =~= Seq::empty());
    while i < leaves.len()
        invariant
            0 <= i <= leaves.len(),
            occurrences == leaves.deep_view(),
            pushdown_req@.field("from"@) == Some(from@),
            from@.is_kind("join"@),
            join_tree(from@) is Ok,
            occurrences == join_tree(from@)->Ok_0.leaves,
            mapped_leaves(occurrences.take(i as int), table_map.deep_view()) == Ok::<
                Seq<JoinLeafV>,
                Seq<char>,
            >(tables.deep_view()),
        decreases leaves.len() - i,
    {
        assert(occurrences.take(i + 1).drop_last() =~= occurrences.take(i as int));
        let ghost before = tables.deep_view();
        match find_identifier(table_map, leaves[i].0.as_str()) {
            Some(identifier) => {
                let table_alias = match &leaves[i].1 {
                    Some(alias) => Some(alias.clone()),
                    None => None,
                };
                let leaf = JoinLeaf {
                    table_name: leaves[i].0.clone(),
                    table_alias,
                    table_identifier: identifier.to_string(),
                };
                tables.push(leaf);
                assert(tables.deep_view() =~= before.push(leaf.deep_view()));
            },
            None => {
                let mut message = "pushdown: virtual table '".to_string();
                message.append(leaves[i].0.as_str());
                message.append("' is not in TABLE_MAP; drop and recreate the virtual schema");
                proof {
                    lemma_mapped_error(occurrences, table_map.deep_view(), i + 1);
                }
                return Err(UserError { message });
            },
        }
        i += 1;
    }
    assert(occurrences.take(i as int) =~= occurrences);
    Ok(JoinShape::Join(DetectedJoin { tables, conditions }))
}

/// What the catalog knows of a table's current state.
#[derive(Debug, Clone, PartialEq)]
pub struct ResolvedScan {
    pub files: Vec<FileEntry>,
    pub effective_storage: StorageBackend,
    pub logical_schema: Vec<LogicalField>,
    pub table_root: String,
    pub name_mapping: Vec<NameMappingEntry>,
    pub partition_columns: Vec<String>,
    pub refused_columns: Vec<RefusedColumn>,
}

/// One resolved side of a join.
#[derive(Debug, Clone, PartialEq)]
pub struct ResolvedJoinSide {
    pub table_name: String,
    pub table_identifier: String,
    /// Empty when every path in `files` is absolute.
    pub table_root: String,
    pub files: Vec<FileEntry>,
    pub logical_schema: Vec<LogicalField>,
    pub name_mapping: Vec<NameMappingEntry>,
    pub effective_storage: StorageBackend,
    pub partition_columns: Vec<String>,
    /// The size that the broadcast threshold is compared with.
    pub total_bytes: u64,
    /// Per side: a refusal belongs to the table that raised it.
    pub refused_columns: Vec<RefusedColumn>,
}

/// The sizes of files, added up.
pub open spec fn total_size(files: Seq<FileEntry>) -> nat
    decreases files.len(),
{
    if files.len() == 0 {
        0
    } else {
        total_size(files.drop_last()) + files.last().size as nat
    }
}

/// A number of bytes, clamped to what a `u64` can hold.
pub open spec fn clamped(bytes: nat) -> u64 {
    if bytes <= u64::MAX {
        bytes as u64
    } else {
        u64::MAX
    }
}

impl ResolvedJoinSide {
    /// A side whose size is the sum of its file sizes. A sum that does not fit is the largest
    /// `u64`, which is over any threshold below it.
    pub fn new(
        table_name: String,
        table_identifier: String,
        resolved: ResolvedScan,
    ) -> (side: ResolvedJoinSide)
        ensures
            side == (ResolvedJoinSide {
                table_name,
                table_identifier,
                table_root: resolved.table_root,
                files: resolved.files,
                logical_schema: resolved.logical_schema,
                name_mapping: resolved.name_mapping,
                effective_storage: resolved.effective_storage,
                partition_columns: resolved.partition_columns,
                total_bytes: clamped(total_size(resolved.files@)),
                refused_columns: resolved.refused_columns,
            }),
    {
        let mut total_bytes: u64 = 0;
        let mut i: usize = 0;
        while i < resolved.files.len()
            invariant
                0 <= i <= resolved.files.len(),
                total_bytes == clamped(total_size(resolved.files@.take(i as int))),
            decreases resolved.files.len() - i,
        {
            assert(resolved.files@.take(i + 1).drop_last() =~= resolved.files@.take(i as int));
            total_bytes = total_bytes.saturating_add(resolved.files[i].size);
            i += 1;
        }
        assert(resolved.files@.take(i as int) =~= resolved.files@);
        ResolvedJoinSide {
            table_name,
            table_identifier,
            table_root: resolved.table_root,
            files: resolved.files,
            logical_schema: resolved.logical_schema,
            name_mapping: resolved.name_mapping,
            effective_storage: resolved.effective_storage,
            partition_columns: resolved.partition_columns,
            total_bytes,
            refused_columns: resolved.refused_columns,
        }
    }
}

/// The roles of the two sides of a join.
#[derive(Debug, Clone, PartialEq)]
pub struct JoinSides {
    /// The larger side, which is sharded.
    pub fact: ResolvedJoinSide,
    /// The smaller side, which may be broadcast.
    pub dimension: ResolvedJoinSide,
    pub broadcast_eligible: bool,
}

/// The roles of two sides: the smaller is the dimension, `a` when the sizes are equal. A dimension
/// up to and including the threshold may be broadcast.
pub open spec fn broadcast_roles(
    a: ResolvedJoinSide,
    b: ResolvedJoinSide,
    join_broadcast_max_bytes: u64,
) -> JoinSides {
    if a.total_bytes <= b.total_bytes {
        JoinSides {
            fact: b,
            dimension: a,
            broadcast_eligible: a.total_bytes <= join_broadcast_max_bytes,
        }
    } else {
        JoinSides {
            fact: a,
            dimension: b,
            broadcast_eligible: b.total_bytes <= join_broadcast_max_bytes,
        }
    }
}

/// Gives two sides their roles.
pub fn select_broadcast_sides(
    a: ResolvedJoinSide,
    b: ResolvedJoinSide,
    join_broadcast_max_bytes: u64,
) -> (sides: JoinSides)
    ensures
        sides == broadcast_roles(a, b, join_broadcast_max_bytes),
{
    let (dimension, fact) = if a.total_bytes <= b.total_bytes {
        (a, b)
    } else {
        (b, a)
    };
    let broadcast_eligible = dimension.total_bytes <= join_broadcast_max_bytes;
    JoinSides { fact, dimension, broadcast_eligible }
}

/// The first of the tables that is called `name`.
pub open spec fn table_named(tables: Seq<JsonV>, name: Seq<char>) -> Option<JsonV>
    decreases tables.len(),
{
    if tables.len() == 0 {
        None
    } else if tables[0].text_field("name"@) == Some(name) {
        Some(tables[0])
    } else {
        table_named(tables.skip(1), name)
    }
}

/// The uppercase name and the Exasol type of a declared column.
pub open spec fn declared_column(column: JsonV, exasol_type: spec_fn(JsonV) -> Seq<char>) -> Option<
    ColumnTypeV,
> {
    match (column.text_field("name"@), column.field("dataType"@)) {
        (Some(name), Some(data_type)) => Some((uppercase(name), exasol_type(data_type))),
        _ => None,
    }
}

/// The columns that a list declares.
pub open spec fn declared_columns(
    columns: Seq<JsonV>,
    exasol_type: spec_fn(JsonV) -> Seq<char>,
) -> Seq<ColumnTypeV> {
    columns.filter_map(|column: JsonV| declared_column(column, exasol_type))
}

/// The columns that a request declares for a table; none when it does not know the table.
pub open spec fn table_columns(
    request: JsonV,
    table: Seq<char>,
    exasol_type: spec_fn(JsonV) -> Seq<char>,
) -> Seq<ColumnTypeV> {
    match request.items_field("involvedTables"@) {
        Some(tables) => match table_named(tables, table) {
            Some(found) => match found.items_field("columns"@) {
                Some(columns) => declared_columns(columns, exasol_type),
                None => Seq::empty(),
            },
            None => Seq::empty(),
        },
        None => Seq::empty(),
    }
}

fn find_table<'a>(tables: &'a Vec<Json>, name: &str) -> (table: Option<&'a Json>)
    ensures
        table.deep_view() == table_named(tables.deep_view(), name@),
{
    let ghost views = tables.deep_view();
    let mut i: usize = 0;
    assert(views.skip(0) =~= views);
    while i < tables.len()
        invariant
            0 <= i <= tables.len(),
            views == tables.deep_view(),
            table_named(views, name@) == table_named(views.skip(i as int), name@),
        decreases tables.len() - i,
    {
        assert(views.skip(i as int)[0] == views[i as int]);
        assert(views.skip(i as int).skip(1) =~= views.skip(i + 1));
        if let Some(text) = tables[i].get_str("name") {
            if same_text(text, name) {
                return Some(&tables[i]);
            }
        }
        i += 1;
    }
    None
}

/// Reads the columns that a request declares for a table, their names uppercased and their types
/// named by `exasol_type`.
pub fn involved_table_columns<T: Fn(&Json) -> String>(
    request: &Json,
    table_name: &str,
    exasol_type: &T,
) -> (columns: Vec<ColumnType>)
    requires
        callable(*exasol_type),
    ensures
        forall|g: spec_fn(JsonV) -> Seq<char>| #[trigger]
            computes(*exasol_type, g) ==> columns.deep_view() == table_columns(
                request@,
                table_name@,
                g,
            ),
{
    let mut columns: Vec<ColumnType> = Vec::new();
    assert(columns.deep_view() =~= Seq::empty());
    let declared = match request.get_array("involvedTables") {
        Some(tables) => match find_table(tables, table_name) {
            Some(table) => match table.get_array("columns") {
                Some(declared) => declared,
                None => {
                    return columns;
                },
            },
            None => {
                return columns;
            },
        },
        None => {
            return columns;
        },
    };
    let ghost views = declared.deep_view();
    let mut i: usize = 0;
    while i < declared.len()
        invariant
            0 <= i <= declared.len(),
            views == declared.deep_view(),
            callable(*exasol_type),
            forall|g: spec_fn(JsonV) -> Seq<char>| #[trigger]
                computes(*exasol_type, g) ==> columns.deep_view() == declared_columns(
                    views.take(i as int),
                    g,
                ),
        decreases declared.len() - i,
    {
        assert(views.take(i + 1).drop_last() =~= views.take(i as int));
        let ghost before = columns.deep_view();
        if let (Some(name), Some(data_type)) = (
            declared[i].get_str("name"),
            declared[i].get("dataType"),
        ) {
            let column = (to_uppercase(name), exasol_type(data_type));
            columns.push(column);
            assert(columns.deep_view() =~= before + seq![column.deep_view()]);
        }
        i += 1;
    }
    assert(views.take(i as int) =~= views);
    columns
}

/// Whether no column name appears on both sides.
pub open spec fn disjoint_names(left: Seq<ColumnTypeV>, right: Seq<ColumnTypeV>) -> bool {
    forall|i: int, j: int|
        0 <= i < left.len() && 0 <= j < right.len() ==> (#[trigger] left[i]).0 != (
        #[trigger] right[j]).0
}

/// Tests whether no column name appears on both sides. Only then do bare column names resolve
/// unambiguously against both sides together.
pub fn disjoint_schema_guard(left: &Vec<ColumnType>, right: &Vec<ColumnType>) -> (disjoint: bool)
    ensures
        disjoint == disjoint_names(left.deep_view(), right.deep_view()),
{
    let ghost a = left.deep_view();
    let ghost b = right.deep_view();
    let mut i: usize = 0;
    while i < left.len()
        invariant
            0 <= i <= left.len(),
            a == left.deep_view(),
            b == right.deep_view(),
            forall|k: int, l: int|
                0 <= k < i && 0 <= l < b.len() ==> (#[trigger] a[k]).0 != (#[trigger] b[l]).0,
        decreases left.len() - i,
    {
        let mut j: usize = 0;
        while j < right.len()
            invariant
                i < left.len(),
                0 <= j <= right.len(),
                a == left.deep_view(),
                b == right.deep_view(),
                forall|l: int| 0 <= l < j ==> a[i as int].0 != (#[trigger] b[l]).0,
            decreases right.len() - j,
        {
            if same_text(left[i].0.as_str(), right[j].0.as_str()) {
                assert(a[i as int].0 == b[j as int].0);
                return false;
            }
            j += 1;
        }
        i += 1;
    }
    true
}

/// Whether some item of a select list is an aggregate.
pub open spec fn has_aggregate_item(items: Seq<JsonV>) -> bool {
    exists|i: int| 0 <= i < items.len() && (#[trigger] items[i]).is_kind("function_aggregate"@)
}

/// Whether a request aggregates: by an aggregate item, by group keys, by its aggregation type or
/// by a `HAVING`.
pub open spec fn aggregates(pushdown_req: JsonV) -> bool {
    ||| pushdown_req.items_field("selectList"@) matches Some(items) && has_aggregate_item(items)
    ||| pushdown_req.nonempty_items_field("groupBy"@) is Some
    ||| pushdown_req.text_field("aggregationType"@) == Some("group_by"@)
    ||| pushdown_req.present_field("having"@) is Some
}

fn carries_aggregation_clause(pushdown_req: &Json) -> (yes: bool)
    ensures
        yes == aggregates(pushdown_req@),
{
    let mut has_aggregate: bool = false;
    if let Some(items) = pushdown_req.get_array("selectList") {
        let ghost views = items.deep_view();
        let mut i: usize = 0;
        while i < items.len()
            invariant
                0 <= i <= items.len(),
                views == items.deep_view(),
                has_aggregate == (exists|j: int|
                    0 <= j < i && (#[trigger] views[j]).is_kind("function_aggregate"@)),
            decreases items.len() - i,
        {
            if items[i].is_kind("function_aggregate") {
                assert(views[i as int].is_kind("function_aggregate"@));
                has_aggregate = true;
            }
            i += 1;
        }
        assert(has_aggregate == has_aggregate_item(views));
    }
    let has_group_by = pushdown_req.get_nonempty_array("groupBy").is_some();
    let is_group_by_aggregation = match pushdown_req.get_str("aggregationType") {
        Some(aggregation) => same_text(aggregation, "group_by"),
        None => false,
    };
    let has_having = pushdown_req.get_present("having").is_some();
    has_aggregate || has_group_by || is_group_by_aggregation || has_having
}

/// How the sort order and the row window of a join are served.
#[derive(Debug, PartialEq)]
pub enum JoinWindowPlan {
    Unbounded,
    /// Every shard truncates at the limit, and so does the merge.
    BareLimit(u64),
    /// Served by an outer query over the merged rows; an offset per shard would skip the first
    /// rows of each shard.
    Ordered { keys: Vec<ParsedSortKey>, limit: Option<u64>, offset: u64 },
    /// Left to the engine that reads the joined rows.
    ExasolPostProcessed,
}

/// The value of a [`JoinWindowPlan`].
#[verifier::ext_equal]
pub enum JoinWindowPlanV {
    Unbounded,
    BareLimit(u64),
    Ordered { keys: Seq<ParsedSortKeyV>, limit: Option<u64>, offset: u64 },
    ExasolPostProcessed,
}

impl DeepView for JoinWindowPlan {
    type V = JoinWindowPlanV;

    open spec fn deep_view(&self) -> JoinWindowPlanV {
        match self {
            JoinWindowPlan::Unbounded => JoinWindowPlanV::Unbounded,
            JoinWindowPlan::BareLimit(rows) => JoinWindowPlanV::BareLimit(*rows),
            JoinWindowPlan::Ordered { keys, limit, offset } => JoinWindowPlanV::Ordered {
                keys: keys.deep_view(),
                limit: *limit,
                offset: *offset,
            },
            JoinWindowPlan::ExasolPostProcessed => JoinWindowPlanV::ExasolPostProcessed,
        }
    }
}

/// The sort keys of `orderBy` elements, when each sorts by a bare column.
pub open spec fn column_sort_keys(elements: Seq<JsonV>) -> Option<Seq<ParsedSortKeyV>>
    decreases elements.len(),
{
    if elements.len() == 0 {
        Some(Seq::empty())
    } else {
        match (column_sort_keys(elements.drop_last()), sort_key(elements.last())) {
            (Some(keys), Some(key)) => Some(keys.push(ParsedSortKeyV::Column(key))),
            _ => None,
        }
    }
}

proof fn lemma_no_sort_keys(elements: Seq<JsonV>, n: int)
    requires
        0 <= n <= elements.len(),
        column_sort_keys(elements.take(n)) is None,
    ensures
        column_sort_keys(elements) is None,
    decreases elements.len() - n,
{
    if n == elements.len() {
        assert(elements.take(n) =~= elements);
    } else {
        assert(elements.take(n + 1).drop_last() =~= elements.take(n));
        lemma_no_sort_keys(elements, n + 1);
    }
}

/// How the window of a request is served. An aggregation, an expression sort key, and an offset
/// without a sort order are left to the reading engine.
pub open spec fn join_window(pushdown_req: JsonV) -> JoinWindowPlanV {
    if aggregates(pushdown_req) {
        JoinWindowPlanV::ExasolPostProcessed
    } else {
        let limit = limit_of(pushdown_req);
        let offset = offset_of(pushdown_req);
        match pushdown_req.nonempty_items_field("orderBy"@) {
            Some(elements) => match column_sort_keys(elements) {
                Some(keys) => JoinWindowPlanV::Ordered { keys, limit, offset },
                None => JoinWindowPlanV::ExasolPostProcessed,
            },
            None => if offset != 0 {
                JoinWindowPlanV::ExasolPostProcessed
            } else {
                match limit {
                    Some(rows) => JoinWindowPlanV::BareLimit(rows),
                    None => JoinWindowPlanV::Unbounded,
                }
            },
        }
    }
}

/// Classifies how the window of a request is served.
pub fn classify_join_window(pushdown_req: &Json) -> (window: JoinWindowPlan)
    ensures
        window.deep_view() == join_window(pushdown_req@),
{
    if carries_aggregation_clause(pushdown_req) {
        return JoinWindowPlan::ExasolPostProcessed;
    }
    let limit = extract_limit(pushdown_req);
    let offset: u64 = extract_offset(pushdown_req);
    let elements = match pushdown_req.get_nonempty_array("orderBy") {
        Some(elements) => elements,
        None => {
            if offset != 0 {
                return JoinWindowPlan::ExasolPostProcessed;
            }
            return match limit {
                Some(rows) => JoinWindowPlan::BareLimit(rows),
                None => JoinWindowPlan::Unbounded,
            };
        },
    };
    let ghost views = elements.deep_view();
    let mut keys: Vec<ParsedSortKey> = Vec::new();
    let mut i: usize = 0;
    assert(keys.deep_view() =~= Seq::empty());
    while i < elements.len()
        invariant
            0 <= i <= elements.len(),
            views == elements.deep_view(),
            !aggregates(pushdown_req@),
            pushdown_req@.nonempty_items_field("orderBy"@) == Some(views),
            column_sort_keys(views.take(i as int)) == Some(keys.deep_view()),
        decreases elements.len() - i,
    {
        assert(views.take(i + 1).drop_last() =~= views.take(i as int));
        let ghost before = keys.deep_view();
        match parse_sort_key_element(&elements[i]) {
            Some(key) => {
                keys.push(ParsedSortKey::Column(key));
                assert(keys.deep_view() =~= before.push(
                    ParsedSortKeyV::Column(key.deep_view()),
                ));
            },
            None => {
                proof {
                    lemma_no_sort_keys(views, i + 1);
                }
                return JoinWindowPlan::ExasolPostProcessed;
            },
        }
        i += 1;
    }
    assert(views.take(i as int) =~= views);
    JoinWindowPlan::Ordered { keys, limit, offset }
}

} // verus!
