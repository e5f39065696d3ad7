//! What a scan is asked to do.

use crate::aggregates::{AggregatePlan, AggregatePlanV};
use crate::ordering::{SortKey, SortKeyV};
use crate::text::{quote_ident, quoted, same_text};
use vstd::prelude::*;

verus! {

/// A data file of a table and the positional delete files that apply to it.
#[derive(Debug, PartialEq, Eq)]
pub struct FileEntry {
    pub path: String,
    pub size: u64,
    pub deletes: Vec<String>,
}

/// The value of a [`FileEntry`].
#[verifier::ext_equal]
pub struct FileEntryV {
    pub path: Seq<char>,
    pub size: u64,
    pub deletes: Seq<Seq<char>>,
}

impl DeepView for FileEntry {
    type V = FileEntryV;

    open spec fn deep_view(&self) -> FileEntryV {
        FileEntryV { path: self.path@, size: self.size, deletes: self.deletes.deep_view() }
    }
}

impl Clone for FileEntry {
    fn clone(&self) -> (copy: FileEntry)
        ensures
            copy.deep_view() == self.deep_view(),
    {
        let deletes = self.deletes.clone();
        assert(deletes.deep_view() =~= self.deletes.deep_view());
        FileEntry { path: self.path.clone(), size: self.size, deletes }
    }
}

/// Copies files.
pub fn copied_files(files: &Vec<FileEntry>) -> (copies: Vec<FileEntry>)
    ensures
        copies.deep_view() == files.deep_view(),
{
    let copies = files.clone();
    assert forall|i: int| 0 <= i < files@.len() implies copies.deep_view()[i]
        == files.deep_view()[i] by {
        assert(cloned::<FileEntry>(files@[i], copies@[i]));
    }
    assert(copies.deep_view() =~= files.deep_view());
    copies
}

impl FileEntry {
    /// A data file that no delete file applies to.
    pub fn new(path: &str, size: u64) -> (entry: FileEntry)
        ensures
            entry.deep_view() == (FileEntryV { path: path@, size, deletes: Seq::empty() }),
    {
        let entry = FileEntry { path: path.to_string(), size, deletes: Vec::new() };
        assert(entry.deletes.deep_view() =~= Seq::empty());
        entry
    }
}

/// A field of the logical schema of a table.
#[derive(Debug, PartialEq, Eq)]
pub struct LogicalField {
    pub field_id: Option<i32>,
    pub name: String,
    pub arrow_type: String,
    pub nullable: bool,
    pub initial_default: Option<String>,
    pub physical_name: Option<String>,
}

impl Clone for LogicalField {
    fn clone(&self) -> (copy: LogicalField)
        ensures
            copy == *self,
    {
        LogicalField {
            field_id: self.field_id,
            name: self.name.clone(),
            arrow_type: self.arrow_type.clone(),
            nullable: self.nullable,
            initial_default: self.initial_default.clone(),
            physical_name: self.physical_name.clone(),
        }
    }
}

/// A name under which data files may know a field.
#[derive(Debug, PartialEq, Eq)]
pub struct NameMappingEntry {
    pub field_id: i32,
    pub name: String,
}

impl Clone for NameMappingEntry {
    fn clone(&self) -> (copy: NameMappingEntry)
        ensures
            copy == *self,
    {
        NameMappingEntry { field_id: self.field_id, name: self.name.clone() }
    }
}

/// How an object store is reached.
#[derive(Debug, PartialEq, Eq)]
pub struct StorageProps {
    pub endpoint: String,
    pub region: String,
    pub access_key: String,
    pub secret_key: String,
    pub allow_http: bool,
    pub path_style: bool,
}

impl Clone for StorageProps {
    fn clone(&self) -> (copy: StorageProps)
        ensures
            copy == *self,
    {
        StorageProps {
            endpoint: self.endpoint.clone(),
            region: self.region.clone(),
            access_key: self.access_key.clone(),
            secret_key: self.secret_key.clone(),
            allow_http: self.allow_http,
            path_style: self.path_style,
        }
    }
}

/// The store that holds the files of a table.
#[derive(Debug, PartialEq, Eq)]
pub enum StorageBackend {
    S3(StorageProps),
}

impl Clone for StorageBackend {
    fn clone(&self) -> (copy: StorageBackend)
        ensures
            copy == *self,
    {
        match self {
            StorageBackend::S3(props) => StorageBackend::S3(props.clone()),
        }
    }
}

/// How a scan learns of the store it reads: from a connection, from a sealed payload, or inline.
#[derive(Debug, PartialEq, Eq)]
pub enum ScanStorage {
    Connection { name: String, allow_http: bool },
    Sealed { connection: String, payload: String },
    Inline(StorageBackend),
}

impl Clone for ScanStorage {
    fn clone(&self) -> (copy: ScanStorage)
        ensures
            copy == *self,
    {
        match self {
            ScanStorage::Connection { name, allow_http } => ScanStorage::Connection {
                name: name.clone(),
                allow_http: *allow_http,
            },
            ScanStorage::Sealed { connection, payload } => ScanStorage::Sealed {
                connection: connection.clone(),
                payload: payload.clone(),
            },
            ScanStorage::Inline(backend) => ScanStorage::Inline(backend.clone()),
        }
    }
}

/// A column that the reader of a table cannot map, and why.
#[derive(Debug, Clone, PartialEq, Eq)]
pub struct RefusedColumn {
    pub name: String,
    pub reason: String,
}

/// Resource settings of a scan, handed on as they are. The memory pool fraction is kept as the
/// bits of its double-precision value.
#[derive(Debug, Clone, Copy, PartialEq, Eq, Structural)]
pub struct ScanTuning {
    pub df_target_partitions: usize,
    pub df_batch_size: usize,
    pub df_threads_per_udf: usize,
    pub memory_pool_fraction_bits: u64,
    pub instance_overhead_mb: u64,
    pub s3_max_connections: usize,
}

/// One item of a projection: a column by name, or a rendered expression.
#[derive(Debug, PartialEq, Eq)]
pub enum ProjectionItem {
    Column(String),
    Expr { expr: String },
}

/// The value of a [`ProjectionItem`].
#[verifier::ext_equal]
pub enum ProjectionItemV {
    Column(Seq<char>),
    Expr { expr: Seq<char> },
}

impl DeepView for ProjectionItem {
    type V = ProjectionItemV;

    open spec fn deep_view(&self) -> ProjectionItemV {
        match self {
            ProjectionItem::Column(name) => ProjectionItemV::Column(name@),
            ProjectionItem::Expr { expr } => ProjectionItemV::Expr { expr: expr@ },
        }
    }
}

impl Clone for ProjectionItem {
    fn clone(&self) -> (copy: ProjectionItem)
        ensures
            copy == *self,
    {
        match self {
            ProjectionItem::Column(name) => ProjectionItem::Column(name.clone()),
            ProjectionItem::Expr { expr } => ProjectionItem::Expr { expr: expr.clone() },
        }
    }
}

/// Copies a projection.
pub fn copied_projection(items: &Vec<ProjectionItem>) -> (copies: Vec<ProjectionItem>)
    ensures
        copies.deep_view() == items.deep_view(),
{
    let copies = items.clone();
    assert(copies.deep_view() =~= items.deep_view());
    copies
}

/// The SQL of a projection item.
pub open spec fn item_sql(item: ProjectionItemV) -> Seq<char> {
    match item {
        ProjectionItemV::Column(name) => quoted(name),
        ProjectionItemV::Expr { expr } => expr,
    }
}

/// Renders a projection item.
pub fn projection_item_select_sql(item: &ProjectionItem) -> (sql: String)
    ensures
        sql@ == item_sql(item.deep_view()),
{
    match item {
        ProjectionItem::Column(name) => quote_ident(name.as_str()),
        ProjectionItem::Expr { expr } => expr.clone(),
    }
}

/// How the two sides of a join are combined.
#[derive(Debug, Clone, Copy, PartialEq, Eq, Structural)]
pub enum JoinType {
    Inner,
}

/// The broadcast side of a join.
#[derive(Debug, PartialEq, Eq)]
pub struct JoinSpec {
    pub table_root: String,
    pub files: Vec<FileEntry>,
    pub logical_schema: Vec<LogicalField>,
    pub name_mapping: Vec<NameMappingEntry>,
    pub join_type: JoinType,
    pub condition: String,
    /// Caps the joined rows of each shard.
    pub post_join_limit: Option<u64>,
    pub partition_columns: Vec<String>,
    pub storage: ScanStorage,
}

/// The value of a [`JoinSpec`].
#[verifier::ext_equal]
pub struct JoinSpecV {
    pub table_root: Seq<char>,
    pub files: Seq<FileEntryV>,
    pub logical_schema: Seq<LogicalField>,
    pub name_mapping: Seq<NameMappingEntry>,
    pub join_type: JoinType,
    pub condition: Seq<char>,
    pub post_join_limit: Option<u64>,
    pub partition_columns: Seq<Seq<char>>,
    pub storage: ScanStorage,
}

impl DeepView for JoinSpec {
    type V = JoinSpecV;

    open spec fn deep_view(&self) -> JoinSpecV {
        JoinSpecV {
            table_root: self.table_root@,
            files: self.files.deep_view(),
            logical_schema: self.logical_schema@,
            name_mapping: self.name_mapping@,
            join_type: self.join_type,
            condition: self.condition@,
            post_join_limit: self.post_join_limit,
            partition_columns: self.partition_columns.deep_view(),
            storage: self.storage,
        }
    }
}

impl Clone for JoinSpec {
    fn clone(&self) -> (copy: JoinSpec)
        ensures
            copy.deep_view() == self.deep_view(),
    {
        let logical_schema = self.logical_schema.clone();
        let name_mapping = self.name_mapping.clone();
        let partition_columns = self.partition_columns.clone();
        assert(logical_schema@ =~= self.logical_schema@);
        assert(name_mapping@ =~= self.name_mapping@);
        assert(partition_columns.deep_view() =~= self.partition_columns.deep_view());
        JoinSpec {
            table_root: self.table_root.clone(),
            files: copied_files(&self.files),
            logical_schema,
            name_mapping,
            join_type: self.join_type,
            condition: self.condition.clone(),
            post_join_limit: self.post_join_limit,
            partition_columns,
            storage: self.storage.clone(),
        }
    }
}

/// Copies the broadcast side of a join.
pub fn copied_join(join: &Option<JoinSpec>) -> (copy: Option<JoinSpec>)
    ensures
        copy.deep_view() == join.deep_view(),
{
    match join {
        Some(spec) => Some(spec.clone()),
        None => None,
    }
}

/// What every shard of a scan is told.
#[derive(Debug, PartialEq, Eq)]
pub struct CommonScanSpec {
    pub table_root: String,
    pub projection: Vec<ProjectionItem>,
    pub filter: Option<String>,
    pub limit: Option<u64>,
    pub order_by: Vec<SortKey>,
    pub aggregates: Option<Vec<AggregatePlan>>,
    pub group_keys: Option<Vec<String>>,
    pub distinct: bool,
    pub logical_schema: Vec<LogicalField>,
    pub name_mapping: Vec<NameMappingEntry>,
    pub join: Option<JoinSpec>,
    pub partition_columns: Vec<String>,
    pub storage: ScanStorage,
    pub tuning: ScanTuning,
}

/// The value of a [`CommonScanSpec`].
#[verifier::ext_equal]
pub struct CommonScanSpecV {
    pub table_root: Seq<char>,
    pub projection: Seq<ProjectionItemV>,
    pub filter: Option<Seq<char>>,
    pub limit: Option<u64>,
    pub order_by: Seq<SortKeyV>,
    pub aggregates: Option<Seq<AggregatePlanV>>,
    pub group_keys: Option<Seq<Seq<char>>>,
    pub distinct: bool,
    pub logical_schema: Seq<LogicalField>,
    pub name_mapping: Seq<NameMappingEntry>,
    pub join: Option<JoinSpecV>,
    pub partition_columns: Seq<Seq<char>>,
    pub storage: ScanStorage,
    pub tuning: ScanTuning,
}

impl DeepView for CommonScanSpec {
    type V = CommonScanSpecV;

    open spec fn deep_view(&self) -> CommonScanSpecV {
        CommonScanSpecV {
            table_root: self.table_root@,
            projection: self.projection.deep_view(),
            filter: self.filter.deep_view(),
            limit: self.limit,
            order_by: self.order_by.deep_view(),
            aggregates: self.aggregates.deep_view(),
            group_keys: self.group_keys.deep_view(),
            distinct: self.distinct,
            logical_schema: self.logical_schema@,
            name_mapping: self.name_mapping@,
            join: self.join.deep_view(),
            partition_columns: self.partition_columns.deep_view(),
            storage: self.storage,
            tuning: self.tuning,
        }
    }
}

impl Clone for CommonScanSpec {
    fn clone(&self) -> (copy: CommonScanSpec)
        ensures
            copy.deep_view() == self.deep_view(),
    {
        let order_by = self.order_by.clone();
        let aggregates = match &self.aggregates {
            Some(plans) => Some(plans.clone()),
            None => None,
        };
        let group_keys = match &self.group_keys {
            Some(keys) => Some(keys.clone()),
            None => None,
        };
        let logical_schema = self.logical_schema.clone();
        let name_mapping = self.name_mapping.clone();
        let partition_columns = self.partition_columns.clone();
        assert(order_by.deep_view() =~= self.order_by.deep_view());
        assert(aggregates is Some ==> aggregates->0.deep_view() =~= self.aggregates->0.deep_view());
        assert(group_keys is Some ==> group_keys->0.deep_view() =~= self.group_keys->0.deep_view());
        assert(logical_schema@ =~= self.logical_schema@);
        assert(name_mapping@ =~= self.name_mapping@);
        assert(partition_columns.deep_view() =~= self.partition_columns.deep_view());
        CommonScanSpec {
            table_root: self.table_root.clone(),
            projection: copied_projection(&self.projection),
            filter: self.filter.clone(),
            limit: self.limit,
            order_by,
            aggregates,
            group_keys,
            distinct: self.distinct,
            logical_schema,
            name_mapping,
            join: copied_join(&self.join),
            partition_columns,
            storage: self.storage.clone(),
            tuning: self.tuning,
        }
    }
}

/// A scan: what every shard is told, and the files of this one.
#[derive(Debug, PartialEq, Eq)]
pub struct ScanSpec {
    pub common: CommonScanSpec,
    pub files: Vec<FileEntry>,
}

/// The value of a [`ScanSpec`].
#[verifier::ext_equal]
pub struct ScanSpecV {
    pub common: CommonScanSpecV,
    pub files: Seq<FileEntryV>,
}

impl DeepView for ScanSpec {
    type V = ScanSpecV;

    open spec fn deep_view(&self) -> ScanSpecV {
        ScanSpecV { common: self.common.deep_view(), files: self.files.deep_view() }
    }
}

impl Clone for ScanSpec {
    fn clone(&self) -> (copy: ScanSpec)
        ensures
            copy.deep_view() == self.deep_view(),
    {
        ScanSpec { common: self.common.clone(), files: copied_files(&self.files) }
    }
}

/// A column name and its Exasol type.
pub type ColumnType = (String, String);

/// The value of a [`ColumnType`].
pub type ColumnTypeV = (Seq<char>, Seq<char>);

/// The names of columns.
pub open spec fn names_of(columns: Seq<ColumnTypeV>) -> Seq<Seq<char>> {
    columns.map_values(|column: ColumnTypeV| column.0)
}

/// The types of columns.
pub open spec fn types_of(columns: Seq<ColumnTypeV>) -> Seq<Seq<char>> {
    columns.map_values(|column: ColumnTypeV| column.1)
}

/// The columns as projection items.
pub open spec fn column_items(columns: Seq<ColumnTypeV>) -> Seq<ProjectionItemV> {
    columns.map_values(|column: ColumnTypeV| ProjectionItemV::Column(column.0))
}

/// Projects every column, its types aside in the same order.
pub fn full_row_projection(columns: &Vec<ColumnType>) -> (row: (Vec<ProjectionItem>, Vec<String>))
    ensures
        row.0.deep_view() == column_items(columns.deep_view()),
        row.1.deep_view() == types_of(columns.deep_view()),
{
    let ghost views = columns.deep_view();
    let mut items: Vec<ProjectionItem> = Vec::new();
    let mut types: Vec<String> = Vec::new();
    let mut i: usize = 0;
    while i < columns.len()
        invariant
            0 <= i <= columns.len(),
            views == columns.deep_view(),
            items.deep_view() =~= column_items(views).take(i as int),
            types.deep_view() =~= types_of(views).take(i as int),
        decreases columns.len() - i,
    {
        let ghost items_before = items.deep_view();
        let ghost types_before = types.deep_view();
        let item = ProjectionItem::Column(columns[i].0.clone());
        items.push(item);
        assert(items.deep_view() =~= items_before.push(item.deep_view()));
        let declared = columns[i].1.clone();
        types.push(declared);
        assert(types.deep_view() =~= types_before.push(declared@));
        i += 1;
    }
    assert(items.deep_view() =~= column_items(views));
    assert(types.deep_view() =~= types_of(views));
    (items, types)
}

/// Copies a column name and type.
pub fn copied_column(column: &ColumnType) -> (copy: ColumnType)
    ensures
        copy.deep_view() == column.deep_view(),
{
    (column.0.clone(), column.1.clone())
}

/// Copies column names and types.
pub fn copied_columns(columns: &Vec<ColumnType>) -> (copies: Vec<ColumnType>)
    ensures
        copies.deep_view() == columns.deep_view(),
{
    let ghost views = columns.deep_view();
    let mut copies: Vec<ColumnType> = Vec::new();
    let mut i: usize = 0;
    while i < columns.len()
        invariant
            0 <= i <= columns.len(),
            views == columns.deep_view(),
            copies.deep_view() =~= views.take(i as int),
        decreases columns.len() - i,
    {
        let ghost before = copies.deep_view();
        let copy = copied_column(&columns[i]);
        copies.push(copy);
        assert(copies.deep_view() =~= before.push(copy.deep_view()));
        i += 1;
    }
    assert(copies.deep_view() =~= views);
    copies
}

/// Whether a text is one of several.
pub fn contains_text(texts: &Vec<String>, text: &str) -> (found: bool)
    ensures
        found == texts.deep_view().contains(text@),
{
    let ghost views = texts.deep_view();
    let mut i: usize = 0;
    while i < texts.len()
        invariant
            0 <= i <= texts.len(),
            views == texts.deep_view(),
            forall|j: int| 0 <= j < i ==> #[trigger] views[j] != text@,
        decreases texts.len() - i,
    {
        if same_text(texts[i].as_str(), text) {
            assert(views[i as int] == text@);
            return true;
        }
        i += 1;
    }
    false
}

} // verus!
