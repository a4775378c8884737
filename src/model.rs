//! Canonical, backend-agnostic metadata values and their mathematical views.
use vstd::prelude::*;

verus! {

/// The view of an optional string.
pub open spec fn opt_str_view(o: Option<String>) -> Option<Seq<char>> {
    match o {
        Some(s) => Some(s@),
        None => None,
    }
}

/// The view of a list of strings.
pub open spec fn strs_view(v: Seq<String>) -> Seq<Seq<char>> {
    v.map_values(|s: String| s@)
}

/// Copies an optional string, keeping its view.
pub fn copy_opt_str(o: &Option<String>) -> (r: Option<String>)
    ensures
        opt_str_view(r) == opt_str_view(*o),
{
    match o {
        Some(s) => Some(s.clone()),
        None => None,
    }
}

/// Copies a list of strings, keeping its view.
pub fn copy_strs(v: &Vec<String>) -> (r: Vec<String>)
    ensures
        strs_view(r@) == strs_view(v@),
{
    let mut r: Vec<String> = Vec::new();
    let mut i: usize = 0;
    while i < v.len()
        invariant
            i <= v.len(),
            r@ == v@.take(i as int),
        decreases v.len() - i,
    {
        r.push(v[i].clone());
        i = i + 1;
        assert(r@ =~= v@.take(i as int));
    }
    assert(v@.take(v.len() as int) =~= v@);
    r
}

/// Whether two optional strings hold the same text.
pub fn same_opt_str(a: &Option<String>, b: &Option<String>) -> (r: bool)
    ensures
        r == (opt_str_view(*a) == opt_str_view(*b)),
{
    match (a, b) {
        (Some(x), Some(y)) => *x == *y,
        (None, None) => true,
        _ => false,
    }
}

/// One column of a table, as the backend's catalog describes it.
#[derive(Clone, Debug, PartialEq)]
pub struct ColumnInfo {
    pub name: String,
    pub data_type: String,
    pub is_nullable: bool,
    pub default_value: Option<String>,
    pub constraints: Vec<String>,
}

pub struct ColumnView {
    pub name: Seq<char>,
    pub data_type: Seq<char>,
    pub is_nullable: bool,
    pub default_value: Option<Seq<char>>,
    pub constraints: Seq<Seq<char>>,
}

impl View for ColumnInfo {
    type V = ColumnView;

    open spec fn view(&self) -> ColumnView {
        ColumnView {
            name: self.name@,
            data_type: self.data_type@,
            is_nullable: self.is_nullable,
            default_value: opt_str_view(self.default_value),
            constraints: strs_view(self.constraints@),
        }
    }
}

impl ColumnInfo {
    /// A copy with the same view.
    pub fn copied(&self) -> (r: ColumnInfo)
        ensures
            r@ == self@,
    {
        ColumnInfo {
            name: self.name.clone(),
            data_type: self.data_type.clone(),
            is_nullable: self.is_nullable,
            default_value: copy_opt_str(&self.default_value),
            constraints: copy_strs(&self.constraints),
        }
    }
}

/// The view of a list of columns.
pub open spec fn columns_view(v: Seq<ColumnInfo>) -> Seq<ColumnView> {
    v.map_values(|c: ColumnInfo| c@)
}

/// Copies a list of columns, keeping its view.
pub fn copy_columns(v: &Vec<ColumnInfo>) -> (r: Vec<ColumnInfo>)
    ensures
        columns_view(r@) == columns_view(v@),
{
    let mut r: Vec<ColumnInfo> = Vec::new();
    let mut i: usize = 0;
    while i < v.len()
        invariant
            i <= v.len(),
            r.len() == i,
            forall|k: int| 0 <= k < i ==> (#[trigger] r@[k])@ == v@[k]@,
        decreases v.len() - i,
    {
        let c = v[i].copied();
        r.push(c);
        i = i + 1;
    }
    assert(columns_view(r@) =~= columns_view(v@));
    r
}

/// A table: its name, the schema it lives in, its row count once known, and
/// its columns in the backend's ordinal order.
#[derive(Clone, Debug, PartialEq)]
pub struct TableInfo {
    pub name: String,
    pub schema: Option<String>,
    pub row_count: Option<i64>,
    pub columns: Vec<ColumnInfo>,
}

pub struct TableView {
    pub name: Seq<char>,
    pub schema: Option<Seq<char>>,
    pub row_count: Option<i64>,
    pub columns: Seq<ColumnView>,
}

impl View for TableInfo {
    type V = TableView;

    open spec fn view(&self) -> TableView {
        TableView {
            name: self.name@,
            schema: opt_str_view(self.schema),
            row_count: self.row_count,
            columns: columns_view(self.columns@),
        }
    }
}

impl TableInfo {
    /// A copy with the same view.
    pub fn copied(&self) -> (r: TableInfo)
        ensures
            r@ == self@,
    {
        TableInfo {
            name: self.name.clone(),
            schema: copy_opt_str(&self.schema),
            row_count: self.row_count,
            columns: copy_columns(&self.columns),
        }
    }

    /// A copy that carries the given row count.
    pub fn with_row_count(&self, count: i64) -> (r: TableInfo)
        ensures
            r@ == (TableView { row_count: Some(count), ..self@ }),
    {
        let mut t = self.copied();
        t.row_count = Some(count);
        t
    }
}

/// The kind of a column-level difference.
#[derive(Clone, Copy, Debug, PartialEq, Eq, Structural)]
pub enum DiffKind {
    Added,
    Removed,
    Modified,
}

impl DiffKind {
    /// The label of the kind: `added`, `removed` or `modified`.
    pub fn as_str(&self) -> (r: &'static str)
        ensures
            r@ == diff_kind_label(*self),
    {
        match self {
            DiffKind::Added => "added",
            DiffKind::Removed => "removed",
            DiffKind::Modified => "modified",
        }
    }
}

pub open spec fn diff_kind_label(k: DiffKind) -> Seq<char> {
    match k {
        DiffKind::Added => "added"@,
        DiffKind::Removed => "removed"@,
        DiffKind::Modified => "modified"@,
    }
}

/// One column-level difference between two table structures. The values
/// describe the column on each side; a side without the column has none.
#[derive(Clone, Debug, PartialEq)]
pub struct StructureDiff {
    pub column_name: String,
    pub diff_type: DiffKind,
    pub source1_value: Option<String>,
    pub source2_value: Option<String>,
}

pub struct DiffView {
    pub column_name: Seq<char>,
    pub diff_type: DiffKind,
    pub source1_value: Option<Seq<char>>,
    pub source2_value: Option<Seq<char>>,
}

impl View for StructureDiff {
    type V = DiffView;

    open spec fn view(&self) -> DiffView {
        DiffView {
            column_name: self.column_name@,
            diff_type: self.diff_type,
            source1_value: opt_str_view(self.source1_value),
            source2_value: opt_str_view(self.source2_value),
        }
    }
}

/// The view of a list of differences.
pub open spec fn diffs_view(v: Seq<StructureDiff>) -> Seq<DiffView> {
    v.map_values(|d: StructureDiff| d@)
}

/// The result of comparing one table across two sources.
#[derive(Clone, Debug, PartialEq)]
pub struct TableComparison {
    pub table_name: String,
    pub source1: TableInfo,
    pub source2: TableInfo,
    pub structure_diff: Vec<StructureDiff>,
    pub row_count_diff: Option<i64>,
}

/// One partition of a topic: its leader, replicas and in-sync replicas.
#[derive(Clone, Debug, PartialEq)]
pub struct PartitionInfo {
    pub id: i32,
    pub leader: i32,
    pub replicas: Vec<i32>,
    pub isr: Vec<i32>,
}

pub struct PartitionView {
    pub id: i32,
    pub leader: i32,
    pub replicas: Seq<i32>,
    pub isr: Seq<i32>,
}

impl View for PartitionInfo {
    type V = PartitionView;

    open spec fn view(&self) -> PartitionView {
        PartitionView { id: self.id, leader: self.leader, replicas: self.replicas@, isr: self.isr@ }
    }
}

/// The view of a list of partitions.
pub open spec fn partitions_view(v: Seq<PartitionInfo>) -> Seq<PartitionView> {
    v.map_values(|p: PartitionInfo| p@)
}

/// An event-stream topic with its partitions and consumer groups.
#[derive(Clone, Debug, PartialEq)]
pub struct KafkaTopicInfo {
    pub name: String,
    pub partitions: Vec<PartitionInfo>,
    pub consumer_groups: Vec<String>,
}

pub struct TopicView {
    pub name: Seq<char>,
    pub partitions: Seq<PartitionView>,
    pub consumer_groups: Seq<Seq<char>>,
}

impl View for KafkaTopicInfo {
    type V = TopicView;

    open spec fn view(&self) -> TopicView {
        TopicView {
            name: self.name@,
            partitions: partitions_view(self.partitions@),
            consumer_groups: strs_view(self.consumer_groups@),
        }
    }
}

/// The view of a list of topics.
pub open spec fn topics_view(v: Seq<KafkaTopicInfo>) -> Seq<TopicView> {
    v.map_values(|t: KafkaTopicInfo| t@)
}

/// The latest version of one subject of a schema registry.
#[derive(Clone, Debug, PartialEq)]
pub struct SchemaInfo {
    pub subject: String,
    pub version: i32,
    pub schema_type: String,
    pub schema: String,
}

pub struct SchemaView {
    pub subject: Seq<char>,
    pub version: i32,
    pub schema_type: Seq<char>,
    pub schema: Seq<char>,
}

impl View for SchemaInfo {
    type V = SchemaView;

    open spec fn view(&self) -> SchemaView {
        SchemaView {
            subject: self.subject@,
            version: self.version,
            schema_type: self.schema_type@,
            schema: self.schema@,
        }
    }
}

/// The view of a list of registry schemas.
pub open spec fn schemas_view(v: Seq<SchemaInfo>) -> Seq<SchemaView> {
    v.map_values(|s: SchemaInfo| s@)
}

} // verus!
