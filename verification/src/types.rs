//! Table schemas and metadata rows.

use vstd::prelude::*;

verus! {

/// The type of a table column.
#[derive(Debug, Clone, Copy, PartialEq, Eq, Structural)]
pub enum DataType {
    Int64,
    Float64,
    String,
}

/// A named, typed table column.
#[derive(Debug)]
pub struct Column {
    pub name: String,
    pub data_type: DataType,
}

/// A column in plain values.
pub struct ColumnView {
    pub name: Seq<char>,
    pub data_type: DataType,
}

impl View for Column {
    type V = ColumnView;

    open spec fn view(&self) -> ColumnView {
        ColumnView { name: self.name@, data_type: self.data_type }
    }
}

impl Clone for Column {
    fn clone(&self) -> (res: Self)
        ensures
            res@ == self@,
    {
        Column { name: self.name.clone(), data_type: self.data_type }
    }
}

/// The plain values of a sequence of columns.
pub open spec fn columns_view(columns: Seq<Column>) -> Seq<ColumnView> {
    Seq::new(columns.len(), |i: int| columns[i]@)
}

/// A table's name and columns.
#[derive(Debug)]
pub struct TableSchema {
    pub name: String,
    pub columns: Vec<Column>,
}

/// A table schema in plain values.
pub struct TableSchemaView {
    pub name: Seq<char>,
    pub columns: Seq<ColumnView>,
}

impl View for TableSchema {
    type V = TableSchemaView;

    open spec fn view(&self) -> TableSchemaView {
        TableSchemaView { name: self.name@, columns: columns_view(self.columns@) }
    }
}

/// Copies a list of columns.
pub fn clone_columns(columns: &Vec<Column>) -> (res: Vec<Column>)
    ensures
        columns_view(res@) == columns_view(columns@),
{
    let mut out: Vec<Column> = Vec::new();
    let mut i: usize = 0;
    while i < columns.len()
        invariant
            i <= columns@.len(),
            out@.len() == i,
            forall|j: int| 0 <= j < i ==> (#[trigger] out@[j])@ == columns@[j]@,
        decreases columns@.len() - i,
    {
        out.push(columns[i].clone());
        i += 1;
    }
    proof {
        assert(columns_view(out@) =~= columns_view(columns@));
    }
    out
}

impl Clone for TableSchema {
    fn clone(&self) -> (res: Self)
        ensures
            res@ == self@,
    {
        TableSchema { name: self.name.clone(), columns: clone_columns(&self.columns) }
    }
}

/// The plain values of a sequence of table schemas.
pub open spec fn schemas_view(schemas: Seq<TableSchema>) -> Seq<TableSchemaView> {
    Seq::new(schemas.len(), |i: int| schemas[i]@)
}

/// One cell of a metadata row. A `Float64` cell holds the IEEE-754 bit
/// pattern of its number.
#[derive(Debug)]
pub enum CellValue {
    Int64(i64),
    Float64(u64),
    String(String),
}

/// A cell in plain values.
pub enum CellView {
    Int64(i64),
    Float64(u64),
    String(Seq<char>),
}

impl View for CellValue {
    type V = CellView;

    open spec fn view(&self) -> CellView {
        match *self {
            CellValue::Int64(i) => CellView::Int64(i),
            CellValue::Float64(bits) => CellView::Float64(bits),
            CellValue::String(text) => CellView::String(text@),
        }
    }
}

impl Clone for CellValue {
    fn clone(&self) -> (res: Self)
        ensures
            res@ == self@,
    {
        match self {
            CellValue::Int64(i) => CellValue::Int64(*i),
            CellValue::Float64(bits) => CellValue::Float64(*bits),
            CellValue::String(text) => CellValue::String(text.clone()),
        }
    }
}

impl CellView {
    /// The column type that a cell of this kind fits.
    pub open spec fn data_type(self) -> DataType {
        match self {
            CellView::Int64(_) => DataType::Int64,
            CellView::Float64(_) => DataType::Float64,
            CellView::String(_) => DataType::String,
        }
    }
}

impl CellValue {
    /// The column type that this cell fits.
    pub fn data_type(&self) -> (t: DataType)
        ensures
            t == self@.data_type(),
    {
        match self {
            CellValue::Int64(_) => DataType::Int64,
            CellValue::Float64(_) => DataType::Float64,
            CellValue::String(_) => DataType::String,
        }
    }
}

/// The plain values of a sequence of cells.
pub open spec fn values_view(values: Seq<CellValue>) -> Seq<CellView> {
    Seq::new(values.len(), |i: int| values[i]@)
}

/// Copies a list of cells.
pub fn clone_values(values: &Vec<CellValue>) -> (res: Vec<CellValue>)
    ensures
        values_view(res@) == values_view(values@),
{
    let mut out: Vec<CellValue> = Vec::new();
    let mut i: usize = 0;
    while i < values.len()
        invariant
            i <= values@.len(),
            out@.len() == i,
            forall|j: int| 0 <= j < i ==> (#[trigger] out@[j])@ == values@[j]@,
        decreases values@.len() - i,
    {
        out.push(values[i].clone());
        i += 1;
    }
    proof {
        assert(values_view(out@) =~= values_view(values@));
    }
    out
}

/// A row destined for a named table.
#[derive(Debug)]
pub struct MetadataRow {
    pub table_name: String,
    pub values: Vec<CellValue>,
}

/// A row in plain values.
pub struct RowView {
    pub table_name: Seq<char>,
    pub values: Seq<CellView>,
}

impl View for MetadataRow {
    type V = RowView;

    open spec fn view(&self) -> RowView {
        RowView { table_name: self.table_name@, values: values_view(self.values@) }
    }
}

impl Clone for MetadataRow {
    fn clone(&self) -> (res: Self)
        ensures
            res@ == self@,
    {
        MetadataRow { table_name: self.table_name.clone(), values: clone_values(&self.values) }
    }
}

/// The plain values of a sequence of rows.
pub open spec fn rows_view(rows: Seq<MetadataRow>) -> Seq<RowView> {
    Seq::new(rows.len(), |i: int| rows[i]@)
}

} // verus!
