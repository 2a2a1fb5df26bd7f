//! The wire format of guest emissions: the JSON documents that guests write
//! below `/metadata/` and `/subcontent/`, decoded into schemas, rows and
//! sub-content descriptors.

use crate::json::{
    array_member, json_as_array, json_as_float_bits, json_as_i64, json_as_str, json_as_u64,
    json_document, json_get, json_is_null, json_model, json_object_len, json_parse,
    json_text_member, member, text_member, JsonModel,
};
use crate::text::str_equal;
use crate::types::{
    columns_view, rows_view, schemas_view, values_view, CellValue, CellView, Column, ColumnView,
    DataType, MetadataRow, RowView, TableSchema, TableSchemaView,
};
use serde_json::Value as JsonValue;
use vstd::prelude::*;

verus! {

/// The models of a sequence of parsed values.
pub open spec fn models_of(values: Seq<JsonValue>) -> Seq<JsonModel> {
    Seq::new(values.len(), |i: int| json_model(values[i]))
}

/// A column type is written as its name.
pub open spec fn data_type_of(m: JsonModel) -> Option<DataType> {
    match m {
        JsonModel::String(text) => if text == "Int64"@ {
            Some(DataType::Int64)
        } else if text == "Float64"@ {
            Some(DataType::Float64)
        } else if text == "String"@ {
            Some(DataType::String)
        } else {
            None
        },
        _ => None,
    }
}

/// A column is an object with a `name` and a `data_type`.
pub open spec fn column_of(m: JsonModel) -> Option<ColumnView> {
    match (text_member(m, "name"@), member(m, "data_type"@)) {
        (Some(name), Some(t)) => match data_type_of(t) {
            Some(data_type) => Some(ColumnView { name, data_type }),
            None => None,
        },
        _ => None,
    }
}

/// The columns that a JSON array lists, where every element is a column.
pub open spec fn columns_of(items: Seq<JsonModel>) -> Option<Seq<ColumnView>> {
    if forall|i: int| 0 <= i < items.len() ==> column_of(#[trigger] items[i]) is Some {
        Some(Seq::new(items.len(), |i: int| column_of(items[i])->0))
    } else {
        None
    }
}

/// A table is an object with a `name` and an array of `columns`.
pub open spec fn table_of(m: JsonModel) -> Option<TableSchemaView> {
    match (text_member(m, "name"@), array_member(m, "columns"@)) {
        (Some(name), Some(items)) => match columns_of(items) {
            Some(columns) => Some(TableSchemaView { name, columns }),
            None => None,
        },
        _ => None,
    }
}

/// The tables that a JSON array lists, where every element is a table.
pub open spec fn tables_of(items: Seq<JsonModel>) -> Option<Seq<TableSchemaView>> {
    if forall|i: int| 0 <= i < items.len() ==> table_of(#[trigger] items[i]) is Some {
        Some(Seq::new(items.len(), |i: int| table_of(items[i])->0))
    } else {
        None
    }
}

/// A cell is an object with exactly one member, named after the cell's type
/// and holding a value of that type.
pub open spec fn cell_of(m: JsonModel) -> Option<CellView> {
    match m {
        JsonModel::Object(members) => if members.dom().finite() && members.dom().len() == 1 {
            if members.contains_key("Int64"@) {
                match members["Int64"@] {
                    JsonModel::Number(n) => match n.signed {
                        Some(i) => Some(CellView::Int64(i)),
                        None => None,
                    },
                    _ => None,
                }
            } else if members.contains_key("Float64"@) {
                match members["Float64"@] {
                    JsonModel::Number(n) => Some(CellView::Float64(n.float_bits)),
                    _ => None,
                }
            } else if members.contains_key("String"@) {
                match members["String"@] {
                    JsonModel::String(text) => Some(CellView::String(text)),
                    _ => None,
                }
            } else {
                None
            }
        } else {
            None
        },
        _ => None,
    }
}

/// The cells that a JSON array lists, where every element is a cell.
pub open spec fn cells_of(items: Seq<JsonModel>) -> Option<Seq<CellView>> {
    if forall|i: int| 0 <= i < items.len() ==> cell_of(#[trigger] items[i]) is Some {
        Some(Seq::new(items.len(), |i: int| cell_of(items[i])->0))
    } else {
        None
    }
}

/// A row is an object with a `table_name` and an array of `values`.
pub open spec fn row_of(m: JsonModel) -> Option<RowView> {
    match (text_member(m, "table_name"@), array_member(m, "values"@)) {
        (Some(table_name), Some(items)) => match cells_of(items) {
            Some(values) => Some(RowView { table_name, values }),
            None => None,
        },
        _ => None,
    }
}

/// The rows that a JSON array lists, where every element is a row.
pub open spec fn rows_of(items: Seq<JsonModel>) -> Option<Seq<RowView>> {
    if forall|i: int| 0 <= i < items.len() ==> row_of(#[trigger] items[i]) is Some {
        Some(Seq::new(items.len(), |i: int| row_of(items[i])->0))
    } else {
        None
    }
}

/// What a metadata file publishes.
#[derive(Debug)]
pub struct MetadataDocument {
    pub tables: Vec<TableSchema>,
    pub rows: Vec<MetadataRow>,
}

/// What a metadata file publishes, in plain values.
pub struct DocumentView {
    pub tables: Seq<TableSchemaView>,
    pub rows: Seq<RowView>,
}

impl View for MetadataDocument {
    type V = DocumentView;

    open spec fn view(&self) -> DocumentView {
        DocumentView { tables: schemas_view(self.tables@), rows: rows_view(self.rows@) }
    }
}

/// The tables of a metadata document: none where the member is missing.
pub open spec fn document_tables(m: JsonModel) -> Option<Seq<TableSchemaView>> {
    match member(m, "tables"@) {
        None => Some(Seq::empty()),
        Some(JsonModel::Array(items)) => tables_of(items),
        Some(_) => None,
    }
}

/// The rows of a metadata document: none where the member is missing.
pub open spec fn document_rows(m: JsonModel) -> Option<Seq<RowView>> {
    match member(m, "rows"@) {
        None => Some(Seq::empty()),
        Some(JsonModel::Array(items)) => rows_of(items),
        Some(_) => None,
    }
}

/// A metadata document is an object with optional arrays `tables` and
/// `rows`.
pub open spec fn document_of(m: JsonModel) -> Option<DocumentView> {
    if m is Object {
        match (document_tables(m), document_rows(m)) {
            (Some(tables), Some(rows)) => Some(DocumentView { tables, rows }),
            _ => None,
        }
    } else {
        None
    }
}

/// What the descriptor of a sub-content emission says.
#[derive(Debug)]
pub struct SubcontentDescriptor {
    pub filename: String,
    pub offset: Option<usize>,
    pub length: Option<usize>,
}

/// A sub-content descriptor in plain values.
pub struct DescriptorView {
    pub filename: Seq<char>,
    pub offset: Option<usize>,
    pub length: Option<usize>,
}

impl View for SubcontentDescriptor {
    type V = DescriptorView;

    open spec fn view(&self) -> DescriptorView {
        DescriptorView { filename: self.filename@, offset: self.offset, length: self.length }
    }
}

/// An optional size: missing or null means none; otherwise it must be an
/// unsigned integer that fits the machine word. The outer `None` marks a
/// malformed member.
pub open spec fn optional_size(m: JsonModel, key: Seq<char>) -> Option<Option<usize>> {
    match member(m, key) {
        None => Some(None),
        Some(JsonModel::Null) => Some(None),
        Some(JsonModel::Number(n)) => match n.unsigned {
            Some(u) => if u <= usize::MAX {
                Some(Some(u as usize))
            } else {
                None
            },
            None => None,
        },
        Some(_) => None,
    }
}

/// A sub-content descriptor is an object with a `filename` and optional
/// sizes `offset` and `length`.
pub open spec fn descriptor_of(m: JsonModel) -> Option<DescriptorView> {
    match (text_member(m, "filename"@), optional_size(m, "offset"@), optional_size(m, "length"@)) {
        (Some(filename), Some(offset), Some(length)) => Some(
            DescriptorView { filename, offset, length },
        ),
        _ => None,
    }
}

/// The metadata document written in `bytes`, where they are one.
pub open spec fn metadata_in(bytes: Seq<u8>) -> Option<DocumentView> {
    match json_document(bytes) {
        Some(m) => document_of(m),
        None => None,
    }
}

/// The sub-content descriptor written in `bytes`, where they are one.
pub open spec fn descriptor_in(bytes: Seq<u8>) -> Option<DescriptorView> {
    match json_document(bytes) {
        Some(m) => descriptor_of(m),
        None => None,
    }
}

/// Decodes a column type.
pub fn decode_data_type(v: &JsonValue) -> (r: Option<DataType>)
    ensures
        r == data_type_of(json_model(*v)),
{
    match json_as_str(v) {
        Some(text) => {
            if str_equal(text, "Int64") {
                Some(DataType::Int64)
            } else if str_equal(text, "Float64") {
                Some(DataType::Float64)
            } else if str_equal(text, "String") {
                Some(DataType::String)
            } else {
                None
            }
        },
        None => None,
    }
}

/// Decodes a column.
pub fn decode_column(v: &JsonValue) -> (r: Option<Column>)
    ensures
        match column_of(json_model(*v)) {
            Some(column) => r matches Some(c) && c@ == column,
            None => r is None,
        },
{
    let name = match json_text_member(v, "name") {
        Some(name) => name,
        None => {
            return None;
        },
    };
    let data_type = match json_get(v, "data_type") {
        Some(t) => match decode_data_type(t) {
            Some(data_type) => data_type,
            None => {
                return None;
            },
        },
        None => {
            return None;
        },
    };
    Some(Column { name, data_type })
}

/// Decodes an array of columns.
#[verifier::loop_isolation(false)]
pub fn decode_columns(items: &Vec<JsonValue>) -> (r: Option<Vec<Column>>)
    ensures
        match columns_of(models_of(items@)) {
            Some(columns) => r matches Some(v) && columns_view(v@) == columns,
            None => r is None,
        },
{
    let ghost models = models_of(items@);
    let mut out: Vec<Column> = Vec::new();
    let mut i: usize = 0;
    while i < items.len()
        invariant
            i <= items@.len(),
            out@.len() == i,
            forall|j: int| 0 <= j < i ==> column_of(#[trigger] models[j]) == Some(out@[j]@),
        decreases items@.len() - i,
    {
        proof {
            assert(models[i as int] == json_model(items@[i as int]));
        }
        match decode_column(&items[i]) {
            Some(column) => {
                out.push(column);
            },
            None => {
                return None;
            },
        }
        i += 1;
    }
    proof {
        assert(columns_view(out@) =~= columns_of(models)->0);
    }
    Some(out)
}

/// Decodes a table schema.
pub fn decode_table(v: &JsonValue) -> (r: Option<TableSchema>)
    ensures
        match table_of(json_model(*v)) {
            Some(table) => r matches Some(t) && t@ == table,
            None => r is None,
        },
{
    let name = match json_text_member(v, "name") {
        Some(name) => name,
        None => {
            return None;
        },
    };
    let items = match json_get(v, "columns") {
        Some(found) => match json_as_array(found) {
            Some(items) => items,
            None => {
                return None;
            },
        },
        None => {
            return None;
        },
    };
    proof {
        assert(models_of(items@) =~= array_member(json_model(*v), "columns"@)->0);
    }
    match decode_columns(items) {
        Some(columns) => Some(TableSchema { name, columns }),
        None => None,
    }
}

/// Decodes an array of table schemas.
#[verifier::loop_isolation(false)]
pub fn decode_tables(items: &Vec<JsonValue>) -> (r: Option<Vec<TableSchema>>)
    ensures
        match tables_of(models_of(items@)) {
            Some(tables) => r matches Some(v) && schemas_view(v@) == tables,
            None => r is None,
        },
{
    let ghost models = models_of(items@);
    let mut out: Vec<TableSchema> = Vec::new();
    let mut i: usize = 0;
    while i < items.len()
        invariant
            i <= items@.len(),
            out@.len() == i,
            forall|j: int| 0 <= j < i ==> table_of(#[trigger] models[j]) == Some(out@[j]@),
        decreases items@.len() - i,
    {
        proof {
            assert(models[i as int] == json_model(items@[i as int]));
        }
        match decode_table(&items[i]) {
            Some(table) => {
                out.push(table);
            },
            None => {
                return None;
            },
        }
        i += 1;
    }
    proof {
        assert(schemas_view(out@) =~= tables_of(models)->0);
    }
    Some(out)
}

/// Decodes a cell.
pub fn decode_cell(v: &JsonValue) -> (r: Option<CellValue>)
    ensures
        match cell_of(json_model(*v)) {
            Some(cell) => r matches Some(c) && c@ == cell,
            None => r is None,
        },
{
    match json_object_len(v) {
        Some(n) => {
            if n != 1 {
                return None;
            }
        },
        None => {
            return None;
        },
    }
    if let Some(payload) = json_get(v, "Int64") {
        return match json_as_i64(payload) {
            Some(i) => Some(CellValue::Int64(i)),
            None => None,
        };
    }
    if let Some(payload) = json_get(v, "Float64") {
        return match json_as_float_bits(payload) {
            Some(bits) => Some(CellValue::Float64(bits)),
            None => None,
        };
    }
    if let Some(payload) = json_get(v, "String") {
        return match json_as_str(payload) {
            Some(text) => Some(CellValue::String(text.to_owned())),
            None => None,
        };
    }
    None
}

/// Decodes an array of cells.
#[verifier::loop_isolation(false)]
pub fn decode_cells(items: &Vec<JsonValue>) -> (r: Option<Vec<CellValue>>)
    ensures
        match cells_of(models_of(items@)) {
            Some(cells) => r matches Some(v) && values_view(v@) == cells,
            None => r is None,
        },
{
    let ghost models = models_of(items@);
    let mut out: Vec<CellValue> = Vec::new();
    let mut i: usize = 0;
    while i < items.len()
        invariant
            i <= items@.len(),
            out@.len() == i,
            forall|j: int| 0 <= j < i ==> cell_of(#[trigger] models[j]) == Some(out@[j]@),
        decreases items@.len() - i,
    {
        proof {
            assert(models[i as int] == json_model(items@[i as int]));
        }
        match decode_cell(&items[i]) {
            Some(cell) => {
                out.push(cell);
            },
            None => {
                return None;
            },
        }
        i += 1;
    }
    proof {
        assert(values_view(out@) =~= cells_of(models)->0);
    }
    Some(out)
}

/// Decodes a row.
pub fn decode_row(v: &JsonValue) -> (r: Option<MetadataRow>)
    ensures
        match row_of(json_model(*v)) {
            Some(row) => r matches Some(decoded) && decoded@ == row,
            None => r is None,
        },
{
    let table_name = match json_text_member(v, "table_name") {
        Some(name) => name,
        None => {
            return None;
        },
    };
    let items = match json_get(v, "values") {
        Some(found) => match json_as_array(found) {
            Some(items) => items,
            None => {
                return None;
            },
        },
        None => {
            return None;
        },
    };
    proof {
        assert(models_of(items@) =~= array_member(json_model(*v), "values"@)->0);
    }
    match decode_cells(items) {
        Some(values) => Some(MetadataRow { table_name, values }),
        None => None,
    }
}

/// Decodes an array of rows.
#[verifier::loop_isolation(false)]
pub fn decode_rows(items: &Vec<JsonValue>) -> (r: Option<Vec<MetadataRow>>)
    ensures
        match rows_of(models_of(items@)) {
            Some(rows) => r matches Some(v) && rows_view(v@) == rows,
            None => r is None,
        },
{
    let ghost models = models_of(items@);
    let mut out: Vec<MetadataRow> = Vec::new();
    let mut i: usize = 0;
    while i < items.len()
        invariant
            i <= items@.len(),
            out@.len() == i,
            forall|j: int| 0 <= j < i ==> row_of(#[trigger] models[j]) == Some(out@[j]@),
        decreases items@.len() - i,
    {
        proof {
            assert(models[i as int] == json_model(items@[i as int]));
        }
        match decode_row(&items[i]) {
            Some(row) => {
                out.push(row);
            },
            None => {
                return None;
            },
        }
        i += 1;
    }
    proof {
        assert(rows_view(out@) =~= rows_of(models)->0);
    }
    Some(out)
}

/// Decodes a metadata document.
pub fn decode_metadata_document(v: &JsonValue) -> (r: Option<MetadataDocument>)
    ensures
        match document_of(json_model(*v)) {
            Some(document) => r matches Some(d) && d@ == document,
            None => r is None,
        },
{
    if json_object_len(v).is_none() {
        return None;
    }
    let tables = match json_get(v, "tables") {
        None => Vec::new(),
        Some(found) => match json_as_array(found) {
            Some(items) => {
                proof {
                    assert(models_of(items@) =~= array_member(json_model(*v), "tables"@)->0);
                }
                match decode_tables(items) {
                    Some(tables) => tables,
                    None => {
                        return None;
                    },
                }
            },
            None => {
                return None;
            },
        },
    };
    let rows = match json_get(v, "rows") {
        None => Vec::new(),
        Some(found) => match json_as_array(found) {
            Some(items) => {
                proof {
                    assert(models_of(items@) =~= array_member(json_model(*v), "rows"@)->0);
                }
                match decode_rows(items) {
                    Some(rows) => rows,
                    None => {
                        return None;
                    },
                }
            },
            None => {
                return None;
            },
        },
    };
    proof {
        assert(schemas_view(tables@) =~= document_tables(json_model(*v))->0);
        assert(rows_view(rows@) =~= document_rows(json_model(*v))->0);
    }
    Some(MetadataDocument { tables, rows })
}

/// Reads an optional size member.
fn decode_optional_size(v: &JsonValue, key: &str) -> (r: Option<Option<usize>>)
    ensures
        r == optional_size(json_model(*v), key@),
{
    match json_get(v, key) {
        None => Some(None),
        Some(found) => {
            if json_is_null(found) {
                return Some(None);
            }
            match json_as_u64(found) {
                Some(u) => {
                    if u <= usize::MAX as u64 {
                        Some(Some(u as usize))
                    } else {
                        None
                    }
                },
                None => None,
            }
        },
    }
}

/// Decodes a sub-content descriptor.
pub fn decode_subcontent_descriptor(v: &JsonValue) -> (r: Option<SubcontentDescriptor>)
    ensures
        match descriptor_of(json_model(*v)) {
            Some(descriptor) => r matches Some(d) && d@ == descriptor,
            None => r is None,
        },
{
    let filename = match json_text_member(v, "filename") {
        Some(name) => name,
        None => {
            return None;
        },
    };
    let offset = match decode_optional_size(v, "offset") {
        Some(offset) => offset,
        None => {
            return None;
        },
    };
    let length = match decode_optional_size(v, "length") {
        Some(length) => length,
        None => {
            return None;
        },
    };
    Some(SubcontentDescriptor { filename, offset, length })
}

/// Parses the contents of a metadata file.
pub fn parse_metadata(bytes: &[u8]) -> (r: Option<MetadataDocument>)
    ensures
        match metadata_in(bytes@) {
            Some(document) => r matches Some(d) && d@ == document,
            None => r is None,
        },
{
    match json_parse(bytes) {
        Some(v) => decode_metadata_document(&v),
        None => None,
    }
}

/// Parses the contents of a sub-content descriptor file.
pub fn parse_subcontent_descriptor(bytes: &[u8]) -> (r: Option<SubcontentDescriptor>)
    ensures
        match descriptor_in(bytes@) {
            Some(descriptor) => r matches Some(d) && d@ == descriptor,
            None => r is None,
        },
{
    match json_parse(bytes) {
        Some(v) => decode_subcontent_descriptor(&v),
        None => None,
    }
}

} // verus!
