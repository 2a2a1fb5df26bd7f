use wadup_core::metadata::{
    create_table_sql, insert_row_sql, validate_row, validate_schema_match, MetadataStore,
    RowError, SchemaConflict,
};
use wadup_core::types::{CellValue, Column, DataType, TableSchema};

fn schema(name: &str, columns: &[(&str, DataType)]) -> TableSchema {
    TableSchema {
        name: name.to_string(),
        columns: columns
            .iter()
            .map(|(n, t)| Column { name: n.to_string(), data_type: *t })
            .collect(),
    }
}

#[test]
fn first_declaration_is_recorded() {
    let mut store = MetadataStore::new();
    assert_eq!(store.table_count(), 0);
    assert_eq!(store.define_table(schema("t", &[("x", DataType::Int64)])), Ok(true));
    assert_eq!(store.define_table(schema("u", &[])), Ok(true));
    assert_eq!(store.table_count(), 2);
}

#[test]
fn redefining_with_identical_columns_is_a_no_op() {
    let mut store = MetadataStore::new();
    let columns = [("x", DataType::Int64), ("y", DataType::String)];
    assert_eq!(store.define_table(schema("t", &columns)), Ok(true));
    assert_eq!(store.define_table(schema("t", &columns)), Ok(false));
    assert_eq!(store.define_table(schema("t", &columns)), Ok(false));
    assert_eq!(store.table_count(), 1);
}

#[test]
fn redefining_with_any_difference_is_a_conflict() {
    let mut store = MetadataStore::new();
    store
        .define_table(schema("t", &[("x", DataType::Int64), ("y", DataType::String)]))
        .unwrap();
    assert_eq!(
        store.define_table(schema("t", &[("x", DataType::Int64)])),
        Err(SchemaConflict::ColumnCount { existing: 2, new: 1 })
    );
    assert_eq!(
        store.define_table(schema("t", &[("x", DataType::Int64), ("z", DataType::String)])),
        Err(SchemaConflict::ColumnName { index: 1 })
    );
    assert_eq!(
        store.define_table(schema("t", &[("x", DataType::String), ("y", DataType::String)])),
        Err(SchemaConflict::ColumnType { index: 0 })
    );
    assert_eq!(
        store.define_table(schema("t", &[("y", DataType::String), ("x", DataType::Int64)])),
        Err(SchemaConflict::ColumnName { index: 0 })
    );
    assert_eq!(store.table_count(), 1);
    assert_eq!(
        store.define_table(schema("t", &[("x", DataType::Int64), ("y", DataType::String)])),
        Ok(false)
    );
}

#[test]
fn schema_match_compares_columns_in_order() {
    let a = schema("t", &[("x", DataType::Int64), ("y", DataType::Float64)]);
    let b = schema("other name", &[("x", DataType::Int64), ("y", DataType::Float64)]);
    assert_eq!(validate_schema_match(&a, &b), Ok(()));
    let c = schema("t", &[("x", DataType::Int64), ("y", DataType::Int64)]);
    assert_eq!(validate_schema_match(&a, &c), Err(SchemaConflict::ColumnType { index: 1 }));
    let d = schema("t", &[("q", DataType::String), ("y", DataType::Int64)]);
    assert_eq!(validate_schema_match(&a, &d), Err(SchemaConflict::ColumnName { index: 0 }));
    assert_eq!(validate_schema_match(&schema("e", &[]), &schema("e", &[])), Ok(()));
}

#[test]
fn rows_must_match_arity_and_types() {
    let mut store = MetadataStore::new();
    store
        .define_table(schema(
            "t",
            &[("i", DataType::Int64), ("f", DataType::Float64), ("s", DataType::String)],
        ))
        .unwrap();
    let good = vec![
        CellValue::Int64(1),
        CellValue::Float64(2.5f64.to_bits()),
        CellValue::String("x".to_string()),
    ];
    assert_eq!(store.insert_row("t", &good), Ok(()));
    assert_eq!(store.insert_row("missing", &good), Err(RowError::UnknownTable));
    assert_eq!(
        store.insert_row("t", &vec![CellValue::Int64(1)]),
        Err(RowError::Arity { expected: 3, found: 1 })
    );
    assert_eq!(store.insert_row("t", &vec![]), Err(RowError::Arity { expected: 3, found: 0 }));
    let wrong_second = vec![
        CellValue::Int64(1),
        CellValue::Int64(2),
        CellValue::Int64(3),
    ];
    assert_eq!(store.insert_row("t", &wrong_second), Err(RowError::Type { index: 1 }));
    let wrong_last = vec![
        CellValue::Int64(1),
        CellValue::Float64(0),
        CellValue::Float64(0),
    ];
    assert_eq!(store.insert_row("t", &wrong_last), Err(RowError::Type { index: 2 }));
}

#[test]
fn empty_table_takes_only_empty_rows() {
    let columns: Vec<Column> = Vec::new();
    assert_eq!(validate_row(&columns, &vec![]), Ok(()));
    assert_eq!(
        validate_row(&columns, &vec![CellValue::Int64(0)]),
        Err(RowError::Arity { expected: 0, found: 1 })
    );
}

#[test]
fn first_writer_wins_across_modules() {
    let mut store = MetadataStore::new();
    assert_eq!(store.define_table(schema("t", &[("x", DataType::Int64)])), Ok(true));
    assert_eq!(
        store.define_table(schema("t", &[("x", DataType::String)])),
        Err(SchemaConflict::ColumnType { index: 0 })
    );
    assert_eq!(store.insert_row("t", &vec![CellValue::Int64(5)]), Ok(()));
    assert_eq!(
        store.insert_row("t", &vec![CellValue::String("five".to_string())]),
        Err(RowError::Type { index: 0 })
    );
}

#[test]
fn create_table_statement_lists_columns_with_sql_types() {
    let table = schema(
        "file_sizes",
        &[("size_bytes", DataType::Int64), ("ratio", DataType::Float64), ("label", DataType::String)],
    );
    assert_eq!(
        create_table_sql(&table),
        "CREATE TABLE IF NOT EXISTS file_sizes (content_uuid TEXT NOT NULL, size_bytes INTEGER, \
         ratio REAL, label TEXT, FOREIGN KEY(content_uuid) REFERENCES __wadup_content(uuid))"
    );
    assert_eq!(
        create_table_sql(&schema("empty", &[])),
        "CREATE TABLE IF NOT EXISTS empty (content_uuid TEXT NOT NULL, FOREIGN KEY(content_uuid) \
         REFERENCES __wadup_content(uuid))"
    );
    assert_eq!(insert_row_sql("t", 0), "INSERT INTO t VALUES (?)");
    assert_eq!(insert_row_sql("t", 1), "INSERT INTO t VALUES (?, ?)");
    assert_eq!(insert_row_sql("file_sizes", 3), "INSERT INTO file_sizes VALUES (?, ?, ?, ?)");
}
