use wadup_core::emission::parse_metadata;
use wadup_core::guest::content::Content;
use wadup_core::guest::metadata::{add_row, add_table, flush, MetadataWriter};
use wadup_core::guest::subcontent::SubContent;
use wadup_core::guest::table::{Table, TableBuilder};
use wadup_core::types::{CellValue, Column, DataType};

#[test]
fn content_path_is_data_bin() {
    assert_eq!(Content::path(), "/data.bin");
}

#[test]
fn nothing_to_flush_writes_no_file() {
    let mut writer = MetadataWriter::new();
    assert!(matches!(flush(&mut writer), Ok(None)));
    assert!(matches!(Table::flush(&mut writer), Ok(None)));
    assert!(matches!(wadup_core::guest::table::flush(&mut writer), Ok(None)));
}

#[test]
fn flush_hands_out_numbered_files() {
    let mut writer = MetadataWriter::new();
    add_table(
        &mut writer,
        "t".to_string(),
        vec![Column { name: "c".to_string(), data_type: DataType::Int64 }],
    );
    add_row(&mut writer, "t".to_string(), vec![CellValue::Int64(1)]);
    let first = flush(&mut writer).unwrap().unwrap();
    assert_eq!(first.path, "/metadata/output_0.json");
    assert_eq!(first.document.tables.len(), 1);
    assert_eq!(first.document.tables[0].name, "t");
    assert_eq!(first.document.rows.len(), 1);
    assert!(matches!(flush(&mut writer), Ok(None)));

    add_row(&mut writer, "t".to_string(), vec![CellValue::Int64(2)]);
    add_row(&mut writer, "t".to_string(), vec![CellValue::Int64(3)]);
    let second = flush(&mut writer).unwrap().unwrap();
    assert_eq!(second.path, "/metadata/output_1.json");
    assert!(second.document.tables.is_empty());
    assert_eq!(second.document.rows.len(), 2);
    assert!(matches!(second.document.rows[1].values[0], CellValue::Int64(3)));
    for _ in 2..10 {
        add_row(&mut writer, "t".to_string(), vec![]);
        flush(&mut writer).unwrap().unwrap();
    }
    add_row(&mut writer, "t".to_string(), vec![]);
    assert_eq!(flush(&mut writer).unwrap().unwrap().path, "/metadata/output_10.json");
}

#[test]
fn table_builder_declares_columns_in_order() {
    let mut writer = MetadataWriter::new();
    let table = TableBuilder::new("file_sizes")
        .column("size_bytes", DataType::Int64)
        .column("ratio", DataType::Float64)
        .column("label", DataType::String)
        .build(&mut writer)
        .unwrap();
    table.insert(&mut writer, &vec![
        CellValue::Int64(13),
        CellValue::Float64(0.5f64.to_bits()),
        CellValue::String("x".to_string()),
    ])
    .unwrap();
    let file = Table::flush(&mut writer).unwrap().unwrap();
    assert_eq!(file.document.tables.len(), 1);
    let schema = &file.document.tables[0];
    assert_eq!(schema.name, "file_sizes");
    let columns: Vec<(&str, DataType)> =
        schema.columns.iter().map(|c| (c.name.as_str(), c.data_type)).collect();
    assert_eq!(
        columns,
        vec![
            ("size_bytes", DataType::Int64),
            ("ratio", DataType::Float64),
            ("label", DataType::String)
        ]
    );
    assert_eq!(file.document.rows.len(), 1);
    assert_eq!(file.document.rows[0].table_name, "file_sizes");
    assert!(matches!(file.document.rows[0].values[0], CellValue::Int64(13)));
}

#[test]
fn define_without_builder() {
    let mut writer = MetadataWriter::new();
    let table = Table::define(&mut writer, "empty", vec![]).unwrap();
    let other = Table::define(&mut writer, "pair", vec![("a", DataType::String)]).unwrap();
    other.insert(&mut writer, &vec![CellValue::String("v".to_string())]).unwrap();
    table.insert(&mut writer, &vec![]).unwrap();
    let file = wadup_core::guest::table::flush(&mut writer).unwrap().unwrap();
    assert_eq!(file.document.tables.len(), 2);
    assert_eq!(file.document.tables[0].name, "empty");
    assert!(file.document.tables[0].columns.is_empty());
    assert_eq!(file.document.tables[1].columns[0].name, "a");
    assert_eq!(file.document.rows[0].table_name, "pair");
    assert_eq!(file.document.rows[1].table_name, "empty");
}

#[test]
fn emissions_are_numbered_in_order() {
    let mut emitter = SubContent::new();
    let first = emitter.emit_bytes(b"payload", "inner.txt").unwrap();
    let (path, data) = first.data.unwrap();
    assert_eq!(path, "/subcontent/data_0.bin");
    assert_eq!(data, b"payload");
    assert_eq!(first.metadata_path, "/subcontent/metadata_0.json");
    assert_eq!(first.descriptor.filename, "inner.txt");
    assert_eq!((first.descriptor.offset, first.descriptor.length), (None, None));

    let second = emitter.emit_slice(900, 100, "b").unwrap();
    assert!(second.data.is_none());
    assert_eq!(second.metadata_path, "/subcontent/metadata_1.json");
    assert_eq!(second.descriptor.filename, "b");
    assert_eq!((second.descriptor.offset, second.descriptor.length), (Some(900), Some(100)));

    assert_eq!(emitter.next_counter(), Some(2));
    assert_eq!(emitter.next_counter(), Some(3));
    assert_eq!(
        emitter.emit_bytes(b"", "e").unwrap().data.unwrap().0,
        "/subcontent/data_4.bin"
    );
}

#[test]
fn what_the_guest_writes_is_what_the_host_reads() {
    let text = "{\"tables\":[{\"name\":\"file_sizes\",\"columns\":[{\"name\":\"size_bytes\",\
                \"data_type\":\"Int64\"}]}],\"rows\":[{\"table_name\":\"file_sizes\",\
                \"values\":[{\"Int64\":13}]}]}";
    let mut writer = MetadataWriter::new();
    let table = TableBuilder::new("file_sizes")
        .column("size_bytes", DataType::Int64)
        .build(&mut writer)
        .unwrap();
    table.insert(&mut writer, &vec![CellValue::Int64(13)]).unwrap();
    let written = flush(&mut writer).unwrap().unwrap().document;
    let read = parse_metadata(text.as_bytes()).unwrap();
    assert_eq!(written.tables.len(), read.tables.len());
    assert_eq!(written.tables[0].name, read.tables[0].name);
    assert_eq!(written.tables[0].columns[0].name, read.tables[0].columns[0].name);
    assert_eq!(written.tables[0].columns[0].data_type, read.tables[0].columns[0].data_type);
    assert_eq!(written.rows[0].table_name, read.rows[0].table_name);
    assert!(matches!(
        (&written.rows[0].values[0], &read.rows[0].values[0]),
        (CellValue::Int64(13), CellValue::Int64(13))
    ));
}
