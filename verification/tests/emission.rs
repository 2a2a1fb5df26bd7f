use wadup_core::emission::{
    decode_cell, decode_column, decode_data_type, decode_metadata_document,
    decode_subcontent_descriptor, parse_metadata, parse_subcontent_descriptor,
};
use wadup_core::json::json_text_member;
use wadup_core::types::{CellValue, DataType};

fn json(text: &str) -> serde_json::Value {
    serde_json::from_str(text).unwrap()
}

#[test]
fn parse_rejects_what_is_not_json() {
    assert!(parse_metadata(b"").is_none());
    assert!(parse_metadata(b"{").is_none());
    assert!(parse_metadata(b"{} trailing").is_none());
    assert!(parse_metadata(&[0xff, 0xfe]).is_none());
    assert!(parse_metadata(b" {\"a\": [1, 2.5, \"x\", null, true]} ").is_some());
}

#[test]
fn members_are_found_by_name() {
    let v = json("{\"name\": \"n\", \"other\": 3}");
    assert_eq!(json_text_member(&v, "name"), Some("n".to_string()));
    assert_eq!(json_text_member(&v, "other"), None);
    assert_eq!(json_text_member(&v, "missing"), None);
    assert_eq!(json_text_member(&json("[1]"), "name"), None);
    assert_eq!(json_text_member(&json("\"name\""), "name"), None);
}

#[test]
fn data_types_are_written_as_their_names() {
    assert_eq!(decode_data_type(&json("\"Int64\"")), Some(DataType::Int64));
    assert_eq!(decode_data_type(&json("\"Float64\"")), Some(DataType::Float64));
    assert_eq!(decode_data_type(&json("\"String\"")), Some(DataType::String));
    assert_eq!(decode_data_type(&json("\"int64\"")), None);
    assert_eq!(decode_data_type(&json("\"Boolean\"")), None);
    assert_eq!(decode_data_type(&json("1")), None);
}

#[test]
fn columns_need_name_and_type() {
    let column = decode_column(&json("{\"name\":\"size\",\"data_type\":\"Int64\"}")).unwrap();
    assert_eq!(column.name, "size");
    assert_eq!(column.data_type, DataType::Int64);
    assert!(decode_column(&json("{\"name\":\"size\"}")).is_none());
    assert!(decode_column(&json("{\"data_type\":\"Int64\"}")).is_none());
    assert!(decode_column(&json("{\"name\":1,\"data_type\":\"Int64\"}")).is_none());
    assert!(decode_column(&json("{\"name\":\"x\",\"data_type\":\"Blob\"}")).is_none());
}

#[test]
fn cells_are_tagged_with_their_type() {
    assert!(matches!(decode_cell(&json("{\"Int64\": 13}")), Some(CellValue::Int64(13))));
    assert!(matches!(decode_cell(&json("{\"Int64\": -7}")), Some(CellValue::Int64(-7))));
    assert!(matches!(
        decode_cell(&json("{\"Int64\": 9223372036854775807}")),
        Some(CellValue::Int64(i64::MAX))
    ));
    assert!(decode_cell(&json("{\"Int64\": 9223372036854775808}")).is_none());
    assert!(decode_cell(&json("{\"Int64\": 1.5}")).is_none());
    assert!(decode_cell(&json("{\"Int64\": \"1\"}")).is_none());
    match decode_cell(&json("{\"Float64\": 1.5}")) {
        Some(CellValue::Float64(bits)) => assert_eq!(f64::from_bits(bits), 1.5),
        other => panic!("unexpected {:?}", other),
    }
    match decode_cell(&json("{\"Float64\": 2}")) {
        Some(CellValue::Float64(bits)) => assert_eq!(f64::from_bits(bits), 2.0),
        other => panic!("unexpected {:?}", other),
    }
    match decode_cell(&json("{\"String\": \"text\"}")) {
        Some(CellValue::String(s)) => assert_eq!(s, "text"),
        other => panic!("unexpected {:?}", other),
    }
    assert!(decode_cell(&json("{\"String\": 1}")).is_none());
    assert!(decode_cell(&json("{\"Boolean\": true}")).is_none());
    assert!(decode_cell(&json("{}")).is_none());
    assert!(decode_cell(&json("{\"Int64\": 1, \"String\": \"x\"}")).is_none());
    assert!(decode_cell(&json("13")).is_none());
}

#[test]
fn metadata_document_with_tables_and_rows() {
    let text = "{\"tables\":[{\"name\":\"file_sizes\",\"columns\":[{\"name\":\"size_bytes\",\
                \"data_type\":\"Int64\"},{\"name\":\"label\",\"data_type\":\"String\"}]}],\
                \"rows\":[{\"table_name\":\"file_sizes\",\"values\":[{\"Int64\":13},\
                {\"String\":\"hello\"}]},{\"table_name\":\"file_sizes\",\"values\":[]}]}";
    let document = parse_metadata(text.as_bytes()).unwrap();
    assert_eq!(document.tables.len(), 1);
    assert_eq!(document.tables[0].name, "file_sizes");
    assert_eq!(document.tables[0].columns.len(), 2);
    assert_eq!(document.tables[0].columns[0].name, "size_bytes");
    assert_eq!(document.tables[0].columns[0].data_type, DataType::Int64);
    assert_eq!(document.tables[0].columns[1].name, "label");
    assert_eq!(document.tables[0].columns[1].data_type, DataType::String);
    assert_eq!(document.rows.len(), 2);
    assert_eq!(document.rows[0].table_name, "file_sizes");
    assert!(matches!(document.rows[0].values[0], CellValue::Int64(13)));
    assert!(matches!(&document.rows[0].values[1], CellValue::String(s) if s == "hello"));
    assert!(document.rows[1].values.is_empty());
}

#[test]
fn metadata_document_members_are_optional() {
    let empty = parse_metadata(b"{}").unwrap();
    assert!(empty.tables.is_empty() && empty.rows.is_empty());
    let only_rows = parse_metadata(b"{\"rows\":[{\"table_name\":\"t\",\"values\":[]}]}").unwrap();
    assert!(only_rows.tables.is_empty());
    assert_eq!(only_rows.rows.len(), 1);
    let only_tables = parse_metadata(b"{\"tables\":[{\"name\":\"t\",\"columns\":[]}]}").unwrap();
    assert_eq!(only_tables.tables.len(), 1);
    assert!(only_tables.rows.is_empty());
    let extra = parse_metadata(b"{\"comment\":\"ignored\",\"rows\":[]}").unwrap();
    assert!(extra.rows.is_empty());
}

#[test]
fn malformed_metadata_documents_are_rejected() {
    assert!(parse_metadata(b"[]").is_none());
    assert!(parse_metadata(b"null").is_none());
    assert!(parse_metadata(b"{\"tables\": {}}").is_none());
    assert!(parse_metadata(b"{\"rows\": null}").is_none());
    assert!(parse_metadata(b"{\"rows\": [{\"table_name\": \"t\"}]}").is_none());
    assert!(parse_metadata(b"{\"rows\": [{\"values\": []}]}").is_none());
    assert!(parse_metadata(b"{\"rows\": [{\"table_name\":\"t\",\"values\":[1]}]}").is_none());
    assert!(parse_metadata(b"{\"tables\": [{\"name\": \"t\"}]}").is_none());
    assert!(parse_metadata(b"{\"tables\": [{\"name\":\"t\",\"columns\":[{}]}]}").is_none());
    assert!(parse_metadata(b"{\"rows\": [").is_none());
    assert!(decode_metadata_document(&json("\"text\"")).is_none());
}

#[test]
fn subcontent_descriptor_variants() {
    let bytes = parse_subcontent_descriptor(b"{\"filename\": \"a.txt\"}").unwrap();
    assert_eq!(bytes.filename, "a.txt");
    assert_eq!((bytes.offset, bytes.length), (None, None));
    let slice =
        parse_subcontent_descriptor(b"{\"filename\":\"b\",\"offset\":900,\"length\":100}").unwrap();
    assert_eq!(slice.filename, "b");
    assert_eq!((slice.offset, slice.length), (Some(900), Some(100)));
    let nulls =
        parse_subcontent_descriptor(b"{\"filename\":\"c\",\"offset\":null,\"length\":7}").unwrap();
    assert_eq!((nulls.offset, nulls.length), (None, Some(7)));
    let zero =
        parse_subcontent_descriptor(b"{\"filename\":\"\",\"offset\":0,\"length\":0}").unwrap();
    assert_eq!(zero.filename, "");
    assert_eq!((zero.offset, zero.length), (Some(0), Some(0)));
}

#[test]
fn malformed_subcontent_descriptors_are_rejected() {
    assert!(parse_subcontent_descriptor(b"{}").is_none());
    assert!(parse_subcontent_descriptor(b"{\"filename\": 3}").is_none());
    assert!(parse_subcontent_descriptor(b"{\"filename\":\"a\",\"offset\":-1}").is_none());
    assert!(parse_subcontent_descriptor(b"{\"filename\":\"a\",\"offset\":1.5}").is_none());
    assert!(parse_subcontent_descriptor(b"{\"filename\":\"a\",\"length\":\"9\"}").is_none());
    assert!(parse_subcontent_descriptor(b"[\"a\"]").is_none());
    assert!(parse_subcontent_descriptor(b"{\"filename\":\"a\"").is_none());
    assert!(decode_subcontent_descriptor(&json("null")).is_none());
}
