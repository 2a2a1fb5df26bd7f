use wadup_core::metadata::{RowError, SchemaConflict};
use wadup_core::processor::SinkAction;
use wadup_core::sink::{ContentStatus, MemorySink, SinkError};
use wadup_core::types::{CellValue, Column, DataType, TableSchema};

fn table(name: &str, columns: &[(&str, DataType)]) -> SinkAction {
    SinkAction::DefineTable {
        schema: TableSchema {
            name: name.to_string(),
            columns: columns
                .iter()
                .map(|(n, t)| Column { name: n.to_string(), data_type: *t })
                .collect(),
        },
    }
}

fn row(name: &str, uuid: u128, values: Vec<CellValue>) -> SinkAction {
    SinkAction::InsertRow { table: name.to_string(), uuid, values }
}

fn start(uuid: u128, name: &str) -> SinkAction {
    SinkAction::StartContent { uuid, filename: name.to_string(), parent_uuid: None }
}

#[test]
fn a_fresh_sink_holds_nothing() {
    let sink = MemorySink::new();
    assert!(sink.rows().is_empty());
    assert!(sink.outputs().is_empty());
    assert!(sink.contents().is_empty());
    assert!(sink.status(1).is_none());
}

#[test]
fn only_rows_that_fit_their_table_are_kept() {
    let mut sink = MemorySink::new();
    assert_eq!(sink.apply(table("t", &[("i", DataType::Int64), ("s", DataType::String)])), Ok(()));
    assert_eq!(
        sink.apply(row("t", 1, vec![CellValue::Int64(1), CellValue::String("a".to_string())])),
        Ok(())
    );
    assert_eq!(
        sink.apply(row("t", 1, vec![CellValue::Int64(1)])),
        Err(SinkError::Row(RowError::Arity { expected: 2, found: 1 }))
    );
    assert_eq!(
        sink.apply(row("t", 1, vec![CellValue::String("a".to_string()), CellValue::Int64(1)])),
        Err(SinkError::Row(RowError::Type { index: 0 }))
    );
    assert_eq!(
        sink.apply(row("u", 1, vec![])),
        Err(SinkError::Row(RowError::UnknownTable))
    );
    assert_eq!(sink.rows().len(), 1);
    for kept in sink.rows() {
        assert_eq!(kept.values.len(), 2);
        assert_eq!(kept.values[0].data_type(), DataType::Int64);
        assert_eq!(kept.values[1].data_type(), DataType::String);
    }
}

#[test]
fn redeclaring_a_table() {
    let mut sink = MemorySink::new();
    assert_eq!(sink.apply(table("t", &[("x", DataType::Int64)])), Ok(()));
    assert_eq!(sink.apply(table("t", &[("x", DataType::Int64)])), Ok(()));
    assert_eq!(
        sink.apply(table("t", &[("x", DataType::Float64)])),
        Err(SinkError::SchemaConflict(SchemaConflict::ColumnType { index: 0 }))
    );
    assert_eq!(sink.apply(row("t", 9, vec![CellValue::Int64(3)])), Ok(()));
    assert_eq!(
        sink.apply(row("t", 9, vec![CellValue::Float64(0)])),
        Err(SinkError::Row(RowError::Type { index: 0 }))
    );
}

#[test]
fn every_content_has_one_record_with_its_last_status() {
    let mut sink = MemorySink::new();
    assert_eq!(
        sink.apply(SinkAction::FinalizeSuccess { uuid: 1 }),
        Err(SinkError::UnknownContent)
    );
    assert_eq!(sink.apply(start(1, "a")), Ok(()));
    assert!(matches!(sink.status(1), Some(ContentStatus::Processing)));
    assert_eq!(sink.apply(start(2, "b")), Ok(()));
    assert_eq!(sink.apply(SinkAction::FinalizeSuccess { uuid: 1 }), Ok(()));
    assert_eq!(
        sink.apply(SinkAction::FinalizeFailure { uuid: 2, error_message: "why".to_string() }),
        Ok(())
    );
    assert!(matches!(sink.status(1), Some(ContentStatus::Success)));
    assert!(matches!(sink.status(2), Some(ContentStatus::Failed(m)) if m == "why"));
    assert_eq!(sink.contents().len(), 2);
    assert_eq!(sink.contents()[0].filename, "a");
    assert_eq!(sink.contents()[1].filename, "b");
    assert_eq!(sink.apply(start(1, "again")), Ok(()));
    assert_eq!(sink.contents().len(), 2);
    assert_eq!(sink.contents()[0].filename, "again");
    assert!(matches!(sink.status(1), Some(ContentStatus::Processing)));
}

#[test]
fn outputs_are_recorded_in_order() {
    let mut sink = MemorySink::new();
    let errors = sink.apply_all(vec![
        SinkAction::SetCurrentModule { uuid: 1, module_name: "m".to_string() },
        SinkAction::RecordModuleOutput {
            uuid: 1,
            module_name: "m".to_string(),
            stdout: Some(b"out".to_vec()),
            stderr: None,
            stdout_truncated: true,
            stderr_truncated: false,
        },
        SinkAction::RecordModuleOutput {
            uuid: 1,
            module_name: "n".to_string(),
            stdout: None,
            stderr: Some(b"err".to_vec()),
            stdout_truncated: false,
            stderr_truncated: false,
        },
    ]);
    assert!(errors.is_empty());
    assert_eq!(sink.outputs().len(), 2);
    assert_eq!(sink.outputs()[0].module_name, "m");
    assert_eq!(sink.outputs()[0].stdout.as_deref(), Some(&b"out"[..]));
    assert!(sink.outputs()[0].stdout_truncated);
    assert_eq!(sink.outputs()[1].stderr.as_deref(), Some(&b"err"[..]));
}
