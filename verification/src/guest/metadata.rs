//! Accumulates table schemas and rows on the guest side, and turns them into
//! numbered metadata files for the host to pick up.

use crate::emission::{DocumentView, MetadataDocument};
use crate::text::{decimal_digits, push_decimal_digits};
use crate::types::{
    rows_view, schemas_view, CellValue, Column, MetadataRow, RowView, TableSchema, TableSchemaView,
};
use vstd::prelude::*;
use vstd::string::StringExecFns;

verus! {

/// What a module has declared and inserted since the last flush, and how
/// many metadata files it has written.
#[derive(Debug)]
pub struct MetadataWriter {
    tables: Vec<TableSchema>,
    rows: Vec<MetadataRow>,
    file_counter: usize,
}

/// A metadata writer in plain values.
pub struct WriterView {
    pub tables: Seq<TableSchemaView>,
    pub rows: Seq<RowView>,
    pub file_counter: usize,
}

impl View for MetadataWriter {
    type V = WriterView;

    closed spec fn view(&self) -> WriterView {
        WriterView {
            tables: schemas_view(self.tables@),
            rows: rows_view(self.rows@),
            file_counter: self.file_counter,
        }
    }
}

/// A file for the guest to write and close.
#[derive(Debug)]
pub struct MetadataFile {
    pub path: String,
    pub document: MetadataDocument,
}

/// The path of the metadata file with the given number.
pub open spec fn output_path(n: usize) -> Seq<char> {
    "/metadata/output_"@ + decimal_digits(n as nat) + ".json"@
}

impl MetadataWriter {
    /// A writer that holds nothing and has written no file.
    pub fn new() -> (writer: Self)
        ensures
            writer@ == (WriterView { tables: Seq::empty(), rows: Seq::empty(), file_counter: 0 }),
    {
        let writer = MetadataWriter { tables: Vec::new(), rows: Vec::new(), file_counter: 0 };
        proof {
            assert(writer@.tables =~= Seq::empty());
            assert(writer@.rows =~= Seq::empty());
        }
        writer
    }
}

/// Adds a table schema to what the next flush writes.
pub fn add_table(writer: &mut MetadataWriter, name: String, columns: Vec<Column>)
    ensures
        final(writer)@ == (WriterView {
            tables: old(writer)@.tables.push((TableSchema { name, columns })@),
            ..old(writer)@
        }),
{
    writer.tables.push(TableSchema { name, columns });
    proof {
        assert(writer@.tables =~= old(writer)@.tables.push((TableSchema { name, columns })@));
    }
}

/// Adds a row to what the next flush writes.
pub fn add_row(writer: &mut MetadataWriter, table_name: String, values: Vec<CellValue>)
    ensures
        final(writer)@ == (WriterView {
            rows: old(writer)@.rows.push((MetadataRow { table_name, values })@),
            ..old(writer)@
        }),
{
    writer.rows.push(MetadataRow { table_name, values });
    proof {
        assert(writer@.rows =~= old(writer)@.rows.push((MetadataRow { table_name, values })@));
    }
}

/// What a flush returns and leaves behind.
pub open spec fn flushed(
    before: MetadataWriter,
    after: MetadataWriter,
    r: Result<Option<MetadataFile>, String>,
) -> bool {
    if before@.tables.len() == 0 && before@.rows.len() == 0 {
        r matches Ok(None) && after@ == before@
    } else if before@.file_counter == usize::MAX {
        r is Err && after@ == before@
    } else {
        &&& r matches Ok(Some(file))
        &&& file.path@ == output_path(before@.file_counter)
        &&& file.document@ == (DocumentView { tables: before@.tables, rows: before@.rows })
        &&& after@ == (WriterView {
            tables: Seq::empty(),
            rows: Seq::empty(),
            file_counter: (before@.file_counter + 1) as usize,
        })
    }
}

/// Hands out everything accumulated as the next numbered metadata file, and
/// starts afresh. With nothing accumulated there is no file, and no number
/// is used up. The numbering cannot go beyond the machine word.
pub fn flush(writer: &mut MetadataWriter) -> (r: Result<Option<MetadataFile>, String>)
    ensures
        flushed(*old(writer), *final(writer), r),
{
    if writer.tables.len() == 0 && writer.rows.len() == 0 {
        return Ok(None);
    }
    if writer.file_counter == usize::MAX {
        return Err(String::from_str("metadata file numbers are used up"));
    }
    let counter: usize = writer.file_counter;
    writer.file_counter = counter + 1;
    let mut tables: Vec<TableSchema> = Vec::new();
    let mut rows: Vec<MetadataRow> = Vec::new();
    core::mem::swap(&mut writer.tables, &mut tables);
    core::mem::swap(&mut writer.rows, &mut rows);
    let mut path = String::from_str("/metadata/output_");
    push_decimal_digits(&mut path, counter as u64);
    path.append(".json");
    proof {
        assert(writer@.tables =~= Seq::empty());
        assert(writer@.rows =~= Seq::empty());
    }
    Ok(Some(MetadataFile { path, document: MetadataDocument { tables, rows } }))
}

} // verus!
