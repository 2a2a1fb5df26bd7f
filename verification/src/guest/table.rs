//! Declaring tables and inserting rows from a module.

use crate::guest::metadata::{
    add_row, add_table, flushed, MetadataFile, MetadataWriter, WriterView,
};
use crate::types::{
    clone_values, columns_view, values_view, CellValue, Column, ColumnView, DataType, RowView,
    TableSchemaView,
};
use vstd::prelude::*;

verus! {

/// A declared table, through which rows are inserted.
#[derive(Debug)]
pub struct Table {
    name: String,
}

impl View for Table {
    type V = Seq<char>;

    closed spec fn view(&self) -> Seq<char> {
        self.name@
    }
}

/// The columns that a list of name and type pairs declares.
pub open spec fn declared_columns(columns: Seq<(&str, DataType)>) -> Seq<ColumnView> {
    Seq::new(columns.len(), |i: int| ColumnView { name: columns[i].0@, data_type: columns[i].1 })
}

impl Table {
    /// Declares a table: its schema goes into the next metadata file.
    pub fn define(writer: &mut MetadataWriter, name: &str, columns: Vec<(&str, DataType)>) -> (r:
        Result<Self, String>)
        ensures
            r matches Ok(table) && table@ == name@,
            final(writer)@ == (WriterView {
                tables: old(writer)@.tables.push(
                    TableSchemaView { name: name@, columns: declared_columns(columns@) },
                ),
                ..old(writer)@
            }),
    {
        let mut cols: Vec<Column> = Vec::new();
        let mut i: usize = 0;
        while i < columns.len()
            invariant
                i <= columns@.len(),
                cols@.len() == i,
                forall|j: int|
                    0 <= j < i ==> (#[trigger] cols@[j])@ == declared_columns(columns@)[j],
            decreases columns@.len() - i,
        {
            cols.push(Column { name: columns[i].0.to_owned(), data_type: columns[i].1 });
            i += 1;
        }
        proof {
            assert(columns_view(cols@) =~= declared_columns(columns@));
        }
        add_table(writer, name.to_owned(), cols);
        Ok(Table { name: name.to_owned() })
    }

    /// Inserts a row: it goes into the next metadata file.
    pub fn insert(&self, writer: &mut MetadataWriter, values: &Vec<CellValue>) -> (r: Result<
        (),
        String,
    >)
        ensures
            r is Ok,
            final(writer)@ == (WriterView {
                rows: old(writer)@.rows.push(
                    RowView { table_name: self@, values: values_view(values@) },
                ),
                ..old(writer)@
            }),
    {
        add_row(writer, self.name.clone(), clone_values(values));
        Ok(())
    }

    /// Hands out what was accumulated as the next metadata file; see
    /// `guest::metadata::flush`.
    pub fn flush(writer: &mut MetadataWriter) -> (r: Result<Option<MetadataFile>, String>)
        ensures
            flushed(*old(writer), *final(writer), r),
    {
        crate::guest::metadata::flush(writer)
    }
}

/// Collects a table's name and columns before declaring it.
#[derive(Debug)]
pub struct TableBuilder {
    name: String,
    columns: Vec<(&'static str, DataType)>,
}

impl TableBuilder {
    /// The name given to the builder.
    pub closed spec fn name(&self) -> Seq<char> {
        self.name@
    }

    /// The columns added so far.
    pub closed spec fn columns(&self) -> Seq<ColumnView> {
        declared_columns(self.columns@)
    }

    /// Starts a table of the given name, without columns.
    pub fn new(name: &str) -> (builder: Self)
        ensures
            builder.name() == name@,
            builder.columns() == Seq::<ColumnView>::empty(),
    {
        let builder = TableBuilder { name: name.to_owned(), columns: Vec::new() };
        proof {
            assert(builder.columns() =~= Seq::<ColumnView>::empty());
        }
        builder
    }

    /// Adds a column after those already there.
    pub fn column(self, name: &'static str, data_type: DataType) -> (builder: Self)
        ensures
            builder.name() == self.name(),
            builder.columns() == self.columns().push(ColumnView { name: name@, data_type }),
    {
        let mut builder = self;
        builder.columns.push((name, data_type));
        proof {
            assert(builder.columns() =~= self.columns().push(ColumnView { name: name@, data_type }));
        }
        builder
    }

    /// Declares the table.
    pub fn build(self, writer: &mut MetadataWriter) -> (r: Result<Table, String>)
        ensures
            r matches Ok(table) && table@ == self.name(),
            final(writer)@ == (WriterView {
                tables: old(writer)@.tables.push(
                    TableSchemaView { name: self.name(), columns: self.columns() },
                ),
                ..old(writer)@
            }),
    {
        let TableBuilder { name, columns } = self;
        Table::define(writer, name.as_str(), columns)
    }
}

/// Hands out what was accumulated as the next metadata file; see
/// `guest::metadata::flush`.
pub fn flush(writer: &mut MetadataWriter) -> (r: Result<Option<MetadataFile>, String>)
    ensures
        flushed(*old(writer), *final(writer), r),
{
    crate::guest::metadata::flush(writer)
}

} // verus!
