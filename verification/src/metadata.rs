//! The typed side of the metadata sink: which tables have been declared,
//! and whether a declaration or a row fits what was declared before.

use crate::text::string_equal;
use crate::types::{
    columns_view, schemas_view, values_view, CellValue, CellView, Column, ColumnView, DataType,
    TableSchema, TableSchemaView,
};
use vstd::prelude::*;
use vstd::string::StringExecFns;

verus! {

/// How a second declaration of a table differs from the first.
#[derive(Clone, Copy, Debug, PartialEq, Eq, Structural)]
pub enum SchemaConflict {
    /// The numbers of columns differ.
    ColumnCount { existing: usize, new: usize },
    /// The column at this position has another name.
    ColumnName { index: usize },
    /// The column at this position has another type.
    ColumnType { index: usize },
}

/// Why a row does not fit its table.
#[derive(Clone, Copy, Debug, PartialEq, Eq, Structural)]
pub enum RowError {
    /// No table of that name has been declared.
    UnknownTable,
    /// The row has another number of values than the table has columns.
    Arity { expected: usize, found: usize },
    /// The value at this position has another type than its column.
    Type { index: usize },
}

/// The position of the first column in which two schemas of equal length
/// differ, or their length where they agree throughout.
pub open spec fn first_difference(existing: Seq<ColumnView>, new: Seq<ColumnView>) -> int
    decreases existing.len(),
{
    if existing.len() == 0 || new.len() == 0 {
        0
    } else if existing[0] != new[0] {
        0
    } else {
        1 + first_difference(existing.drop_first(), new.drop_first())
    }
}

/// How a new declaration conflicts with an existing one, if it does: two
/// declarations agree when they list the same column names with the same
/// types in the same order.
pub open spec fn conflict_between(existing: Seq<ColumnView>, new: Seq<ColumnView>) -> Option<
    SchemaConflict,
> {
    if existing.len() != new.len() {
        Some(SchemaConflict::ColumnCount { existing: existing.len() as usize, new: new.len() as usize })
    } else {
        let at = first_difference(existing, new);
        if at >= existing.len() {
            None
        } else if existing[at].name != new[at].name {
            Some(SchemaConflict::ColumnName { index: at as usize })
        } else {
            Some(SchemaConflict::ColumnType { index: at as usize })
        }
    }
}

/// Two declarations conflict exactly when their columns differ.
pub proof fn lemma_conflict_iff_different(existing: Seq<ColumnView>, new: Seq<ColumnView>)
    ensures
        conflict_between(existing, new) is None <==> existing == new,
{
    if existing.len() == new.len() {
        lemma_first_difference(existing, new);
        let at = first_difference(existing, new);
        if at >= existing.len() {
            assert(existing =~= new);
        }
    }
}

/// Below the first difference the columns agree, and at it they differ.
pub proof fn lemma_first_difference(existing: Seq<ColumnView>, new: Seq<ColumnView>)
    requires
        existing.len() == new.len(),
    ensures
        0 <= first_difference(existing, new) <= existing.len(),
        forall|i: int| 0 <= i < first_difference(existing, new) ==> existing[i] == new[i],
        first_difference(existing, new) < existing.len() ==> existing[first_difference(
            existing,
            new,
        )] != new[first_difference(existing, new)],
    decreases existing.len(),
{
    if existing.len() > 0 && existing[0] == new[0] {
        lemma_first_difference(existing.drop_first(), new.drop_first());
        let rest = first_difference(existing.drop_first(), new.drop_first());
        assert forall|i: int| 0 <= i < 1 + rest implies existing[i] == new[i] by {
            if i > 0 {
                assert(existing.drop_first()[i - 1] == new.drop_first()[i - 1]);
            }
        }
        if rest < existing.len() - 1 {
            assert(existing.drop_first()[rest] == existing[rest + 1]);
            assert(new.drop_first()[rest] == new[rest + 1]);
        }
    }
}

/// The position of the first value that has another type than its column,
/// or the number of values where every value fits.
pub open spec fn first_mistyped(columns: Seq<ColumnView>, values: Seq<CellView>) -> int
    decreases values.len(),
{
    if values.len() == 0 || columns.len() == 0 {
        0
    } else if values[0].data_type() != columns[0].data_type {
        0
    } else {
        1 + first_mistyped(columns.drop_first(), values.drop_first())
    }
}

/// Below the first mistyped value every value fits its column, and at it
/// the value does not.
pub proof fn lemma_first_mistyped(columns: Seq<ColumnView>, values: Seq<CellView>)
    requires
        columns.len() == values.len(),
    ensures
        0 <= first_mistyped(columns, values) <= values.len(),
        forall|i: int|
            0 <= i < first_mistyped(columns, values) ==> (#[trigger] values[i]).data_type()
                == columns[i].data_type,
        first_mistyped(columns, values) < values.len() ==> values[first_mistyped(
            columns,
            values,
        )].data_type() != columns[first_mistyped(columns, values)].data_type,
    decreases values.len(),
{
    if values.len() > 0 && values[0].data_type() == columns[0].data_type {
        lemma_first_mistyped(columns.drop_first(), values.drop_first());
        let rest = first_mistyped(columns.drop_first(), values.drop_first());
        assert forall|i: int| 0 <= i < 1 + rest implies (#[trigger] values[i]).data_type()
            == columns[i].data_type by {
            if i > 0 {
                assert(values.drop_first()[i - 1] == values[i]);
                assert(columns.drop_first()[i - 1] == columns[i]);
            }
        }
        if rest < values.len() - 1 {
            assert(values.drop_first()[rest] == values[rest + 1]);
            assert(columns.drop_first()[rest] == columns[rest + 1]);
        }
    }
}

/// Why a row does not fit a list of columns, if it does not: a row fits
/// when it has one value for each column and every value has its column's
/// type. The first value of the wrong type is reported.
pub open spec fn row_error(columns: Seq<ColumnView>, values: Seq<CellView>) -> Option<RowError> {
    if columns.len() != values.len() {
        Some(RowError::Arity { expected: columns.len() as usize, found: values.len() as usize })
    } else if first_mistyped(columns, values) >= values.len() {
        None
    } else {
        Some(RowError::Type { index: first_mistyped(columns, values) as usize })
    }
}

/// A row is accepted exactly when it fits.
pub proof fn lemma_row_error_iff_misfit(columns: Seq<ColumnView>, values: Seq<CellView>)
    ensures
        row_error(columns, values) is None <==> row_fits(columns, values),
{
    if columns.len() == values.len() {
        lemma_first_mistyped(columns, values);
        let at = first_mistyped(columns, values);
        if at < values.len() && row_fits(columns, values) {
            assert(values[at].data_type() == columns[at].data_type);
        }
    }
}

/// The row has one value for each column, each of its column's type.
pub open spec fn row_fits(columns: Seq<ColumnView>, values: Seq<CellView>) -> bool {
    &&& columns.len() == values.len()
    &&& forall|i: int|
        0 <= i < values.len() ==> (#[trigger] values[i]).data_type() == columns[i].data_type
}

/// Some declared table has this name.
pub open spec fn declares(schemas: Seq<TableSchemaView>, name: Seq<char>) -> bool {
    exists|i: int| 0 <= i < schemas.len() && (#[trigger] schemas[i]).name == name
}

/// The declaration of the table of this name.
pub open spec fn declaration_of(schemas: Seq<TableSchemaView>, name: Seq<char>) -> TableSchemaView {
    schemas[choose|i: int| 0 <= i < schemas.len() && (#[trigger] schemas[i]).name == name]
}

/// No two declarations share a table name.
pub open spec fn tables_unique(schemas: Seq<TableSchemaView>) -> bool {
    forall|i: int, j: int|
        0 <= i < schemas.len() && 0 <= j < schemas.len() && (#[trigger] schemas[i]).name == (
        #[trigger] schemas[j]).name ==> i == j
}

/// The tables declared so far.
#[derive(Debug)]
pub struct MetadataStore {
    schemas: Vec<TableSchema>,
}

impl View for MetadataStore {
    type V = Seq<TableSchemaView>;

    closed spec fn view(&self) -> Seq<TableSchemaView> {
        schemas_view(self.schemas@)
    }
}

/// Compares a new declaration against the existing one of the same table.
#[verifier::loop_isolation(false)]
pub fn validate_schema_match(existing: &TableSchema, new: &TableSchema) -> (r: Result<
    (),
    SchemaConflict,
>)
    ensures
        r == match conflict_between(existing@.columns, new@.columns) {
            Some(conflict) => Err::<(), SchemaConflict>(conflict),
            None => Ok(()),
        },
{
    if existing.columns.len() != new.columns.len() {
        return Err(
            SchemaConflict::ColumnCount {
                existing: existing.columns.len(),
                new: new.columns.len(),
            },
        );
    }
    let ghost old_columns = existing@.columns;
    let ghost new_columns = new@.columns;
    proof {
        lemma_first_difference(old_columns, new_columns);
    }
    let mut i: usize = 0;
    while i < existing.columns.len()
        invariant
            i <= existing.columns@.len(),
            forall|j: int| 0 <= j < i ==> old_columns[j] == new_columns[j],
        decreases existing.columns@.len() - i,
    {
        proof {
            assert(old_columns[i as int] == existing.columns@[i as int]@);
            assert(new_columns[i as int] == new.columns@[i as int]@);
        }
        let same_name = string_equal(&existing.columns[i].name, &new.columns[i].name);
        let same_type = existing.columns[i].data_type == new.columns[i].data_type;
        if !same_name || !same_type {
            proof {
                let at = first_difference(old_columns, new_columns);
                assert(old_columns[i as int] != new_columns[i as int]);
                if at < i {
                    assert(old_columns[at] == new_columns[at]);
                }
                if at > i {
                    assert(old_columns[i as int] == new_columns[i as int]);
                }
                assert(at == i);
            }
            if !same_name {
                return Err(SchemaConflict::ColumnName { index: i });
            }
            return Err(SchemaConflict::ColumnType { index: i });
        }
        i += 1;
    }
    proof {
        let at = first_difference(old_columns, new_columns);
        if at < old_columns.len() {
            assert(old_columns[at] == new_columns[at]);
        }
    }
    Ok(())
}

/// Compares a row against the columns of its table.
#[verifier::loop_isolation(false)]
pub fn validate_row(columns: &Vec<Column>, values: &Vec<CellValue>) -> (r: Result<(), RowError>)
    ensures
        r is Ok <==> row_fits(columns_view(columns@), values_view(values@)),
        r == match row_error(columns_view(columns@), values_view(values@)) {
            Some(error) => Err::<(), RowError>(error),
            None => Ok(()),
        },
{
    if columns.len() != values.len() {
        return Err(RowError::Arity { expected: columns.len(), found: values.len() });
    }
    let ghost cols = columns_view(columns@);
    let ghost vals = values_view(values@);
    proof {
        lemma_first_mistyped(cols, vals);
        lemma_row_error_iff_misfit(cols, vals);
    }
    let mut i: usize = 0;
    while i < values.len()
        invariant
            i <= values@.len(),
            forall|j: int| 0 <= j < i ==> (#[trigger] vals[j]).data_type() == cols[j].data_type,
        decreases values@.len() - i,
    {
        proof {
            assert(vals[i as int] == values@[i as int]@);
            assert(cols[i as int] == columns@[i as int]@);
        }
        if values[i].data_type() != columns[i].data_type {
            proof {
                let at = first_mistyped(cols, vals);
                assert(vals[i as int].data_type() != cols[i as int].data_type);
                if at < i {
                    assert(vals[at].data_type() == cols[at].data_type);
                }
                if at > i {
                    assert(vals[i as int].data_type() == cols[i as int].data_type);
                }
            }
            return Err(RowError::Type { index: i });
        }
        i += 1;
    }
    proof {
        let at = first_mistyped(cols, vals);
        if at < vals.len() {
            assert(vals[at].data_type() == cols[at].data_type);
        }
    }
    Ok(())
}

impl MetadataStore {
    /// No table is declared twice.
    pub open spec fn wf(&self) -> bool {
        tables_unique(self@)
    }

    /// A store with no table declared.
    pub fn new() -> (store: Self)
        ensures
            store.wf(),
            store@ == Seq::<TableSchemaView>::empty(),
    {
        let store = MetadataStore { schemas: Vec::new() };
        proof {
            assert(store@ =~= Seq::<TableSchemaView>::empty());
        }
        store
    }

    #[verifier::loop_isolation(false)]
    fn find(&self, name: &str) -> (r: Option<usize>)
        requires
            self.wf(),
        ensures
            match r {
                Some(i) => i < self@.len() && self@[i as int].name == name@ && declares(
                    self@,
                    name@,
                ) && declaration_of(self@, name@) == self@[i as int] && self.schemas@[i as int]@
                    == self@[i as int],
                None => !declares(self@, name@),
            },
    {
        let wanted = name.to_owned();
        let mut i: usize = 0;
        while i < self.schemas.len()
            invariant
                i <= self.schemas@.len(),
                forall|j: int| 0 <= j < i ==> (#[trigger] self@[j]).name != name@,
            decreases self.schemas@.len() - i,
        {
            proof {
                assert(self@[i as int] == self.schemas@[i as int]@);
            }
            if string_equal(&self.schemas[i].name, &wanted) {
                return Some(i);
            }
            i += 1;
        }
        None
    }

    /// Declares a table. The first declaration of a name is recorded, and
    /// the answer is `true`: the table is new. A further declaration with
    /// the same columns changes nothing, and the answer is `false`. A
    /// further declaration with other columns is refused and changes
    /// nothing.
    pub fn define_table(&mut self, schema: TableSchema) -> (r: Result<bool, SchemaConflict>)
        requires
            old(self).wf(),
        ensures
            final(self).wf(),
            !declares(old(self)@, schema@.name) ==> r == Ok::<bool, SchemaConflict>(true)
                && final(self)@ == old(self)@.push(schema@),
            declares(old(self)@, schema@.name) ==> final(self)@ == old(self)@ && r == (
            match conflict_between(declaration_of(old(self)@, schema@.name).columns, schema@.columns) {
                Some(conflict) => Err::<bool, SchemaConflict>(conflict),
                None => Ok(false),
            }),
    {
        match self.find(schema.name.as_str()) {
            Some(i) => match validate_schema_match(&self.schemas[i], &schema) {
                Ok(()) => Ok(false),
                Err(conflict) => Err(conflict),
            },
            None => {
                self.schemas.push(schema);
                proof {
                    assert(self@ =~= old(self)@.push(schema@));
                    assert forall|i: int, j: int|
                        0 <= i < self@.len() && 0 <= j < self@.len() && (#[trigger] self@[i]).name
                            == (#[trigger] self@[j]).name implies i == j by {
                        if i < old(self)@.len() && j < old(self)@.len() {
                            assert(old(self)@[i].name == old(self)@[j].name);
                        } else if i < old(self)@.len() {
                            assert(old(self)@[i].name == schema@.name);
                        } else if j < old(self)@.len() {
                            assert(old(self)@[j].name == schema@.name);
                        }
                    }
                }
                Ok(true)
            },
        }
    }

    /// Checks a row against the declaration of its table. A row is accepted
    /// exactly when its table is declared, it has one value for each column,
    /// and every value has its column's type.
    pub fn insert_row(&self, table: &str, values: &Vec<CellValue>) -> (r: Result<(), RowError>)
        requires
            self.wf(),
        ensures
            r is Ok <==> declares(self@, table@) && row_fits(
                declaration_of(self@, table@).columns,
                values_view(values@),
            ),
            r == if !declares(self@, table@) {
                Err::<(), RowError>(RowError::UnknownTable)
            } else {
                match row_error(declaration_of(self@, table@).columns, values_view(values@)) {
                    Some(error) => Err(error),
                    None => Ok(()),
                }
            },
    {
        match self.find(table) {
            Some(i) => {
                proof {
                    assert(columns_view(self.schemas@[i as int].columns@) == self@[i as int].columns);
                }
                validate_row(&self.schemas[i].columns, values)
            },
            None => Err(RowError::UnknownTable),
        }
    }

    /// The number of tables declared.
    pub fn table_count(&self) -> (n: usize)
        ensures
            n == self@.len(),
    {
        self.schemas.len()
    }
}

/// Declaring a table again with the same columns changes nothing and
/// succeeds; declaring it again with any difference fails.
pub proof fn lemma_redefinition(
    declared: Seq<TableSchemaView>,
    name: Seq<char>,
    columns: Seq<ColumnView>,
)
    requires
        declares(declared, name),
    ensures
        conflict_between(declaration_of(declared, name).columns, columns) is None
            <==> declaration_of(declared, name).columns == columns,
{
    lemma_conflict_iff_different(declaration_of(declared, name).columns, columns);
}


/// The SQL type of a column type.
pub open spec fn sql_type(data_type: DataType) -> Seq<char> {
    match data_type {
        DataType::Int64 => "INTEGER"@,
        DataType::Float64 => "REAL"@,
        DataType::String => "TEXT"@,
    }
}

/// The clauses of the first `n` columns: name, type, comma.
pub open spec fn column_clauses(columns: Seq<ColumnView>, n: int) -> Seq<char>
    decreases n,
{
    if n <= 0 {
        Seq::empty()
    } else {
        column_clauses(columns, n - 1) + columns[n - 1].name + " "@ + sql_type(
            columns[n - 1].data_type,
        ) + ", "@
    }
}

/// The statement that creates a declared table: the content's identifier
/// comes first, then the declared columns, and every row refers to its
/// content.
pub open spec fn create_table_statement(schema: TableSchemaView) -> Seq<char> {
    "CREATE TABLE IF NOT EXISTS "@ + schema.name + " (content_uuid TEXT NOT NULL, "@
        + column_clauses(schema.columns, schema.columns.len() as int)
        + "FOREIGN KEY(content_uuid) REFERENCES __wadup_content(uuid))"@
}

/// Writes the statement that creates a declared table.
pub fn create_table_sql(schema: &TableSchema) -> (sql: String)
    ensures
        sql@ == create_table_statement(schema@),
{
    let mut sql = String::from_str("CREATE TABLE IF NOT EXISTS ");
    sql.append(schema.name.as_str());
    sql.append(" (content_uuid TEXT NOT NULL, ");
    let ghost head = sql@;
    let ghost columns = schema@.columns;
    let mut i: usize = 0;
    proof {
        assert(sql@ =~= head + column_clauses(columns, 0));
    }
    while i < schema.columns.len()
        invariant
            i <= schema.columns@.len(),
            columns == schema@.columns,
            columns.len() == schema.columns@.len(),
            sql@ == head + column_clauses(columns, i as int),
        decreases schema.columns@.len() - i,
    {
        proof {
            assert(columns[i as int] == schema.columns@[i as int]@);
        }
        sql.append(schema.columns[i].name.as_str());
        sql.append(" ");
        sql.append(
            match schema.columns[i].data_type {
                DataType::Int64 => "INTEGER",
                DataType::Float64 => "REAL",
                DataType::String => "TEXT",
            },
        );
        sql.append(", ");
        proof {
            assert(sql@ =~= head + column_clauses(columns, i as int + 1));
        }
        i += 1;
    }
    sql.append("FOREIGN KEY(content_uuid) REFERENCES __wadup_content(uuid))");
    proof {
        assert(sql@ =~= create_table_statement(schema@));
    }
    sql
}

/// One placeholder for the content's identifier and one for each of `n`
/// values, separated by commas.
pub open spec fn placeholders(n: nat) -> Seq<char>
    decreases n,
{
    if n == 0 {
        "?"@
    } else {
        placeholders((n - 1) as nat) + ", ?"@
    }
}

/// The statement that inserts a row of `n` values into a table.
pub open spec fn insert_row_statement(table: Seq<char>, n: nat) -> Seq<char> {
    "INSERT INTO "@ + table + " VALUES ("@ + placeholders(n) + ")"@
}

/// Writes the statement that inserts a row of `values` values into a table.
pub fn insert_row_sql(table: &str, values: usize) -> (sql: String)
    ensures
        sql@ == insert_row_statement(table@, values as nat),
{
    let mut sql = String::from_str("INSERT INTO ");
    sql.append(table);
    sql.append(" VALUES (");
    let ghost head = sql@;
    sql.append("?");
    let mut i: usize = 0;
    while i < values
        invariant
            i <= values,
            sql@ == head + placeholders(i as nat),
        decreases values - i,
    {
        sql.append(", ?");
        i += 1;
        proof {
            assert(sql@ =~= head + placeholders(i as nat));
        }
    }
    sql.append(")");
    proof {
        assert(sql@ =~= insert_row_statement(table@, values as nat));
    }
    sql
}

} // verus!
