//! The metadata sink as the scheduler sees it, kept in memory: declared
//! tables, accepted rows, recorded module output, and the status of every
//! content.

use crate::metadata::{
    conflict_between, declaration_of, declares, row_error, row_fits, tables_unique, MetadataStore,
    RowError, SchemaConflict,
};
use crate::content::ContentView;
use crate::processor::{
    failure_summary, failures, final_action, module_actions, optional_bytes, reports_actions,
    sink_plan, ActionView, ResultView, SinkAction,
};
use crate::types::{values_view, CellValue, CellView, TableSchemaView};
use vstd::pervasive::VecAdditionalExecFns;
use vstd::prelude::*;

verus! {

/// Where a content stands.
#[derive(Debug)]
pub enum ContentStatus {
    /// Started, no final status yet.
    Processing,
    Success,
    Failed(String),
}

/// A content's status in plain values.
pub enum StatusView {
    Processing,
    Success,
    Failed(Seq<char>),
}

impl View for ContentStatus {
    type V = StatusView;

    open spec fn view(&self) -> StatusView {
        match *self {
            ContentStatus::Processing => StatusView::Processing,
            ContentStatus::Success => StatusView::Success,
            ContentStatus::Failed(message) => StatusView::Failed(message@),
        }
    }
}

impl StatusView {
    /// The status is a final one.
    pub open spec fn is_final(self) -> bool {
        !(self is Processing)
    }
}

/// What the sink knows of one content.
#[derive(Debug)]
pub struct ContentRecord {
    pub uuid: u128,
    pub filename: String,
    pub parent_uuid: Option<u128>,
    pub status: ContentStatus,
}

/// A content record in plain values.
pub struct RecordView {
    pub uuid: u128,
    pub filename: Seq<char>,
    pub parent_uuid: Option<u128>,
    pub status: StatusView,
}

impl View for ContentRecord {
    type V = RecordView;

    open spec fn view(&self) -> RecordView {
        RecordView {
            uuid: self.uuid,
            filename: self.filename@,
            parent_uuid: self.parent_uuid,
            status: self.status@,
        }
    }
}

/// A row that the sink accepted.
#[derive(Debug)]
pub struct StoredRow {
    pub table: String,
    pub uuid: u128,
    pub values: Vec<CellValue>,
}

/// An accepted row in plain values.
pub struct StoredRowView {
    pub table: Seq<char>,
    pub uuid: u128,
    pub values: Seq<CellView>,
}

impl View for StoredRow {
    type V = StoredRowView;

    open spec fn view(&self) -> StoredRowView {
        StoredRowView { table: self.table@, uuid: self.uuid, values: values_view(self.values@) }
    }
}

/// What a module wrote to its standard streams while it processed a
/// content.
#[derive(Debug)]
pub struct OutputRecord {
    pub uuid: u128,
    pub module_name: String,
    pub stdout: Option<Vec<u8>>,
    pub stderr: Option<Vec<u8>>,
    pub stdout_truncated: bool,
    pub stderr_truncated: bool,
}

/// A module's recorded output in plain values.
pub struct OutputView {
    pub uuid: u128,
    pub module_name: Seq<char>,
    pub stdout: Option<Seq<u8>>,
    pub stderr: Option<Seq<u8>>,
    pub stdout_truncated: bool,
    pub stderr_truncated: bool,
}

impl View for OutputRecord {
    type V = OutputView;

    open spec fn view(&self) -> OutputView {
        OutputView {
            uuid: self.uuid,
            module_name: self.module_name@,
            stdout: optional_bytes(self.stdout),
            stderr: optional_bytes(self.stderr),
            stdout_truncated: self.stdout_truncated,
            stderr_truncated: self.stderr_truncated,
        }
    }
}

/// Why the sink refused an operation.
#[derive(Clone, Copy, Debug, PartialEq, Eq, Structural)]
pub enum SinkError {
    /// A table was declared again with other columns.
    SchemaConflict(SchemaConflict),
    /// A row does not fit the declaration of its table.
    Row(RowError),
    /// A final status was sent for a content that was never started.
    UnknownContent,
}

/// The sink's state in plain values.
pub struct SinkView {
    pub tables: Seq<TableSchemaView>,
    pub rows: Seq<StoredRowView>,
    pub outputs: Seq<OutputView>,
    pub contents: Seq<RecordView>,
    pub current_module: Option<(u128, Seq<char>)>,
}

/// Some record is about this content.
pub open spec fn knows(contents: Seq<RecordView>, uuid: u128) -> bool {
    exists|i: int| 0 <= i < contents.len() && (#[trigger] contents[i]).uuid == uuid
}

/// The position of the record about this content.
pub open spec fn record_index(contents: Seq<RecordView>, uuid: u128) -> int {
    choose|i: int| 0 <= i < contents.len() && (#[trigger] contents[i]).uuid == uuid
}

/// No two records are about the same content.
pub open spec fn records_unique(contents: Seq<RecordView>) -> bool {
    forall|i: int, j: int|
        0 <= i < contents.len() && 0 <= j < contents.len() && (#[trigger] contents[i]).uuid == (
        #[trigger] contents[j]).uuid ==> i == j
}

/// The records after the one about `record.uuid` was replaced by `record`,
/// or `record` was added where there was none.
pub open spec fn with_record(contents: Seq<RecordView>, record: RecordView) -> Seq<RecordView> {
    if knows(contents, record.uuid) {
        contents.update(record_index(contents, record.uuid), record)
    } else {
        contents.push(record)
    }
}

impl SinkView {
    /// Tables are declared once, every accepted row fits the declaration of
    /// its table, and every content has one record.
    pub open spec fn wf(self) -> bool {
        &&& tables_unique(self.tables)
        &&& records_unique(self.contents)
        &&& forall|i: int|
            0 <= i < self.rows.len() ==> declares(self.tables, (#[trigger] self.rows[i]).table)
                && row_fits(
                declaration_of(self.tables, self.rows[i].table).columns,
                self.rows[i].values,
            )
    }

    /// The status recorded for a content.
    pub open spec fn status_of(self, uuid: u128) -> Option<StatusView> {
        if knows(self.contents, uuid) {
            Some(self.contents[record_index(self.contents, uuid)].status)
        } else {
            None
        }
    }

    /// The state with the status of a known content replaced.
    pub open spec fn with_status(self, uuid: u128, status: StatusView) -> SinkView {
        let at = record_index(self.contents, uuid);
        SinkView {
            contents: self.contents.update(at, RecordView { status, ..self.contents[at] }),
            ..self
        }
    }

    /// What an operation does to the sink, and the error it is refused
    /// with, if it is. Starting a content records it as being processed. A
    /// table is recorded at its first declaration; a further declaration
    /// must agree with it. A row is kept only if it fits its table. A final
    /// status replaces the status of a content that was started.
    pub open spec fn apply(self, action: ActionView) -> (SinkView, Option<SinkError>) {
        match action {
            ActionView::StartContent { uuid, filename, parent_uuid } => (
                SinkView {
                    contents: with_record(
                        self.contents,
                        RecordView { uuid, filename, parent_uuid, status: StatusView::Processing },
                    ),
                    ..self
                },
                None,
            ),
            ActionView::SetCurrentModule { uuid, module_name } => (
                SinkView { current_module: Some((uuid, module_name)), ..self },
                None,
            ),
            ActionView::DefineTable { schema } => if !declares(self.tables, schema.name) {
                (SinkView { tables: self.tables.push(schema), ..self }, None)
            } else {
                (
                    self,
                    match conflict_between(
                        declaration_of(self.tables, schema.name).columns,
                        schema.columns,
                    ) {
                        Some(conflict) => Some(SinkError::SchemaConflict(conflict)),
                        None => None,
                    },
                )
            },
            ActionView::InsertRow { table, uuid, values } => if !declares(self.tables, table) {
                (self, Some(SinkError::Row(RowError::UnknownTable)))
            } else {
                match row_error(declaration_of(self.tables, table).columns, values) {
                    Some(error) => (self, Some(SinkError::Row(error))),
                    None => (
                        SinkView {
                            rows: self.rows.push(StoredRowView { table, uuid, values }),
                            ..self
                        },
                        None,
                    ),
                }
            },
            ActionView::RecordModuleOutput {
                uuid,
                module_name,
                stdout,
                stderr,
                stdout_truncated,
                stderr_truncated,
            } => (
                SinkView {
                    outputs: self.outputs.push(
                        OutputView {
                            uuid,
                            module_name,
                            stdout,
                            stderr,
                            stdout_truncated,
                            stderr_truncated,
                        },
                    ),
                    ..self
                },
                None,
            ),
            ActionView::FinalizeSuccess { uuid } => if knows(self.contents, uuid) {
                (self.with_status(uuid, StatusView::Success), None)
            } else {
                (self, Some(SinkError::UnknownContent))
            },
            ActionView::FinalizeFailure { uuid, error_message } => if knows(self.contents, uuid) {
                (self.with_status(uuid, StatusView::Failed(error_message)), None)
            } else {
                (self, Some(SinkError::UnknownContent))
            },
        }
    }

    /// The sink after the first `n` of some operations, applied in order. An
    /// operation that is refused does not stop those that follow.
    pub open spec fn apply_all(self, actions: Seq<ActionView>, n: int) -> SinkView
        decreases n,
    {
        if n <= 0 {
            self
        } else {
            self.apply_all(actions, n - 1).apply(actions[n - 1]).0
        }
    }
}

/// The plain values of a sequence of content records.
pub open spec fn records_view(records: Seq<ContentRecord>) -> Seq<RecordView> {
    Seq::new(records.len(), |i: int| records[i]@)
}

/// The plain values of a sequence of accepted rows.
pub open spec fn stored_rows_view(rows: Seq<StoredRow>) -> Seq<StoredRowView> {
    Seq::new(rows.len(), |i: int| rows[i]@)
}

/// The plain values of a sequence of output records.
pub open spec fn outputs_view(outputs: Seq<OutputRecord>) -> Seq<OutputView> {
    Seq::new(outputs.len(), |i: int| outputs[i]@)
}

/// A metadata sink that keeps everything in memory.
#[derive(Debug)]
pub struct MemorySink {
    tables: MetadataStore,
    rows: Vec<StoredRow>,
    outputs: Vec<OutputRecord>,
    contents: Vec<ContentRecord>,
    current_module: Option<(u128, String)>,
}

impl View for MemorySink {
    type V = SinkView;

    closed spec fn view(&self) -> SinkView {
        SinkView {
            tables: self.tables@,
            rows: stored_rows_view(self.rows@),
            outputs: outputs_view(self.outputs@),
            contents: records_view(self.contents@),
            current_module: match self.current_module {
                Some((uuid, name)) => Some((uuid, name@)),
                None => None,
            },
        }
    }
}

/// Declaring a further table leaves the declarations of the others as they
/// were.
pub proof fn lemma_declaration_kept(
    tables: Seq<TableSchemaView>,
    added: TableSchemaView,
    name: Seq<char>,
)
    requires
        tables_unique(tables),
        !declares(tables, added.name),
        declares(tables, name),
    ensures
        tables_unique(tables.push(added)),
        declares(tables.push(added), name),
        declaration_of(tables.push(added), name) == declaration_of(tables, name),
{
    let grown = tables.push(added);
    assert forall|i: int, j: int|
        0 <= i < grown.len() && 0 <= j < grown.len() && (#[trigger] grown[i]).name == (
        #[trigger] grown[j]).name implies i == j by {
        if i < tables.len() && j < tables.len() {
            assert(tables[i].name == tables[j].name);
        } else if i < tables.len() {
            assert(tables[i].name == added.name);
        } else if j < tables.len() {
            assert(tables[j].name == added.name);
        }
    }
    let at = choose|i: int| 0 <= i < tables.len() && (#[trigger] tables[i]).name == name;
    assert(grown[at].name == name);
    let found = choose|i: int| 0 <= i < grown.len() && (#[trigger] grown[i]).name == name;
    assert(grown[found].name == grown[at].name);
}

/// Whatever is applied to a well-formed sink leaves it well formed: tables
/// stay declared as they were first declared, every row that is kept fits
/// its table, and every content keeps a single record.
pub proof fn lemma_apply_keeps_wf(sink: SinkView, action: ActionView)
    requires
        sink.wf(),
    ensures
        sink.apply(action).0.wf(),
{
    let after = sink.apply(action).0;
    match action {
        ActionView::StartContent { uuid, filename, parent_uuid } => {
            let record = RecordView { uuid, filename, parent_uuid, status: StatusView::Processing };
            lemma_with_record_unique(sink.contents, record);
        },
        ActionView::DefineTable { schema } => {
            if !declares(sink.tables, schema.name) {
                assert forall|i: int| 0 <= i < after.rows.len() implies declares(
                    after.tables,
                    (#[trigger] after.rows[i]).table,
                ) && row_fits(
                    declaration_of(after.tables, after.rows[i].table).columns,
                    after.rows[i].values,
                ) by {
                    lemma_declaration_kept(sink.tables, schema, sink.rows[i].table);
                }
                if sink.tables.len() > 0 {
                    lemma_declaration_kept(sink.tables, schema, sink.tables[0].name);
                } else {
                    assert(tables_unique(after.tables));
                }
            }
        },
        ActionView::InsertRow { table, uuid, values } => {
            if declares(sink.tables, table) {
                crate::metadata::lemma_row_error_iff_misfit(
                    declaration_of(sink.tables, table).columns,
                    values,
                );
            }
        },
        ActionView::FinalizeSuccess { uuid } => {
            if knows(sink.contents, uuid) {
                lemma_with_status_unique(sink.contents, uuid, StatusView::Success);
            }
        },
        ActionView::FinalizeFailure { uuid, error_message } => {
            if knows(sink.contents, uuid) {
                lemma_with_status_unique(sink.contents, uuid, StatusView::Failed(error_message));
            }
        },
        _ => {},
    }
}

proof fn lemma_with_record_unique(contents: Seq<RecordView>, record: RecordView)
    requires
        records_unique(contents),
    ensures
        records_unique(with_record(contents, record)),
        knows(with_record(contents, record), record.uuid),
        with_record(contents, record)[record_index(with_record(contents, record), record.uuid)]
            == record,
{
    let after = with_record(contents, record);
    if knows(contents, record.uuid) {
        let at = record_index(contents, record.uuid);
        assert forall|i: int, j: int|
            0 <= i < after.len() && 0 <= j < after.len() && (#[trigger] after[i]).uuid == (
            #[trigger] after[j]).uuid implies i == j by {
            assert(contents[i].uuid == contents[j].uuid);
        }
        assert(after[at].uuid == record.uuid);
        let found = record_index(after, record.uuid);
        assert(after[found].uuid == after[at].uuid);
    } else {
        assert forall|i: int, j: int|
            0 <= i < after.len() && 0 <= j < after.len() && (#[trigger] after[i]).uuid == (
            #[trigger] after[j]).uuid implies i == j by {
            if i < contents.len() && j < contents.len() {
                assert(contents[i].uuid == contents[j].uuid);
            } else if i < contents.len() {
                assert(contents[i].uuid == record.uuid);
            } else if j < contents.len() {
                assert(contents[j].uuid == record.uuid);
            }
        }
        let at = contents.len() as int;
        assert(after[at].uuid == record.uuid);
        let found = record_index(after, record.uuid);
        assert(after[found].uuid == after[at].uuid);
    }
}

proof fn lemma_with_status_unique(contents: Seq<RecordView>, uuid: u128, status: StatusView)
    requires
        records_unique(contents),
        knows(contents, uuid),
    ensures
        ({
            let at = record_index(contents, uuid);
            let after = contents.update(at, RecordView { status, ..contents[at] });
            &&& records_unique(after)
            &&& knows(after, uuid)
            &&& record_index(after, uuid) == at
            &&& forall|other: u128| knows(after, other) == knows(contents, other)
        }),
{
    let at = record_index(contents, uuid);
    let after = contents.update(at, RecordView { status, ..contents[at] });
    assert forall|i: int, j: int|
        0 <= i < after.len() && 0 <= j < after.len() && (#[trigger] after[i]).uuid == (
        #[trigger] after[j]).uuid implies i == j by {
        assert(contents[i].uuid == contents[j].uuid);
    }
    assert(after[at].uuid == uuid);
    let found = record_index(after, uuid);
    assert(after[found].uuid == after[at].uuid);
    assert forall|other: u128| knows(after, other) == knows(contents, other) by {
        if knows(contents, other) {
            let i = record_index(contents, other);
            assert(after[i].uuid == other);
        }
        if knows(after, other) {
            let i = record_index(after, other);
            assert(contents[i].uuid == other);
        }
    }
}

impl MemorySink {
    /// The sink's state is well formed.
    pub open spec fn wf(&self) -> bool {
        self@.wf()
    }

    /// A sink that has seen nothing.
    pub fn new() -> (sink: Self)
        ensures
            sink.wf(),
            sink@ == (SinkView {
                tables: Seq::empty(),
                rows: Seq::empty(),
                outputs: Seq::empty(),
                contents: Seq::empty(),
                current_module: None,
            }),
    {
        let sink = MemorySink {
            tables: MetadataStore::new(),
            rows: Vec::new(),
            outputs: Vec::new(),
            contents: Vec::new(),
            current_module: None,
        };
        proof {
            assert(sink@.rows =~= Seq::empty());
            assert(sink@.outputs =~= Seq::empty());
            assert(sink@.contents =~= Seq::empty());
        }
        sink
    }

    #[verifier::loop_isolation(false)]
    fn find_record(&self, uuid: u128) -> (r: Option<usize>)
        requires
            self.wf(),
        ensures
            match r {
                Some(i) => i < self@.contents.len() && knows(self@.contents, uuid) && record_index(
                    self@.contents,
                    uuid,
                ) == i,
                None => !knows(self@.contents, uuid),
            },
    {
        let mut i: usize = 0;
        while i < self.contents.len()
            invariant
                i <= self.contents@.len(),
                forall|j: int| 0 <= j < i ==> (#[trigger] self@.contents[j]).uuid != uuid,
            decreases self.contents@.len() - i,
        {
            proof {
                assert(self@.contents[i as int] == self.contents@[i as int]@);
            }
            if self.contents[i].uuid == uuid {
                proof {
                    let found = record_index(self@.contents, uuid);
                    assert(self@.contents[found].uuid == self@.contents[i as int].uuid);
                }
                return Some(i);
            }
            i += 1;
        }
        None
    }

    fn put_record(&mut self, record: ContentRecord)
        requires
            old(self).wf(),
        ensures
            final(self).wf(),
            final(self)@ == (SinkView {
                contents: with_record(old(self)@.contents, record@),
                ..old(self)@
            }),
    {
        proof {
            lemma_with_record_unique(self@.contents, record@);
        }
        match self.find_record(record.uuid) {
            Some(i) => {
                self.contents.set(i, record);
                proof {
                    assert(self@.contents =~= with_record(old(self)@.contents, record@));
                    assert(self@.rows =~= old(self)@.rows);
                    assert(self@.outputs =~= old(self)@.outputs);
                }
            },
            None => {
                self.contents.push(record);
                proof {
                    assert(self@.contents =~= with_record(old(self)@.contents, record@));
                    assert(self@.rows =~= old(self)@.rows);
                    assert(self@.outputs =~= old(self)@.outputs);
                }
            },
        }
    }

    fn set_status(&mut self, uuid: u128, status: ContentStatus) -> (r: Result<(), SinkError>)
        requires
            old(self).wf(),
        ensures
            final(self).wf(),
            knows(old(self)@.contents, uuid) ==> r is Ok && final(self)@ == old(self)@.with_status(
                uuid,
                status@,
            ),
            !knows(old(self)@.contents, uuid) ==> r == Err::<(), SinkError>(
                SinkError::UnknownContent,
            ) && final(self)@ == old(self)@,
    {
        match self.find_record(uuid) {
            Some(i) => {
                proof {
                    lemma_with_status_unique(self@.contents, uuid, status@);
                    assert(self@.contents[i as int] == self.contents@[i as int]@);
                }
                let mut swapped = ContentRecord {
                    uuid,
                    filename: String::new(),
                    parent_uuid: None,
                    status: ContentStatus::Processing,
                };
                self.contents.set_and_swap(i, &mut swapped);
                let ContentRecord { uuid: kept, filename, parent_uuid, status: _ } = swapped;
                self.contents.set(i, ContentRecord { uuid: kept, filename, parent_uuid, status });
                proof {
                    assert(self@.contents =~= old(self)@.with_status(uuid, status@).contents);
                    assert(self@.rows =~= old(self)@.rows);
                    assert(self@.outputs =~= old(self)@.outputs);
                }
                Ok(())
            },
            None => Err(SinkError::UnknownContent),
        }
    }

    /// Carries out one operation.
    pub fn apply(&mut self, action: SinkAction) -> (r: Result<(), SinkError>)
        requires
            old(self).wf(),
        ensures
            final(self).wf(),
            final(self)@ == old(self)@.apply(action@).0,
            match old(self)@.apply(action@).1 {
                Some(error) => r == Err::<(), SinkError>(error),
                None => r is Ok,
            },
    {
        proof {
            lemma_apply_keeps_wf(self@, action@);
        }
        match action {
            SinkAction::StartContent { uuid, filename, parent_uuid } => {
                self.put_record(
                    ContentRecord { uuid, filename, parent_uuid, status: ContentStatus::Processing },
                );
                Ok(())
            },
            SinkAction::SetCurrentModule { uuid, module_name } => {
                self.current_module = Some((uuid, module_name));
                proof {
                    assert(self@.rows =~= old(self)@.rows);
                    assert(self@.outputs =~= old(self)@.outputs);
                    assert(self@.contents =~= old(self)@.contents);
                }
                Ok(())
            },
            SinkAction::DefineTable { schema } => {
                let outcome = self.tables.define_table(schema);
                proof {
                    assert(self@.rows =~= old(self)@.rows);
                    assert(self@.outputs =~= old(self)@.outputs);
                    assert(self@.contents =~= old(self)@.contents);
                }
                match outcome {
                    Ok(_) => Ok(()),
                    Err(conflict) => Err(SinkError::SchemaConflict(conflict)),
                }
            },
            SinkAction::InsertRow { table, uuid, values } => {
                match self.tables.insert_row(table.as_str(), &values) {
                    Ok(()) => {
                        let ghost row = (StoredRow { table, uuid, values })@;
                        self.rows.push(StoredRow { table, uuid, values });
                        proof {
                            assert(self@.rows =~= old(self)@.rows.push(row));
                            assert(self@.outputs =~= old(self)@.outputs);
                            assert(self@.contents =~= old(self)@.contents);
                        }
                        Ok(())
                    },
                    Err(error) => Err(SinkError::Row(error)),
                }
            },
            SinkAction::RecordModuleOutput {
                uuid,
                module_name,
                stdout,
                stderr,
                stdout_truncated,
                stderr_truncated,
            } => {
                let record = OutputRecord {
                    uuid,
                    module_name,
                    stdout,
                    stderr,
                    stdout_truncated,
                    stderr_truncated,
                };
                let ghost view = record@;
                self.outputs.push(record);
                proof {
                    assert(self@.outputs =~= old(self)@.outputs.push(view));
                    assert(self@.rows =~= old(self)@.rows);
                    assert(self@.contents =~= old(self)@.contents);
                }
                Ok(())
            },
            SinkAction::FinalizeSuccess { uuid } => self.set_status(uuid, ContentStatus::Success),
            SinkAction::FinalizeFailure { uuid, error_message } => self.set_status(
                uuid,
                ContentStatus::Failed(error_message),
            ),
        }
    }

    /// Carries out operations in order and hands out the errors of those
    /// that were refused. A refused operation does not stop those that
    /// follow.
    pub fn apply_all(&mut self, actions: Vec<SinkAction>) -> (errors: Vec<SinkError>)
        requires
            old(self).wf(),
        ensures
            final(self).wf(),
            final(self)@ == old(self)@.apply_all(
                crate::processor::actions_view(actions@),
                actions@.len() as int,
            ),
    {
        let ghost all = crate::processor::actions_view(actions@);
        let mut errors: Vec<SinkError> = Vec::new();
        for action in it: actions
            invariant
                it.seq() == actions@,
                all == crate::processor::actions_view(actions@),
                self.wf(),
                self@ == old(self)@.apply_all(all, it.index() as int),
        {
            proof {
                assert(all[it.index() as int] == action@);
            }
            match self.apply(action) {
                Ok(()) => {},
                Err(error) => {
                    errors.push(error);
                },
            }
        }
        errors
    }

    /// The status recorded for a content.
    pub fn status(&self, uuid: u128) -> (r: Option<&ContentStatus>)
        requires
            self.wf(),
        ensures
            match self@.status_of(uuid) {
                Some(status) => r matches Some(s) && s@ == status,
                None => r is None,
            },
    {
        match self.find_record(uuid) {
            Some(i) => {
                proof {
                    assert(self@.contents[i as int] == self.contents@[i as int]@);
                }
                Some(&self.contents[i].status)
            },
            None => None,
        }
    }

    /// The rows that were accepted, in the order in which they came.
    pub fn rows(&self) -> (rows: &Vec<StoredRow>)
        ensures
            stored_rows_view(rows@) == self@.rows,
    {
        &self.rows
    }

    /// The module outputs that were recorded, in the order in which they
    /// came.
    pub fn outputs(&self) -> (outputs: &Vec<OutputRecord>)
        ensures
            outputs_view(outputs@) == self@.outputs,
    {
        &self.outputs
    }

    /// The records of all contents, in the order in which they were first
    /// started.
    pub fn contents(&self) -> (contents: &Vec<ContentRecord>)
        ensures
            records_view(contents@) == self@.contents,
    {
        &self.contents
    }
}


/// Whatever the sink is sent, it stays well formed: every row it keeps has
/// as many values as its table has columns, each of its column's type,
/// tables stay as they were first declared, and no content has two records.
pub proof fn lemma_apply_all_keeps_wf(sink: SinkView, actions: Seq<ActionView>, n: int)
    requires
        sink.wf(),
    ensures
        sink.apply_all(actions, n).wf(),
    decreases n,
{
    if n > 0 {
        lemma_apply_all_keeps_wf(sink, actions, n - 1);
        lemma_apply_keeps_wf(sink.apply_all(actions, n - 1), actions[n - 1]);
    }
}

/// The operation neither starts a content nor records a final status.
pub open spec fn leaves_contents(action: ActionView) -> bool {
    !(action is StartContent) && !action.is_final()
}

proof fn lemma_reports_leave_contents(uuid: u128, results: Seq<ResultView>, n: int)
    ensures
        forall|i: int|
            0 <= i < reports_actions(uuid, results, n).len() ==> leaves_contents(
                #[trigger] reports_actions(uuid, results, n)[i],
            ),
    decreases n,
{
    if n > 0 {
        lemma_reports_leave_contents(uuid, results, n - 1);
        let before = reports_actions(uuid, results, n - 1);
        let last = module_actions(uuid, results[n - 1]);
        assert forall|i: int| 0 <= i < last.len() implies leaves_contents(#[trigger] last[i]) by {}
        assert forall|i: int| 0 <= i < (before + last).len() implies leaves_contents(
            #[trigger] (before + last)[i],
        ) by {
            if i < before.len() {
                assert((before + last)[i] == before[i]);
            } else {
                assert((before + last)[i] == last[i - before.len()]);
            }
        }
    }
}

/// Operations that leave the contents alone leave them alone together.
proof fn lemma_contents_kept(sink: SinkView, actions: Seq<ActionView>, from: int, n: int)
    requires
        0 <= from <= n <= actions.len(),
        forall|i: int| from <= i < n ==> leaves_contents(#[trigger] actions[i]),
    ensures
        sink.apply_all(actions, n).contents == sink.apply_all(actions, from).contents,
    decreases n - from,
{
    if from < n {
        lemma_contents_kept(sink, actions, from, n - 1);
    }
}

/// Once everything planned for a content has been applied, the sink holds
/// a single record for the content, and that record carries the content's
/// final status: success where no module failed, and failure with the
/// summary of the failures otherwise.
pub proof fn lemma_plan_leaves_one_final_status(
    sink: SinkView,
    content: ContentView,
    results: Seq<ResultView>,
)
    requires
        sink.wf(),
    ensures
        ({
            let plan = sink_plan(content, results);
            let after = sink.apply_all(plan, plan.len() as int);
            &&& after.wf()
            &&& records_unique(after.contents)
            &&& after.status_of(content.uuid) == Some(
                if failures(results, results.len() as int) == 0 {
                    StatusView::Success
                } else {
                    StatusView::Failed(failure_summary(results, results.len() as int))
                },
            )
            &&& after.status_of(content.uuid)->0.is_final()
        }),
{
    let plan = sink_plan(content, results);
    let middle = reports_actions(content.uuid, results, results.len() as int);
    let total = plan.len() as int;
    assert(total == middle.len() + 2);
    let record = RecordView {
        uuid: content.uuid,
        filename: content.filename,
        parent_uuid: content.parent_uuid,
        status: StatusView::Processing,
    };
    lemma_apply_all_keeps_wf(sink, plan, total);
    lemma_apply_all_keeps_wf(sink, plan, total - 1);
    // the start
    assert(sink.apply_all(plan, 0) == sink);
    assert(plan[0] == ActionView::StartContent {
        uuid: content.uuid,
        filename: content.filename,
        parent_uuid: content.parent_uuid,
    });
    let started = sink.apply_all(plan, 1);
    assert(started == sink.apply(plan[0]).0);
    lemma_with_record_unique(sink.contents, record);
    // the reports
    lemma_reports_leave_contents(content.uuid, results, results.len() as int);
    assert forall|i: int| 1 <= i < total - 1 implies leaves_contents(#[trigger] plan[i]) by {
        assert(plan[i] == middle[i - 1]);
    }
    lemma_contents_kept(sink, plan, 1, total - 1);
    let reported = sink.apply_all(plan, total - 1);
    assert(reported.contents == started.contents);
    // the final status
    assert(plan[total - 1] == final_action(content.uuid, results));
    let status = if failures(results, results.len() as int) == 0 {
        StatusView::Success
    } else {
        StatusView::Failed(failure_summary(results, results.len() as int))
    };
    lemma_with_status_unique(reported.contents, content.uuid, status);
}

} // verus!
